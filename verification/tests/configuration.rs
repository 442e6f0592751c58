use base64::engine::general_purpose::STANDARD;
use base64::Engine;

use wg_boringtun::error::{Base64Fault, Field, TunnelError};
use wg_boringtun::settings::{
    bind_address, choose_address, clamp_mtu, create_tunnel, decode_key, format_endpoint,
    key_from_decoded, to_u16, tunnel_settings, PeerAddress, TunnelSettings,
};

fn key(byte: u8) -> String {
    STANDARD.encode([byte; 32])
}

fn error_of(settings: Result<TunnelSettings, TunnelError>) -> TunnelError {
    match settings {
        Ok(_) => panic!("the settings were accepted"),
        Err(error) => error,
    }
}

#[test]
fn request_is_accepted() {
    let settings = match create_tunnel(
        &key(1),
        &format!(" {}\n", key(2)),
        &format!("\t{}\u{3000}", key(3)),
        "vpn.example.org",
        51820,
        25,
        1420,
    ) {
        Ok(settings) => settings,
        Err(error) => panic!("{}", error.message()),
    };
    assert_eq!(settings.private_key, [1; 32]);
    assert_eq!(settings.peer_public_key, [2; 32]);
    assert_eq!(settings.preshared_key, Some([3; 32]));
    assert_eq!(settings.endpoint, "vpn.example.org:51820");
    assert_eq!(settings.keepalive, Some(25));
    assert_eq!(settings.persistent_keepalive_ms, 25_000);
    assert_eq!(settings.mtu, 1420);
}

#[test]
fn preshared_key_and_keepalive_may_be_left_out() {
    let settings = match create_tunnel(&key(1), &key(2), " \u{85}\r\n", "fd00::1", 1, 0, 0) {
        Ok(settings) => settings,
        Err(error) => panic!("{}", error.message()),
    };
    assert_eq!(settings.preshared_key, None);
    assert_eq!(settings.keepalive, None);
    assert_eq!(settings.persistent_keepalive_ms, 0);
    assert_eq!(settings.endpoint, "[fd00::1]:1");
    assert_eq!(settings.mtu, 1280);
}

#[test]
fn first_error_in_the_order_of_the_fields_is_told() {
    let bad = "!";
    let good = key(9);
    assert_eq!(
        error_of(create_tunnel(bad, bad, bad, "h", 70000, 70000, 0)).message(),
        "privateKey is not valid base64: Invalid symbol 33, offset 0."
    );
    assert_eq!(
        error_of(create_tunnel(&good, bad, bad, "h", 70000, 70000, 0)).message(),
        "peerPublicKey is not valid base64: Invalid symbol 33, offset 0."
    );
    assert_eq!(
        error_of(create_tunnel(&good, &good, bad, "h", 70000, 70000, 0)).message(),
        "presharedKey is not valid base64: Invalid symbol 33, offset 0."
    );
    assert_eq!(
        error_of(create_tunnel(&good, &good, &good, "h", 70000, 70000, 0)).message(),
        "endpointPort out of range"
    );
    assert_eq!(
        error_of(create_tunnel(&good, &good, &good, "h", 65535, 70000, 0)).message(),
        "persistentKeepalive out of range"
    );
    assert!(create_tunnel(&good, &good, &good, "h", 65535, 65535, 0).is_ok());
}

#[test]
fn keys_have_a_length() {
    assert_eq!(
        decode_key(&STANDARD.encode([0; 31]), Field::PrivateKey),
        Err(TunnelError::WrongKeyLength(Field::PrivateKey))
    );
    assert_eq!(
        decode_key(&STANDARD.encode([0; 33]), Field::PeerPublicKey).map_err(|e| e.message()),
        Err("peerPublicKey must decode to 32 bytes".to_string())
    );
    assert_eq!(
        decode_key("", Field::PrivateKey),
        Err(TunnelError::WrongKeyLength(Field::PrivateKey))
    );
    let counted: Vec<u8> = (0..32).collect();
    let key = decode_key(&STANDARD.encode(&counted), Field::PrivateKey);
    assert_eq!(key.map(|key| key.to_vec()), Ok(counted));
}

#[test]
fn faults_are_told_as_the_decoder_tells_them() {
    for text in ["!", "AA=A", "A", "AAAAA", "AB==", "AA", "AA=", "AAA", "AAAA=", "\u{e9}"] {
        let told = match decode_key(text, Field::PrivateKey) {
            Err(TunnelError::NotBase64(Field::PrivateKey, fault)) => fault.message(),
            _ => panic!("{} was decoded", text),
        };
        let expected = match STANDARD.decode(text) {
            Ok(_) => panic!("{} is Base64", text),
            Err(fault) => format!("{}", fault),
        };
        assert_eq!(told, expected);
    }
}

#[test]
fn every_fault_has_its_words() {
    assert_eq!(Base64Fault::InvalidByte(12, 200).message(), "Invalid symbol 200, offset 12.");
    assert_eq!(Base64Fault::InvalidLength(5).message(), "Invalid input length: 5");
    assert_eq!(
        Base64Fault::InvalidLastSymbol(1, 66).message(),
        "Invalid last symbol 66, offset 1."
    );
    assert_eq!(Base64Fault::InvalidPadding.message(), "Invalid padding");
}

#[test]
fn every_error_has_its_words() {
    assert_eq!(TunnelError::EndpointUnresolved.message(), "endpoint did not resolve");
    assert_eq!(TunnelError::HandlesExhausted.message(), "tunnel handle space exhausted");
    assert_eq!(TunnelError::InvalidHandle.message(), "invalid tunnel handle");
    assert_eq!(TunnelError::UnknownHandle.message(), "unknown tunnel handle");
    assert_eq!(TunnelError::InvalidTunFd.message(), "invalid TUN fd");
    assert_eq!(Field::EndpointPort.name(), "endpointPort");
    assert_eq!(Field::PersistentKeepalive.name(), "persistentKeepalive");
}

#[test]
fn decoded_keys_are_checked() {
    assert_eq!(key_from_decoded(Ok(vec![5; 32]), Field::PrivateKey), Ok([5; 32]));
    assert_eq!(
        key_from_decoded(Ok(Vec::new()), Field::PresharedKey),
        Err(TunnelError::WrongKeyLength(Field::PresharedKey))
    );
    assert_eq!(
        key_from_decoded(Err(Base64Fault::InvalidPadding), Field::PresharedKey),
        Err(TunnelError::NotBase64(Field::PresharedKey, Base64Fault::InvalidPadding))
    );
}

#[test]
fn settings_are_made_of_decoded_keys() {
    let settings = tunnel_settings(Ok([1; 32]), Ok([2; 32]), None, "[::1]", 8, 65535, 100);
    let settings = match settings {
        Ok(settings) => settings,
        Err(error) => panic!("{}", error.message()),
    };
    assert_eq!(settings.endpoint, "[::1]:8");
    assert_eq!(settings.persistent_keepalive_ms, 65_535_000);
    assert_eq!(settings.mtu, 576);
    let wrong = TunnelError::WrongKeyLength(Field::PresharedKey);
    let settings = tunnel_settings(Ok([1; 32]), Ok([2; 32]), Some(Err(wrong)), "h", 8, 0, 0);
    assert_eq!(error_of(settings), wrong);
}

#[test]
fn numbers_are_narrowed() {
    assert_eq!(to_u16(0, Field::EndpointPort), Ok(0));
    assert_eq!(to_u16(65535, Field::EndpointPort), Ok(65535));
    assert_eq!(
        to_u16(65536, Field::EndpointPort),
        Err(TunnelError::OutOfRange(Field::EndpointPort))
    );
}

#[test]
fn mtu_is_brought_into_range() {
    assert_eq!(clamp_mtu(0), 1280);
    assert_eq!(clamp_mtu(1), 576);
    assert_eq!(clamp_mtu(576), 576);
    assert_eq!(clamp_mtu(1400), 1400);
    assert_eq!(clamp_mtu(1500), 1500);
    assert_eq!(clamp_mtu(9000), 1500);
    assert_eq!(clamp_mtu(u32::MAX), 1500);
}

#[test]
fn endpoints_are_written_for_the_resolver() {
    assert_eq!(format_endpoint("1.2.3.4", 51820), "1.2.3.4:51820");
    assert_eq!(format_endpoint("::1", 0), "[::1]:0");
    assert_eq!(format_endpoint("[::1]", 65535), "[::1]:65535");
    assert_eq!(format_endpoint("", 1), ":1");
}

#[test]
fn first_address_is_chosen() {
    let first = PeerAddress::V6 { address: 1, port: 2, flowinfo: 3, scope_id: 4 };
    let second = PeerAddress::V4 { address: 5, port: 6 };
    assert_eq!(choose_address(&vec![first, second]), Ok(first));
    assert_eq!(choose_address(&Vec::new()), Err(TunnelError::EndpointUnresolved));
}

#[test]
fn socket_is_of_the_family_of_the_peer() {
    assert_eq!(bind_address(PeerAddress::V4 { address: 0, port: 0 }), "0.0.0.0:0");
    assert_eq!(
        bind_address(PeerAddress::V6 { address: 0, port: 0, flowinfo: 0, scope_id: 0 }),
        "[::]:0"
    );
}
