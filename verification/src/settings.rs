//! The settings of a tunnel, checked before anything is opened.

use base64::engine::general_purpose::STANDARD;
use base64::{DecodeError, Engine};
use vstd::prelude::*;
use vstd::string::*;

use crate::error::{Base64Fault, Field, TunnelError};
use crate::mss::mss_limit;
use crate::text::{append_decimal, begins_with, decimal, has_char, trim, trimmed};

verus! {

/// The MTU of a tunnel that does not ask for one.
pub const DEFAULT_MTU: usize = 1280;

/// The smallest MTU of a tunnel.
pub const MIN_MTU: usize = 576;

/// The largest MTU of a tunnel.
pub const MAX_MTU: usize = 1500;

/// The length of a key.
pub const KEY_LEN: usize = 32;

/// What a Base64 text in the standard alphabet decodes to, or why it does not, as the `base64`
/// crate has it.
pub uninterp spec fn base64_standard(text: Seq<char>) -> Result<Seq<u8>, Base64Fault>;

/// A decoded text by its bytes.
pub open spec fn decoded_bytes(decoded: Result<Vec<u8>, Base64Fault>) -> Result<
    Seq<u8>,
    Base64Fault,
> {
    match decoded {
        Ok(bytes) => Ok(bytes@),
        Err(fault) => Err(fault),
    }
}

/// A decoded key by its bytes.
pub open spec fn key_bytes(key: Result<[u8; 32], TunnelError>) -> Result<Seq<u8>, TunnelError> {
    match key {
        Ok(bytes) => Ok(bytes@),
        Err(error) => Err(error),
    }
}

/// The key that a decoded text holds: its bytes, where they are as many as a key has.
pub open spec fn key_of(decoded: Result<Seq<u8>, Base64Fault>, field: Field) -> Result<
    Seq<u8>,
    TunnelError,
> {
    match decoded {
        Ok(bytes) => if bytes.len() == KEY_LEN {
            Ok(bytes)
        } else {
            Err(TunnelError::WrongKeyLength(field))
        },
        Err(fault) => Err(TunnelError::NotBase64(field, fault)),
    }
}

/// The key that a text stands for.
pub open spec fn key_in(text: Seq<char>, field: Field) -> Result<Seq<u8>, TunnelError> {
    key_of(base64_standard(trimmed(text)), field)
}

/// The MTU that a tunnel gets when it asks for `mtu`.
pub open spec fn effective_mtu(mtu: u32) -> nat {
    if mtu == 0 {
        DEFAULT_MTU as nat
    } else if mtu < MIN_MTU {
        MIN_MTU as nat
    } else if mtu > MAX_MTU {
        MAX_MTU as nat
    } else {
        mtu as nat
    }
}

/// A host and a port as one text. A host with a colon in it is an IPv6 address and is put in square
/// brackets, unless it begins with one.
pub open spec fn endpoint_text(host: Seq<char>, endpoint_port: u16) -> Seq<char> {
    if host.contains(':') && host[0] != '[' {
        "["@ + host + "]:"@ + decimal(endpoint_port as nat)
    } else {
        host + ":"@ + decimal(endpoint_port as nat)
    }
}

/// The address of a peer.
#[derive(Clone, Copy, Debug, PartialEq, Eq, Structural)]
pub enum PeerAddress {
    V4 { address: u32, port: u16 },
    V6 { address: u128, port: u16, flowinfo: u32, scope_id: u32 },
}

/// The settings of a tunnel.
pub struct TunnelSettings {
    pub private_key: [u8; 32],
    pub peer_public_key: [u8; 32],
    pub preshared_key: Option<[u8; 32]>,
    /// The host and port to resolve.
    pub endpoint: String,
    /// The interval of the persistent keepalive in seconds, where there is one.
    pub keepalive: Option<u16>,
    pub persistent_keepalive_ms: u64,
    pub mtu: usize,
}

/// The contents of [`TunnelSettings`].
pub ghost struct SettingsView {
    pub private_key: Seq<u8>,
    pub peer_public_key: Seq<u8>,
    pub preshared_key: Option<Seq<u8>>,
    pub endpoint: Seq<char>,
    pub keepalive: Option<u16>,
    pub persistent_keepalive_ms: nat,
    pub mtu: nat,
}

impl View for TunnelSettings {
    type V = SettingsView;

    open spec fn view(&self) -> SettingsView {
        SettingsView {
            private_key: self.private_key@,
            peer_public_key: self.peer_public_key@,
            preshared_key: match self.preshared_key {
                Some(key) => Some(key@),
                None => None,
            },
            endpoint: self.endpoint@,
            keepalive: self.keepalive,
            persistent_keepalive_ms: self.persistent_keepalive_ms as nat,
            mtu: self.mtu as nat,
        }
    }
}

/// The settings that a request makes, given its keys as they decoded. The first thing wrong with
/// the request, in the order of its fields, is its error.
pub open spec fn settings_of(
    private_key: Result<Seq<u8>, TunnelError>,
    peer_public_key: Result<Seq<u8>, TunnelError>,
    preshared_key: Option<Result<Seq<u8>, TunnelError>>,
    endpoint_host: Seq<char>,
    endpoint_port: u32,
    persistent_keepalive: u32,
    mtu: u32,
) -> Result<SettingsView, TunnelError> {
    if private_key is Err {
        Err(private_key->Err_0)
    } else if peer_public_key is Err {
        Err(peer_public_key->Err_0)
    } else if preshared_key is Some && preshared_key->0 is Err {
        Err(preshared_key->0->Err_0)
    } else if endpoint_port > 65535 {
        Err(TunnelError::OutOfRange(Field::EndpointPort))
    } else if persistent_keepalive > 65535 {
        Err(TunnelError::OutOfRange(Field::PersistentKeepalive))
    } else {
        Ok(
            SettingsView {
                private_key: private_key->Ok_0,
                peer_public_key: peer_public_key->Ok_0,
                preshared_key: match preshared_key {
                    Some(key) => Some(key->Ok_0),
                    None => None,
                },
                endpoint: endpoint_text(endpoint_host, endpoint_port as u16),
                keepalive: if persistent_keepalive == 0 {
                    None
                } else {
                    Some(persistent_keepalive as u16)
                },
                persistent_keepalive_ms: persistent_keepalive as nat * 1000,
                mtu: effective_mtu(mtu),
            },
        )
    }
}

/// Settings, or the reason why there are none, by their contents.
pub open spec fn settings_view(settings: Result<TunnelSettings, TunnelError>) -> Result<
    SettingsView,
    TunnelError,
> {
    match settings {
        Ok(settings) => Ok(settings@),
        Err(error) => Err(error),
    }
}

/// Decodes a Base64 text.
///
/// Calls `Engine::decode` of `base64::engine::general_purpose::STANDARD`. What it returns is a
/// function of the text alone and is called [`base64_standard`]; its error is taken over variant by
/// variant.
#[verifier::external_body]
fn decode_base64(text: &str) -> (decoded: Result<Vec<u8>, Base64Fault>)
    ensures
        decoded_bytes(decoded) == base64_standard(text@),
{
    match STANDARD.decode(text) {
        Ok(bytes) => Ok(bytes),
        Err(DecodeError::InvalidByte(offset, byte)) => Err(Base64Fault::InvalidByte(offset, byte)),
        Err(DecodeError::InvalidLength(len)) => Err(Base64Fault::InvalidLength(len)),
        Err(DecodeError::InvalidLastSymbol(offset, byte)) => {
            Err(Base64Fault::InvalidLastSymbol(offset, byte))
        },
        Err(DecodeError::InvalidPadding) => Err(Base64Fault::InvalidPadding),
    }
}

/// Takes the key out of a decoded text.
pub fn key_from_decoded(decoded: Result<Vec<u8>, Base64Fault>, field: Field) -> (key: Result<
    [u8; 32],
    TunnelError,
>)
    ensures
        key_bytes(key) == key_of(decoded_bytes(decoded), field),
        decoded matches Ok(bytes) ==> if bytes@.len() == 32 {
            key matches Ok(key) && key@ == bytes@
        } else {
            key == Err::<[u8; 32], TunnelError>(TunnelError::WrongKeyLength(field))
        },
        decoded matches Err(fault) ==> key == Err::<[u8; 32], TunnelError>(
            TunnelError::NotBase64(field, fault),
        ),
{
    match decoded {
        Ok(bytes) => {
            if bytes.len() != KEY_LEN {
                return Err(TunnelError::WrongKeyLength(field));
            }
            let mut key: [u8; 32] = [0u8;32];
            let mut index: usize = 0;
            while index < 32
                invariant
                    index <= 32,
                    bytes@.len() == 32,
                    forall|i: int| 0 <= i < index ==> key@[i] == bytes@[i],
                decreases 32 - index,
            {
                key[index] = bytes[index];
                index = index + 1;
            }
            assert(key@ == bytes@);
            Ok(key)
        },
        Err(fault) => Err(TunnelError::NotBase64(field, fault)),
    }
}

/// Decodes a key. White space around it does not count.
pub fn decode_key(value: &str, field: Field) -> (key: Result<[u8; 32], TunnelError>)
    ensures
        key_bytes(key) == key_in(value@, field),
        base64_standard(trimmed(value@)) matches Ok(bytes) ==> if bytes.len() == 32 {
            key matches Ok(key) && key@ == bytes
        } else {
            key == Err::<[u8; 32], TunnelError>(TunnelError::WrongKeyLength(field))
        },
        base64_standard(trimmed(value@)) matches Err(fault) ==> key == Err::<[u8; 32], TunnelError>(
            TunnelError::NotBase64(field, fault),
        ),
{
    key_from_decoded(decode_base64(trim(value)), field)
}

/// Narrows a number of the configuration to 16 bits.
pub fn to_u16(value: u32, field: Field) -> (narrow: Result<u16, TunnelError>)
    ensures
        narrow == if value > 65535 {
            Err::<u16, TunnelError>(TunnelError::OutOfRange(field))
        } else {
            Ok(value as u16)
        },
{
    if value > 65535 {
        return Err(TunnelError::OutOfRange(field));
    }
    Ok(value as u16)
}

/// Brings an MTU into the range of what a tunnel can have.
pub fn clamp_mtu(mtu: u32) -> (effective: usize)
    ensures
        effective == effective_mtu(mtu),
        mtu == 0 ==> effective == 1280,
        0 < mtu < 576 ==> effective == 576,
        576 <= mtu <= 1500 ==> effective == mtu,
        1500 < mtu ==> effective == 1500,
{
    if mtu == 0 {
        return DEFAULT_MTU;
    }
    let wanted: usize = mtu as usize;
    if wanted < MIN_MTU {
        MIN_MTU
    } else if wanted > MAX_MTU {
        MAX_MTU
    } else {
        wanted
    }
}

/// Writes a host and a port as one text that can be resolved.
pub fn format_endpoint(host: &str, endpoint_port: u16) -> (text: String)
    ensures
        text@ == endpoint_text(host@, endpoint_port),
        text@ == if host@.contains(':') && host@[0] != '[' {
            "["@ + host@ + "]:"@ + decimal(endpoint_port as nat)
        } else {
            host@ + ":"@ + decimal(endpoint_port as nat)
        },
{
    if has_char(host, ':') && !begins_with(host, '[') {
        let mut text = "[".to_string();
        text.append(host);
        text.append("]:");
        append_decimal(&mut text, endpoint_port as u64);
        text
    } else {
        let mut text = host.to_string();
        text.append(":");
        append_decimal(&mut text, endpoint_port as u64);
        text
    }
}

/// Picks the address to use from those that an endpoint resolved to: the first.
pub fn choose_address(addresses: &Vec<PeerAddress>) -> (chosen: Result<PeerAddress, TunnelError>)
    ensures
        chosen == if addresses@.len() == 0 {
            Err::<PeerAddress, TunnelError>(TunnelError::EndpointUnresolved)
        } else {
            Ok(addresses@[0])
        },
{
    if addresses.is_empty() {
        return Err(TunnelError::EndpointUnresolved);
    }
    Ok(addresses[0])
}

/// The local address to bind a socket to that can reach a peer: the unspecified address of the same
/// family.
pub open spec fn local_address(peer: PeerAddress) -> Seq<char> {
    match peer {
        PeerAddress::V4 { .. } => "0.0.0.0:0"@,
        PeerAddress::V6 { .. } => "[::]:0"@,
    }
}

/// Gives the local address to bind a socket to that can reach a peer.
pub fn bind_address(peer: PeerAddress) -> (address: &'static str)
    ensures
        address@ == local_address(peer),
        peer is V4 ==> address@ == "0.0.0.0:0"@,
        peer is V6 ==> address@ == "[::]:0"@,
{
    match peer {
        PeerAddress::V4 { .. } => "0.0.0.0:0",
        PeerAddress::V6 { .. } => "[::]:0",
    }
}

/// Checks the settings of a tunnel whose keys have been decoded.
pub fn tunnel_settings(
    private_key: Result<[u8; 32], TunnelError>,
    peer_public_key: Result<[u8; 32], TunnelError>,
    preshared_key: Option<Result<[u8; 32], TunnelError>>,
    endpoint_host: &str,
    endpoint_port: u32,
    persistent_keepalive: u32,
    mtu: u32,
) -> (settings: Result<TunnelSettings, TunnelError>)
    ensures
        settings_view(settings) == settings_of(
            key_bytes(private_key),
            key_bytes(peer_public_key),
            match preshared_key {
                Some(key) => Some(key_bytes(key)),
                None => None,
            },
            endpoint_host@,
            endpoint_port,
            persistent_keepalive,
            mtu,
        ),
        settings is Ok <==> {
            &&& private_key is Ok
            &&& peer_public_key is Ok
            &&& preshared_key matches Some(key) ==> key is Ok
            &&& endpoint_port <= 65535
            &&& persistent_keepalive <= 65535
        },
        settings matches Ok(settings) ==> {
            &&& private_key == Ok::<[u8; 32], TunnelError>(settings.private_key)
            &&& peer_public_key == Ok::<[u8; 32], TunnelError>(settings.peer_public_key)
            &&& preshared_key == match settings.preshared_key {
                Some(key) => Some(Ok::<[u8; 32], TunnelError>(key)),
                None => None,
            }
            &&& settings.endpoint@ == endpoint_text(endpoint_host@, endpoint_port as u16)
            &&& settings.keepalive == if persistent_keepalive == 0 {
                None
            } else {
                Some(persistent_keepalive as u16)
            }
            &&& settings.persistent_keepalive_ms == 1000 * persistent_keepalive
            &&& mtu == 0 ==> settings.mtu == 1280
            &&& 0 < mtu < 576 ==> settings.mtu == 576
            &&& 576 <= mtu <= 1500 ==> settings.mtu == mtu
            &&& 1500 < mtu ==> settings.mtu == 1500
        },
{
    let private_key = private_key?;
    let peer_public_key = peer_public_key?;
    let preshared_key = match preshared_key {
        Some(key) => Some(key?),
        None => None,
    };
    let endpoint_port: u16 = to_u16(endpoint_port, Field::EndpointPort)?;
    let persistent_keepalive_ms: u64 = persistent_keepalive as u64 * 1_000;
    let keepalive = if persistent_keepalive == 0 {
        None
    } else {
        Some(to_u16(persistent_keepalive, Field::PersistentKeepalive)?)
    };
    let mtu: usize = clamp_mtu(mtu);
    Ok(
        TunnelSettings {
            private_key,
            peer_public_key,
            preshared_key,
            endpoint: format_endpoint(endpoint_host, endpoint_port),
            keepalive,
            persistent_keepalive_ms,
            mtu,
        },
    )
}

/// Checks a request for a tunnel, and says what to resolve and to open for it.
pub fn create_tunnel(
    private_key: &str,
    peer_public_key: &str,
    preshared_key: &str,
    endpoint_host: &str,
    endpoint_port: u32,
    persistent_keepalive: u32,
    mtu: u32,
) -> (settings: Result<TunnelSettings, TunnelError>)
    ensures
        settings_view(settings) == settings_of(
            key_in(private_key@, Field::PrivateKey),
            key_in(peer_public_key@, Field::PeerPublicKey),
            if trimmed(preshared_key@).len() == 0 {
                None
            } else {
                Some(key_in(preshared_key@, Field::PresharedKey))
            },
            endpoint_host@,
            endpoint_port,
            persistent_keepalive,
            mtu,
        ),
        settings is Ok <==> {
            &&& base64_standard(trimmed(private_key@)) matches Ok(bytes) && bytes.len() == 32
            &&& base64_standard(trimmed(peer_public_key@)) matches Ok(bytes) && bytes.len() == 32
            &&& trimmed(preshared_key@).len() == 0 || (base64_standard(
                trimmed(preshared_key@),
            ) matches Ok(bytes) && bytes.len() == 32)
            &&& endpoint_port <= 65535
            &&& persistent_keepalive <= 65535
        },
        settings matches Ok(settings) ==> {
            &&& base64_standard(trimmed(private_key@)) == Ok::<Seq<u8>, Base64Fault>(
                settings.private_key@,
            )
            &&& base64_standard(trimmed(peer_public_key@)) == Ok::<Seq<u8>, Base64Fault>(
                settings.peer_public_key@,
            )
            &&& match settings.preshared_key {
                Some(key) => trimmed(preshared_key@).len() > 0 && base64_standard(
                    trimmed(preshared_key@),
                ) == Ok::<Seq<u8>, Base64Fault>(key@),
                None => trimmed(preshared_key@).len() == 0,
            }
            &&& settings.endpoint@ == endpoint_text(endpoint_host@, endpoint_port as u16)
            &&& settings.keepalive == if persistent_keepalive == 0 {
                None
            } else {
                Some(persistent_keepalive as u16)
            }
            &&& settings.persistent_keepalive_ms == 1000 * persistent_keepalive
            &&& mtu == 0 ==> settings.mtu == 1280
            &&& 0 < mtu < 576 ==> settings.mtu == 576
            &&& 576 <= mtu <= 1500 ==> settings.mtu == mtu
            &&& 1500 < mtu ==> settings.mtu == 1500
        },
{
    let private_key = decode_key(private_key, Field::PrivateKey);
    let peer_public_key = decode_key(peer_public_key, Field::PeerPublicKey);
    let preshared_key = if trim(preshared_key).is_empty() {
        None
    } else {
        Some(decode_key(preshared_key, Field::PresharedKey))
    };
    tunnel_settings(
        private_key,
        peer_public_key,
        preshared_key,
        endpoint_host,
        endpoint_port,
        persistent_keepalive,
        mtu,
    )
}

/// The MTU of a tunnel lies in its range, asking for it again gives it again, and it leaves room
/// for a TCP payload over either version of IP.
pub proof fn law_effective_mtu(mtu: u32)
    ensures
        MIN_MTU <= effective_mtu(mtu) <= MAX_MTU,
        effective_mtu(effective_mtu(mtu) as u32) == effective_mtu(mtu),
        mss_limit(effective_mtu(mtu), 20) == Some((effective_mtu(mtu) - 40) as nat),
        mss_limit(effective_mtu(mtu), 40) == Some((effective_mtu(mtu) - 60) as nat),
{
}

/// The persistent keepalive of accepted settings is the same number in seconds and in milliseconds,
/// and is absent where it is zero.
pub proof fn law_keepalive_units(
    private_key: Result<Seq<u8>, TunnelError>,
    peer_public_key: Result<Seq<u8>, TunnelError>,
    preshared_key: Option<Result<Seq<u8>, TunnelError>>,
    endpoint_host: Seq<char>,
    endpoint_port: u32,
    persistent_keepalive: u32,
    mtu: u32,
)
    ensures
        settings_of(
            private_key,
            peer_public_key,
            preshared_key,
            endpoint_host,
            endpoint_port,
            persistent_keepalive,
            mtu,
        ) matches Ok(settings) ==> match settings.keepalive {
            Some(seconds) => 0 < seconds && settings.persistent_keepalive_ms == seconds * 1000,
            None => settings.persistent_keepalive_ms == 0,
        },
{
}

/// Whatever 32 bytes the text of a key decodes to, they are the key, and no text that decodes to
/// fewer or more of them, or to nothing, is one. This holds of every field alike.
pub proof fn law_key_is_what_its_text_decodes_to(text: Seq<char>, field: Field)
    ensures
        base64_standard(trimmed(text)) matches Ok(bytes) ==> (bytes.len() == 32 ==> key_in(
            text,
            field,
        ) == Ok::<Seq<u8>, TunnelError>(bytes)),
        base64_standard(trimmed(text)) matches Ok(bytes) ==> (bytes.len() != 32 ==> key_in(
            text,
            field,
        ) == Err::<Seq<u8>, TunnelError>(TunnelError::WrongKeyLength(field))),
        base64_standard(trimmed(text)) matches Err(fault) ==> key_in(text, field) == Err::<
            Seq<u8>,
            TunnelError,
        >(TunnelError::NotBase64(field, fault)),
{
}

/// A request whose three keys decode to 32 bytes each, and whose numbers fit into 16 bits, is
/// accepted, and the settings hold those bytes and those numbers.
pub proof fn law_accepted_settings_hold_the_request(
    private_key: Seq<char>,
    peer_public_key: Seq<char>,
    preshared_key: Seq<char>,
    endpoint_host: Seq<char>,
    endpoint_port: u32,
    persistent_keepalive: u32,
    mtu: u32,
    keys: (Seq<u8>, Seq<u8>, Seq<u8>),
)
    requires
        base64_standard(trimmed(private_key)) == Ok::<Seq<u8>, Base64Fault>(keys.0),
        base64_standard(trimmed(peer_public_key)) == Ok::<Seq<u8>, Base64Fault>(keys.1),
        base64_standard(trimmed(preshared_key)) == Ok::<Seq<u8>, Base64Fault>(keys.2),
        keys.0.len() == 32,
        keys.1.len() == 32,
        keys.2.len() == 32,
        endpoint_port <= 65535,
        persistent_keepalive <= 65535,
        576 <= mtu <= 1500,
    ensures
        settings_of(
            key_in(private_key, Field::PrivateKey),
            key_in(peer_public_key, Field::PeerPublicKey),
            Some(key_in(preshared_key, Field::PresharedKey)),
            endpoint_host,
            endpoint_port,
            persistent_keepalive,
            mtu,
        ) matches Ok(settings) && {
            &&& settings.private_key == keys.0
            &&& settings.peer_public_key == keys.1
            &&& settings.preshared_key == Some(keys.2)
            &&& settings.persistent_keepalive_ms == 1000 * persistent_keepalive
            &&& settings.mtu == mtu
            &&& persistent_keepalive > 0 ==> (settings.keepalive matches Some(seconds) && seconds
                == persistent_keepalive)
        },
{
}

/// Of several things wrong with a request, the first in the order of its fields is its error.
pub proof fn law_first_fault_is_reported(
    private_key: Result<Seq<u8>, TunnelError>,
    peer_public_key: Result<Seq<u8>, TunnelError>,
    preshared_key: Option<Result<Seq<u8>, TunnelError>>,
    endpoint_host: Seq<char>,
    endpoint_port: u32,
    persistent_keepalive: u32,
    mtu: u32,
)
    ensures
        ({
            let settings = settings_of(
                private_key,
                peer_public_key,
                preshared_key,
                endpoint_host,
                endpoint_port,
                persistent_keepalive,
                mtu,
            );
            let keys = private_key is Ok && peer_public_key is Ok;
            &&& private_key matches Err(error) ==> settings == Err::<SettingsView, TunnelError>(
                error,
            )
            &&& private_key is Ok ==> (peer_public_key matches Err(error) ==> settings == Err::<
                SettingsView,
                TunnelError,
            >(error))
            &&& keys ==> (preshared_key matches Some(Err(error)) ==> settings == Err::<
                SettingsView,
                TunnelError,
            >(error))
            &&& keys && (preshared_key matches Some(key) ==> key is Ok) && endpoint_port > 65535
                ==> settings == Err::<SettingsView, TunnelError>(
                TunnelError::OutOfRange(Field::EndpointPort),
            )
            &&& keys && (preshared_key matches Some(key) ==> key is Ok) && endpoint_port <= 65535
                && persistent_keepalive > 65535 ==> settings == Err::<SettingsView, TunnelError>(
                TunnelError::OutOfRange(Field::PersistentKeepalive),
            )
        }),
{
}

/// A host and a port stand in one text so that both can be told apart: the port follows the last
/// colon, and a colon inside the host is kept apart by brackets.
pub proof fn law_endpoint_keeps_host_and_port(host: Seq<char>, endpoint_port: u16)
    ensures
        ({
            let text = endpoint_text(host, endpoint_port);
            let digits = decimal(endpoint_port as nat);
            let bare = !host.contains(':') || host.first() == '[';
            &&& bare ==> text == host.push(':') + digits
            &&& !bare ==> text == seq!['['] + host + seq![']', ':'] + digits
        }),
{
    reveal_strlit(":");
    reveal_strlit("[");
    reveal_strlit("]:");
    assert(":"@ =~= seq![':']);
    assert("["@ =~= seq!['[']);
    assert("]:"@ =~= seq![']', ':']);
    assert(host.push(':') =~= host + seq![':']);
}

} // verus!
