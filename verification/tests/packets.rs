use wg_boringtun::bytes::{be_word, high_nibble, low_nibble, put_word, word_bytes};
use wg_boringtun::checksum::{
    add_checksum_bytes, finish_checksum, write_ipv4_tcp_checksum, write_ipv6_tcp_checksum,
    IPPROTO_TCP,
};
use wg_boringtun::filter::{
    is_ipv4_link_local, is_ipv4_local_broadcast, is_ipv4_multicast, is_ipv6_link_local,
    is_ipv6_multicast, should_drop_quiet_ipv4_packet, should_drop_quiet_ipv6_packet,
    should_drop_quiet_tun_packet, should_drop_quiet_udp_packet, IPPROTO_UDP,
};
use wg_boringtun::mss::{
    clamp_ipv4_tcp_mss, clamp_ipv6_tcp_mss, clamp_tcp_mss, clamp_tcp_mss_option, tcp_mss_for_mtu,
};
use wg_boringtun::summary::{
    format_ipv4, format_ipv6, format_tcp_flags, protocol_name, summarize_ip_packet,
    summarize_ipv4_packet, summarize_ipv6_packet, summarize_transport_packet, IPPROTO_ICMP,
    IPPROTO_ICMPV6,
};

const SRC4: [u8; 4] = [10, 0, 0, 1];
const DST4: [u8; 4] = [93, 184, 216, 34];
const SRC6: [u8; 16] = [0x20, 1, 0x0d, 0xb8, 0, 0, 0, 0, 0, 0, 0, 0, 0, 0, 0, 1];
const DST6: [u8; 16] = [0x20, 1, 0x0d, 0xb8, 0, 0, 0, 0, 0, 0, 0, 0, 0, 0, 0, 2];

fn ipv4(protocol: u8, src: [u8; 4], dst: [u8; 4], payload: &[u8]) -> Vec<u8> {
    let mut packet = vec![0x45, 0, 0, 0, 0x12, 0x34, 0x40, 0, 64, protocol, 0, 0];
    packet.extend_from_slice(&src);
    packet.extend_from_slice(&dst);
    packet.extend_from_slice(payload);
    let len = (packet.len() as u16).to_be_bytes();
    packet[2] = len[0];
    packet[3] = len[1];
    packet
}

fn ipv6(protocol: u8, src: [u8; 16], dst: [u8; 16], payload: &[u8]) -> Vec<u8> {
    let len = (payload.len() as u16).to_be_bytes();
    let mut packet = vec![0x60, 0, 0, 0, len[0], len[1], protocol, 64];
    packet.extend_from_slice(&src);
    packet.extend_from_slice(&dst);
    packet.extend_from_slice(payload);
    packet
}

fn tcp(flags: u8, options: &[u8]) -> Vec<u8> {
    let mut segment = vec![0x9c, 0x40, 0x01, 0xbb, 1, 2, 3, 4, 0, 0, 0, 0];
    segment.push((((20 + options.len()) / 4) as u8) << 4);
    segment.push(flags);
    segment.extend_from_slice(&[0xff, 0xff, 0, 0, 0, 0]);
    segment.extend_from_slice(options);
    segment
}

fn udp(src_port: u16, dst_port: u16) -> Vec<u8> {
    let mut payload = Vec::new();
    payload.extend_from_slice(&src_port.to_be_bytes());
    payload.extend_from_slice(&dst_port.to_be_bytes());
    payload.extend_from_slice(&[0, 8, 0, 0]);
    payload
}

fn syn4(mss: u16) -> Vec<u8> {
    let mss = mss.to_be_bytes();
    let mut packet = ipv4(6, SRC4, DST4, &tcp(0x02, &[2, 4, mss[0], mss[1]]));
    let len = packet.len();
    write_ipv4_tcp_checksum(&mut packet, 20, len);
    packet
}

fn syn6(mss: u16) -> Vec<u8> {
    let mss = mss.to_be_bytes();
    let mut packet = ipv6(6, SRC6, DST6, &tcp(0x02, &[2, 4, mss[0], mss[1]]));
    let len = packet.len();
    write_ipv6_tcp_checksum(&mut packet, 40, len);
    packet
}

#[test]
fn protocol_numbers_are_those_of_the_system() {
    assert_eq!(i32::from(IPPROTO_TCP), libc::IPPROTO_TCP);
    assert_eq!(i32::from(IPPROTO_UDP), libc::IPPROTO_UDP);
    assert_eq!(i32::from(IPPROTO_ICMP), libc::IPPROTO_ICMP);
    assert_eq!(i32::from(IPPROTO_ICMPV6), libc::IPPROTO_ICMPV6);
}

#[test]
fn words_and_nibbles() {
    assert_eq!(be_word(0x12, 0x34), 0x1234);
    assert_eq!(word_bytes(0xabcd), (0xab, 0xcd));
    assert_eq!(high_nibble(0xa5), 0x0a);
    assert_eq!(low_nibble(0xa5), 0x05);
    let mut data = [1u8, 2, 3, 4];
    put_word(&mut data, 1, 0xbeef);
    assert_eq!(data, [1, 0xbe, 0xef, 4]);
}

#[test]
fn empty_packet_is_summarised() {
    assert_eq!(summarize_ip_packet(&[]), "empty");
}

#[test]
fn packet_of_another_version_is_summarised() {
    assert_eq!(summarize_ip_packet(&[0x51]), "ip_version_5");
    assert_eq!(summarize_ip_packet(&[0xff, 0, 0]), "ip_version_15");
    assert_eq!(summarize_ip_packet(&[0x00]), "ip_version_0");
}

#[test]
fn cut_off_packets_are_summarised() {
    assert_eq!(summarize_ip_packet(&[0x45; 19]), "ipv4_short");
    assert_eq!(summarize_ip_packet(&[0x44; 20]), "ipv4_bad_header");
    assert_eq!(summarize_ipv4_packet(&[0x46; 23]), "ipv4_bad_header");
    assert_eq!(summarize_ip_packet(&[0x60; 39]), "ipv6_short");
    assert_eq!(summarize_ipv6_packet(&[]), "ipv6_short");
}

#[test]
fn tcp_packets_are_summarised() {
    let mut segment = tcp(0x18, &[]);
    segment.extend_from_slice(b"hello");
    assert_eq!(
        summarize_ip_packet(&ipv4(6, SRC4, DST4, &segment)),
        "ipv4 tcp 10.0.0.1:40000 -> 93.184.216.34:443 flags=ACK|PSH len=45 data=5"
    );
    assert_eq!(
        summarize_ip_packet(&ipv6(6, SRC6, DST6, &segment)),
        "ipv6 tcp 2001:db8:0:0:0:0:0:1:40000 -> 2001:db8:0:0:0:0:0:2:443 flags=ACK|PSH len=65 data=5"
    );
    assert_eq!(
        summarize_ip_packet(&ipv4(6, SRC4, DST4, &[1, 2, 3])),
        "ipv4 tcp 10.0.0.1 -> 93.184.216.34 short"
    );
}

#[test]
fn cut_off_tcp_headers_are_summarised() {
    assert_eq!(
        summarize_transport_packet("ipv4", 6, "a", "b", &[0, 80, 0, 81], 24),
        "ipv4 tcp a:80 -> b:81 flags=? len=24 data=4"
    );
    let mut payload = vec![0, 80, 0, 81, 0, 0, 0, 0, 0, 0, 0, 0, 0x50];
    assert_eq!(
        summarize_transport_packet("ipv4", 6, "a", "b", &payload, 33),
        "ipv4 tcp a:80 -> b:81 flags=? len=33 data=0"
    );
    payload.push(0x11);
    assert_eq!(
        summarize_transport_packet("ipv4", 6, "a", "b", &payload, 34),
        "ipv4 tcp a:80 -> b:81 flags=ACK|FIN len=34 data=0"
    );
}

#[test]
fn stated_length_does_not_exceed_the_packet() {
    let mut packet = ipv4(17, SRC4, DST4, &udp(1000, 2000));
    packet[2] = 0xff;
    assert_eq!(
        summarize_ip_packet(&packet),
        "ipv4 udp 10.0.0.1:1000 -> 93.184.216.34:2000 len=28"
    );
    packet[2] = 0;
    packet[3] = 21;
    assert_eq!(
        summarize_ip_packet(&packet),
        "ipv4 udp 10.0.0.1:1000 -> 93.184.216.34:2000 len=21"
    );
}

#[test]
fn other_protocols_are_summarised() {
    assert_eq!(
        summarize_ip_packet(&ipv4(17, SRC4, DST4, &[0; 7])),
        "ipv4 udp 10.0.0.1 -> 93.184.216.34 short"
    );
    assert_eq!(
        summarize_ip_packet(&ipv4(1, SRC4, DST4, &[])),
        "ipv4 icmp 10.0.0.1 -> 93.184.216.34"
    );
    assert_eq!(
        summarize_ip_packet(&ipv6(58, SRC6, DST6, &[])),
        "ipv6 icmpv6 2001:db8:0:0:0:0:0:1 -> 2001:db8:0:0:0:0:0:2"
    );
    assert_eq!(
        summarize_ip_packet(&ipv4(47, SRC4, DST4, &[])),
        "ipv4 proto47 10.0.0.1 -> 93.184.216.34"
    );
}

#[test]
fn flags_and_names() {
    assert_eq!(format_tcp_flags(0), "NONE");
    assert_eq!(format_tcp_flags(0x20), "NONE");
    assert_eq!(format_tcp_flags(0x02), "SYN");
    assert_eq!(format_tcp_flags(0x12), "SYN|ACK");
    assert_eq!(format_tcp_flags(0xff), "SYN|ACK|PSH|FIN|RST");
    assert_eq!(protocol_name(6), "tcp");
    assert_eq!(protocol_name(17), "udp");
    assert_eq!(protocol_name(1), "icmp");
    assert_eq!(protocol_name(58), "icmpv6");
    assert_eq!(protocol_name(0), "other");
}

#[test]
fn addresses_are_written_out() {
    assert_eq!(format_ipv4(&[255, 0, 10, 7]), "255.0.10.7");
    assert_eq!(format_ipv4(&[1, 2, 3]), "?");
    assert_eq!(format_ipv6(&[0xab; 16]), "abab:abab:abab:abab:abab:abab:abab:abab");
    assert_eq!(format_ipv6(&SRC6), "2001:db8:0:0:0:0:0:1");
    assert_eq!(format_ipv6(&[0; 15]), "?");
}

#[test]
fn local_addresses_are_known() {
    assert!(is_ipv4_link_local([169, 254, 1, 1]));
    assert!(!is_ipv4_link_local([169, 253, 1, 1]));
    assert!(!is_ipv4_multicast([223, 255, 255, 255]));
    assert!(is_ipv4_multicast([224, 0, 0, 0]));
    assert!(is_ipv4_multicast([239, 255, 255, 255]));
    assert!(!is_ipv4_multicast([240, 0, 0, 0]));
    assert!(is_ipv4_local_broadcast([255, 255, 255, 255]));
    assert!(!is_ipv4_local_broadcast([255, 255, 255, 254]));
    assert!(is_ipv6_link_local(&[0xfe, 0x80]));
    assert!(is_ipv6_link_local(&[0xfe, 0xbf]));
    assert!(!is_ipv6_link_local(&[0xfe, 0xc0]));
    assert!(!is_ipv6_link_local(&[0xfe]));
    assert!(is_ipv6_multicast(&[0xff]));
    assert!(!is_ipv6_multicast(&[0xfe]));
    assert!(!is_ipv6_multicast(&[]));
}

#[test]
fn quiet_udp_is_dropped() {
    for port in [137u16, 138, 1900, 5353, 5355] {
        assert!(should_drop_quiet_udp_packet(&udp(port, 40000)));
        assert!(should_drop_quiet_udp_packet(&udp(40000, port)));
    }
    assert!(!should_drop_quiet_udp_packet(&udp(40000, 53)));
    assert!(!should_drop_quiet_udp_packet(&udp(139, 5354)));
    assert!(should_drop_quiet_udp_packet(&[0; 7]));
}

#[test]
fn quiet_ipv4_packets_are_dropped() {
    assert!(!should_drop_quiet_tun_packet(&ipv4(17, SRC4, DST4, &udp(40000, 53))));
    assert!(should_drop_quiet_tun_packet(&ipv4(17, SRC4, DST4, &udp(40000, 5353))));
    assert!(should_drop_quiet_tun_packet(&ipv4(17, SRC4, DST4, &[0; 4])));
    assert!(!should_drop_quiet_tun_packet(&ipv4(6, SRC4, DST4, &[])));
    assert!(should_drop_quiet_tun_packet(&ipv4(6, [169, 254, 0, 1], DST4, &[])));
    assert!(!should_drop_quiet_tun_packet(&ipv4(6, SRC4, [169, 254, 0, 1], &[])));
    assert!(should_drop_quiet_tun_packet(&ipv4(6, SRC4, [255, 255, 255, 255], &[])));
    assert!(should_drop_quiet_tun_packet(&ipv4(6, SRC4, [224, 0, 0, 251], &[])));
    assert!(should_drop_quiet_ipv4_packet(&[0x45; 19]));
    assert!(should_drop_quiet_ipv4_packet(&[0x44; 40]));
    assert!(should_drop_quiet_ipv4_packet(&[0x4f; 59]));
}

#[test]
fn quiet_ipv6_packets_are_dropped() {
    let mut link_local = [0; 16];
    link_local[0] = 0xfe;
    link_local[1] = 0x80;
    let mut multicast = [0; 16];
    multicast[0] = 0xff;
    multicast[1] = 0x02;
    assert!(!should_drop_quiet_tun_packet(&ipv6(17, SRC6, DST6, &udp(40000, 53))));
    assert!(should_drop_quiet_tun_packet(&ipv6(17, SRC6, DST6, &udp(1900, 53))));
    assert!(!should_drop_quiet_tun_packet(&ipv6(6, SRC6, DST6, &[])));
    assert!(should_drop_quiet_tun_packet(&ipv6(6, link_local, DST6, &[])));
    assert!(!should_drop_quiet_tun_packet(&ipv6(6, SRC6, link_local, &[])));
    assert!(should_drop_quiet_tun_packet(&ipv6(6, SRC6, multicast, &[])));
    assert!(should_drop_quiet_ipv6_packet(&[0x60; 39]));
}

#[test]
fn packets_of_no_ip_version_are_dropped() {
    assert!(should_drop_quiet_tun_packet(&[]));
    assert!(should_drop_quiet_tun_packet(&[0x50; 64]));
    assert!(should_drop_quiet_tun_packet(&[0; 64]));
}

#[test]
fn checksum_of_a_block() {
    let sum = add_checksum_bytes(0, &[0x00, 0x01, 0xf2, 0x03, 0xf4, 0xf5, 0xf6, 0xf7]);
    assert_eq!(sum, 0x2ddf0);
    assert_eq!(finish_checksum(sum), 0x220d);
    assert_eq!(finish_checksum(add_checksum_bytes(0, &[0x12, 0x34, 0x56])), 0x97cb);
    assert_eq!(add_checksum_bytes(7, &[]), 7);
    assert_eq!(add_checksum_bytes(u32::MAX, &[0, 2]), 1);
    assert_eq!(finish_checksum(0), 0xffff);
    assert_eq!(finish_checksum(0xffff), 0);
    assert_eq!(finish_checksum(u32::MAX), 0);
}

#[test]
fn written_checksums_are_exact_and_verify() {
    let packet = syn4(1460);
    assert_eq!(&packet[36..38], &[0xb6, 0x49]);
    let mut sum = add_checksum_bytes(0, &packet[12..20]);
    sum = add_checksum_bytes(sum, &[0, 6, 0, 24]);
    sum = add_checksum_bytes(sum, &packet[20..]);
    assert_eq!(finish_checksum(sum), 0);

    let packet = syn6(1460);
    assert_eq!(&packet[56..58], &[0x9a, 0xb0]);
    let mut sum = add_checksum_bytes(0, &packet[8..40]);
    sum = add_checksum_bytes(sum, &[0, 0, 0, 24, 0, 0, 0, 6]);
    sum = add_checksum_bytes(sum, &packet[40..]);
    assert_eq!(finish_checksum(sum), 0);
}

#[test]
fn segment_size_for_an_mtu() {
    assert_eq!(tcp_mss_for_mtu(1280, 20), Some(1240));
    assert_eq!(tcp_mss_for_mtu(1280, 40), Some(1220));
    assert_eq!(tcp_mss_for_mtu(40, 20), Some(0));
    assert_eq!(tcp_mss_for_mtu(39, 20), None);
    assert_eq!(tcp_mss_for_mtu(65575, 20), Some(65535));
    assert_eq!(tcp_mss_for_mtu(65576, 20), None);
}

#[test]
fn large_segment_sizes_are_clamped() {
    let mut packet = syn4(1460);
    assert!(clamp_tcp_mss(&mut packet, 1280));
    assert_eq!(packet, syn4(1240));
    assert_eq!(&packet[36..38], &[0xb7, 0x25]);
    assert!(!clamp_tcp_mss(&mut packet, 1280));
    assert_eq!(packet, syn4(1240));

    let mut packet = syn6(1460);
    assert!(clamp_tcp_mss(&mut packet, 1280));
    assert_eq!(packet, syn6(1220));
    assert_eq!(&packet[56..58], &[0x9b, 0xa0]);
    assert!(!clamp_tcp_mss(&mut packet, 1280));
}

#[test]
fn small_segment_sizes_are_kept() {
    let mut packet = syn4(536);
    assert!(!clamp_tcp_mss(&mut packet, 1280));
    assert_eq!(packet, syn4(536));
    let mut packet = syn6(1220);
    assert!(!clamp_tcp_mss(&mut packet, 1280));
    assert_eq!(packet, syn6(1220));
}

#[test]
fn clamping_keeps_whether_a_packet_is_dropped() {
    let mut packet = syn4(1460);
    assert!(!should_drop_quiet_tun_packet(&packet));
    assert!(clamp_tcp_mss(&mut packet, 576));
    assert!(!should_drop_quiet_tun_packet(&packet));
}

#[test]
fn other_packets_are_not_clamped() {
    for mut packet in [
        Vec::new(),
        vec![0x50; 60],
        ipv4(17, SRC4, DST4, &tcp(0x02, &[2, 4, 0xff, 0xff])),
        ipv6(17, SRC6, DST6, &tcp(0x02, &[2, 4, 0xff, 0xff])),
        ipv4(6, SRC4, DST4, &tcp(0x10, &[2, 4, 0xff, 0xff])),
        ipv4(6, SRC4, DST4, &tcp(0x02, &[])),
        ipv4(6, SRC4, DST4, &tcp(0x02, &[0, 0, 0, 0, 2, 4, 0xff, 0xff])),
        ipv4(6, SRC4, DST4, &tcp(0x02, &[3, 1, 2, 4, 0xff, 0xff, 0, 0])),
        ipv4(6, SRC4, DST4, &tcp(0x02, &[1, 1, 1, 2])),
        ipv4(6, SRC4, DST4, &[0; 19]),
        ipv6(6, SRC6, DST6, &[0; 19]),
    ] {
        let before = packet.clone();
        assert!(!clamp_tcp_mss(&mut packet, 1280));
        assert_eq!(packet, before);
    }
}

#[test]
fn options_before_the_segment_size_are_skipped() {
    let mut packet = ipv4(6, SRC4, DST4, &tcp(0x02, &[1, 3, 3, 7, 2, 4, 0x05, 0xb4]));
    assert!(clamp_ipv4_tcp_mss(&mut packet, 1280));
    assert_eq!(&packet[40..48], &[1, 3, 3, 7, 2, 4, 0x04, 0xd8]);
    let mut packet = ipv6(6, SRC6, DST6, &tcp(0x02, &[1, 1, 2, 4, 0x05, 0xb4, 1, 1]));
    assert!(clamp_ipv6_tcp_mss(&mut packet, 1280));
    assert_eq!(&packet[60..68], &[1, 1, 2, 4, 0x04, 0xc4, 1, 1]);
}

#[test]
fn lengths_that_do_not_fit_stop_the_clamp() {
    let mut packet = syn4(1460);
    packet[3] += 1;
    assert!(!clamp_ipv4_tcp_mss(&mut packet, 1280));
    let mut packet = syn4(1460);
    packet[0] = 0x44;
    assert!(!clamp_ipv4_tcp_mss(&mut packet, 1280));
    let mut packet = syn6(1460);
    packet[5] += 1;
    assert!(!clamp_ipv6_tcp_mss(&mut packet, 1280));
    let mut packet = syn4(1460);
    assert!(!clamp_tcp_mss(&mut packet, 39));
}

#[test]
fn option_is_clamped_without_its_checksum() {
    let mut packet = syn4(1460);
    assert!(!clamp_tcp_mss_option(&mut packet, 20, 45, 1000));
    assert!(!clamp_tcp_mss_option(&mut packet, 20, 39, 1000));
    assert!(clamp_tcp_mss_option(&mut packet, 20, 44, 1000));
    assert_eq!(&packet[36..38], &[0xb6, 0x49]);
    assert_eq!(&packet[40..44], &[2, 4, 0x03, 0xe8]);
}
