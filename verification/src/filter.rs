//! Which packets of the TUN device are not worth waking the radio for.

use vstd::prelude::*;

use crate::bytes::{be_word, high_nibble, low_nibble, word_at};

verus! {

/// The protocol number of UDP.
pub const IPPROTO_UDP: u8 = 17;

/// The UDP ports of NetBIOS name and datagram service, SSDP, mDNS and LLMNR.
pub open spec fn is_discovery_port(value: nat) -> bool {
    value == 137 || value == 138 || value == 1900 || value == 5353 || value == 5355
}

/// The addresses of 169.254.0.0/16.
pub open spec fn ipv4_link_local(addr: Seq<u8>) -> bool {
    addr[0] == 169 && addr[1] == 254
}

/// The addresses of 224.0.0.0/4.
pub open spec fn ipv4_multicast(addr: Seq<u8>) -> bool {
    224 <= addr[0] <= 239
}

/// The address 255.255.255.255.
pub open spec fn ipv4_local_broadcast(addr: Seq<u8>) -> bool {
    addr[0] == 255 && addr[1] == 255 && addr[2] == 255 && addr[3] == 255
}

/// The addresses of fe80::/10.
pub open spec fn ipv6_link_local(addr: Seq<u8>) -> bool {
    addr.len() >= 2 && addr[0] == 0xfe && 0x80 <= addr[1] < 0xc0
}

/// The addresses of ff00::/8.
pub open spec fn ipv6_multicast(addr: Seq<u8>) -> bool {
    addr.len() > 0 && addr[0] == 0xff
}

/// A UDP payload that is truncated, or sent from or to a discovery port.
pub open spec fn quiet_udp(payload: Seq<u8>) -> bool {
    payload.len() < 8 || is_discovery_port(word_at(payload, 0)) || is_discovery_port(
        word_at(payload, 2),
    )
}

/// An IPv4 packet that is malformed, comes from a link-local address, goes to the local broadcast
/// or to a multicast address, or carries quiet UDP.
pub open spec fn quiet_ipv4(packet: Seq<u8>) -> bool {
    let header_len = packet[0] % 16 * 4;
    ||| packet.len() < 20
    ||| header_len < 20
    ||| packet.len() < header_len
    ||| ipv4_link_local(packet.subrange(12, 16))
    ||| ipv4_local_broadcast(packet.subrange(16, 20))
    ||| ipv4_multicast(packet.subrange(16, 20))
    ||| packet[9] == IPPROTO_UDP && quiet_udp(packet.skip(header_len))
}

/// An IPv6 packet that is malformed, comes from a link-local address, goes to a multicast address,
/// or carries quiet UDP.
pub open spec fn quiet_ipv6(packet: Seq<u8>) -> bool {
    ||| packet.len() < 40
    ||| ipv6_link_local(packet.subrange(8, 24))
    ||| ipv6_multicast(packet.subrange(24, 40))
    ||| packet[6] == IPPROTO_UDP && quiet_udp(packet.skip(40))
}

/// A packet that is not sent into the tunnel: one that is not IP, or quiet IP.
pub open spec fn is_quiet(packet: Seq<u8>) -> bool {
    packet.len() == 0 || if packet[0] / 16 == 4 {
        quiet_ipv4(packet)
    } else {
        packet[0] / 16 != 6 || quiet_ipv6(packet)
    }
}

/// Whether an IPv4 address is link-local.
pub fn is_ipv4_link_local(addr: [u8; 4]) -> (answer: bool)
    ensures
        answer == ipv4_link_local(addr@),
{
    addr[0] == 169 && addr[1] == 254
}

/// Whether an IPv4 address is a multicast address.
pub fn is_ipv4_multicast(addr: [u8; 4]) -> (answer: bool)
    ensures
        answer == ipv4_multicast(addr@),
{
    224 <= addr[0] && addr[0] <= 239
}

/// Whether an IPv4 address is the local broadcast address.
pub fn is_ipv4_local_broadcast(addr: [u8; 4]) -> (answer: bool)
    ensures
        answer == ipv4_local_broadcast(addr@),
{
    addr[0] == 255 && addr[1] == 255 && addr[2] == 255 && addr[3] == 255
}

/// Whether an IPv6 address is link-local.
pub fn is_ipv6_link_local(addr: &[u8]) -> (answer: bool)
    ensures
        answer == ipv6_link_local(addr@),
{
    if addr.len() < 2 {
        return false;
    }
    let second: u8 = addr[1];
    assert((second & 0xc0 == 0x80) <==> (0x80 <= second && second < 0xc0)) by (bit_vector);
    addr[0] == 0xfe && (second & 0xc0) == 0x80
}

/// Whether an IPv6 address is a multicast address.
pub fn is_ipv6_multicast(addr: &[u8]) -> (answer: bool)
    ensures
        answer == ipv6_multicast(addr@),
{
    !addr.is_empty() && addr[0] == 0xff
}

/// Whether a port belongs to a discovery protocol.
fn discovery_port(value: u16) -> (answer: bool)
    ensures
        answer == is_discovery_port(value as nat),
{
    value == 137 || value == 138 || value == 1900 || value == 5353 || value == 5355
}

/// Whether a UDP payload is dropped.
pub fn should_drop_quiet_udp_packet(payload: &[u8]) -> (drop: bool)
    ensures
        drop == quiet_udp(payload@),
{
    if payload.len() < 8 {
        return true;
    }
    let src_port: u16 = be_word(payload[0], payload[1]);
    let dst_port: u16 = be_word(payload[2], payload[3]);
    discovery_port(src_port) || discovery_port(dst_port)
}

/// Whether an IPv4 packet is dropped.
pub fn should_drop_quiet_ipv4_packet(packet: &[u8]) -> (drop: bool)
    ensures
        drop == quiet_ipv4(packet@),
{
    if packet.len() < 20 {
        return true;
    }
    let header_len: usize = low_nibble(packet[0]) as usize * 4;
    if header_len < 20 || packet.len() < header_len {
        return true;
    }
    let src: [u8; 4] = [packet[12], packet[13], packet[14], packet[15]];
    let dst: [u8; 4] = [packet[16], packet[17], packet[18], packet[19]];
    if is_ipv4_link_local(src) || is_ipv4_local_broadcast(dst) || is_ipv4_multicast(dst) {
        return true;
    }
    if packet[9] == IPPROTO_UDP {
        return should_drop_quiet_udp_packet(&packet[header_len..packet.len()]);
    }
    false
}

/// Whether an IPv6 packet is dropped.
pub fn should_drop_quiet_ipv6_packet(packet: &[u8]) -> (drop: bool)
    ensures
        drop == quiet_ipv6(packet@),
{
    if packet.len() < 40 {
        return true;
    }
    if is_ipv6_link_local(&packet[8..24]) || is_ipv6_multicast(&packet[24..40]) {
        return true;
    }
    if packet[6] == IPPROTO_UDP {
        return should_drop_quiet_udp_packet(&packet[40..packet.len()]);
    }
    false
}

/// Whether a packet of the TUN device is dropped.
pub fn should_drop_quiet_tun_packet(packet: &[u8]) -> (drop: bool)
    ensures
        drop == is_quiet(packet@),
{
    if packet.is_empty() {
        return true;
    }
    let version: u8 = high_nibble(packet[0]);
    if version == 4 {
        should_drop_quiet_ipv4_packet(packet)
    } else if version == 6 {
        should_drop_quiet_ipv6_packet(packet)
    } else {
        true
    }
}

/// An IPv4 packet with a whole header is dropped exactly when it comes from 169.254.0.0/16, goes to
/// 255.255.255.255 or to 224.0.0.0/4, or carries UDP that is cut off or has one of the ports 137,
/// 138, 1900, 5353 and 5355 on either side. A packet without a whole header is dropped.
pub proof fn law_which_ipv4_packets_are_dropped(packet: Seq<u8>)
    requires
        packet.len() > 0,
        packet[0] / 16 == 4,
    ensures
        packet.len() < 20 || packet[0] % 16 < 5 || packet.len() < packet[0] % 16 * 4 ==> is_quiet(
            packet,
        ),
        20 <= packet.len() && 5 <= packet[0] % 16 && packet[0] % 16 * 4 <= packet.len() ==> (
        is_quiet(packet) <==> {
            let start = packet[0] % 16 * 4;
            let src = 256 * packet[start] + packet[start + 1];
            let dst = 256 * packet[start + 2] + packet[start + 3];
            ||| packet[12] == 169 && packet[13] == 254
            ||| packet[16] == 255 && packet[17] == 255 && packet[18] == 255 && packet[19] == 255
            ||| 224 <= packet[16] <= 239
            ||| packet[9] == 17 && {
                ||| packet.len() < start + 8
                ||| src == 137 || src == 138 || src == 1900 || src == 5353 || src == 5355
                ||| dst == 137 || dst == 138 || dst == 1900 || dst == 5353 || dst == 5355
            }
        }),
{
    if 20 <= packet.len() && 5 <= packet[0] % 16 && packet[0] % 16 * 4 <= packet.len() {
        let start = packet[0] % 16 * 4;
        let payload = packet.skip(start);
        if payload.len() >= 8 {
            assert(payload[0] == packet[start] && payload[1] == packet[start + 1]);
            assert(payload[2] == packet[start + 2] && payload[3] == packet[start + 3]);
        }
    }
}

/// An IPv6 packet with a whole header is dropped exactly when it comes from fe80::/10, goes to
/// ff00::/8, or carries UDP that is cut off or has one of the ports 137, 138, 1900, 5353 and 5355
/// on either side. A packet without a whole header is dropped.
pub proof fn law_which_ipv6_packets_are_dropped(packet: Seq<u8>)
    requires
        packet.len() > 0,
        packet[0] / 16 == 6,
    ensures
        packet.len() < 40 ==> is_quiet(packet),
        40 <= packet.len() ==> (is_quiet(packet) <==> {
            let src = 256 * packet[40] + packet[41];
            let dst = 256 * packet[42] + packet[43];
            ||| packet[8] == 0xfe && packet[9] / 64 == 2
            ||| packet[24] == 0xff
            ||| packet[6] == 17 && {
                ||| packet.len() < 48
                ||| src == 137 || src == 138 || src == 1900 || src == 5353 || src == 5355
                ||| dst == 137 || dst == 138 || dst == 1900 || dst == 5353 || dst == 5355
            }
        }),
{
    if 40 <= packet.len() {
        let payload = packet.skip(40);
        if payload.len() >= 8 {
            assert(payload[0] == packet[40] && payload[1] == packet[41]);
            assert(payload[2] == packet[42] && payload[3] == packet[43]);
        }
    }
}

/// What is no IP packet is dropped.
pub proof fn law_what_is_not_ip_is_dropped(packet: Seq<u8>)
    requires
        packet.len() == 0 || packet[0] / 16 != 4 && packet[0] / 16 != 6,
    ensures
        is_quiet(packet),
{
}

/// A UDP payload is dropped exactly when it is cut off or has one of the ports 137, 138, 1900, 5353
/// and 5355 on either side.
pub proof fn law_which_udp_payloads_are_dropped(payload: Seq<u8>)
    ensures
        quiet_udp(payload) <==> {
            let src = 256 * payload[0] + payload[1];
            let dst = 256 * payload[2] + payload[3];
            ||| payload.len() < 8
            ||| src == 137 || src == 138 || src == 1900 || src == 5353 || src == 5355
            ||| dst == 137 || dst == 138 || dst == 1900 || dst == 5353 || dst == 5355
        },
{
}

/// The families of addresses that stay on a link, by their first bytes.
pub proof fn law_families_of_addresses(four: Seq<u8>, six: Seq<u8>)
    requires
        four.len() == 4,
    ensures
        ipv4_link_local(four) <==> four[0] == 169 && four[1] == 254,
        ipv4_multicast(four) <==> four[0] / 16 == 14,
        ipv4_local_broadcast(four) <==> four == seq![255u8, 255u8, 255u8, 255u8],
        ipv6_link_local(six) <==> six.len() >= 2 && six[0] == 0xfe && six[1] / 64 == 2,
        ipv6_multicast(six) <==> six.len() >= 1 && six[0] == 0xff,
{
    if ipv4_local_broadcast(four) {
        assert(four =~= seq![255u8, 255u8, 255u8, 255u8]);
    }
}

/// Where the version of a packet is not looked at, the rules for IPv4 and for IPv6 still go by its
/// bytes.
pub proof fn law_rules_without_the_version(packet: Seq<u8>)
    ensures
        packet.len() < 20 || packet[0] % 16 < 5 || packet.len() < packet[0] % 16 * 4
            ==> quiet_ipv4(packet),
        20 <= packet.len() && 5 <= packet[0] % 16 && packet[0] % 16 * 4 <= packet.len() ==> (
        quiet_ipv4(packet) <==> {
            let start = packet[0] % 16 * 4;
            let src = 256 * packet[start] + packet[start + 1];
            let dst = 256 * packet[start + 2] + packet[start + 3];
            ||| packet[12] == 169 && packet[13] == 254
            ||| packet[16] == 255 && packet[17] == 255 && packet[18] == 255 && packet[19] == 255
            ||| 224 <= packet[16] <= 239
            ||| packet[9] == 17 && {
                ||| packet.len() < start + 8
                ||| src == 137 || src == 138 || src == 1900 || src == 5353 || src == 5355
                ||| dst == 137 || dst == 138 || dst == 1900 || dst == 5353 || dst == 5355
            }
        }),
        packet.len() < 40 ==> quiet_ipv6(packet),
        40 <= packet.len() ==> (quiet_ipv6(packet) <==> {
            let src = 256 * packet[40] + packet[41];
            let dst = 256 * packet[42] + packet[43];
            ||| packet[8] == 0xfe && packet[9] / 64 == 2
            ||| packet[24] == 0xff
            ||| packet[6] == 17 && {
                ||| packet.len() < 48
                ||| src == 137 || src == 138 || src == 1900 || src == 5353 || src == 5355
                ||| dst == 137 || dst == 138 || dst == 1900 || dst == 5353 || dst == 5355
            }
        }),
{
    let start = packet[0] % 16 * 4;
    if 20 <= packet.len() && 5 <= packet[0] % 16 && start + 8 <= packet.len() {
        let payload = packet.skip(start);
        assert(payload[0] == packet[start] && payload[1] == packet[start + 1]);
        assert(payload[2] == packet[start + 2] && payload[3] == packet[start + 3]);
    }
    if 48 <= packet.len() {
        let payload = packet.skip(40);
        assert(payload[0] == packet[40] && payload[1] == packet[41]);
        assert(payload[2] == packet[42] && payload[3] == packet[43]);
    }
}

} // verus!
