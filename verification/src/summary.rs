//! One-line summaries of IP packets.

use vstd::prelude::*;
use vstd::string::*;

use crate::bytes::{be_word, high_nibble, low_nibble, word_at};
use crate::checksum::IPPROTO_TCP;
use crate::filter::IPPROTO_UDP;
use crate::text::{
    append_decimal, append_hexadecimal, decimal, hexadecimal, join, joined, law_joined_lists, texts,
};

verus! {

/// The protocol number of ICMP.
pub const IPPROTO_ICMP: u8 = 1;

/// The protocol number of ICMPv6.
pub const IPPROTO_ICMPV6: u8 = 58;

/// The name of a transport protocol.
pub open spec fn name_of_protocol(protocol: u8) -> Seq<char> {
    if protocol == IPPROTO_TCP {
        "tcp"@
    } else if protocol == IPPROTO_UDP {
        "udp"@
    } else if protocol == IPPROTO_ICMP {
        "icmp"@
    } else if protocol == IPPROTO_ICMPV6 {
        "icmpv6"@
    } else {
        "other"@
    }
}

/// An IPv4 address in dotted decimal notation; a question mark where bytes are missing.
pub open spec fn ipv4_text(addr: Seq<u8>) -> Seq<char> {
    if addr.len() < 4 {
        "?"@
    } else {
        decimal(addr[0] as nat) + "."@ + decimal(addr[1] as nat) + "."@ + decimal(addr[2] as nat)
            + "."@ + decimal(addr[3] as nat)
    }
}

/// An IPv6 address as eight hexadecimal groups; a question mark where bytes are missing.
pub open spec fn ipv6_text(addr: Seq<u8>) -> Seq<char> {
    if addr.len() < 16 {
        "?"@
    } else {
        joined(Seq::new(8, |i: int| hexadecimal(word_at(addr, 2 * i))), ":"@)
    }
}

/// A list that holds `name` where `present`, and nothing otherwise.
pub open spec fn name_if(present: bool, name: Seq<char>) -> Seq<Seq<char>> {
    if present {
        seq![name]
    } else {
        Seq::empty()
    }
}

/// The names of the TCP flags that are set.
pub open spec fn tcp_flag_names(flags: u8) -> Seq<Seq<char>> {
    name_if(flags & 0x02 != 0, "SYN"@) + name_if(flags & 0x10 != 0, "ACK"@) + name_if(
        flags & 0x08 != 0,
        "PSH"@,
    ) + name_if(flags & 0x01 != 0, "FIN"@) + name_if(flags & 0x04 != 0, "RST"@)
}

/// The TCP flags as text.
pub open spec fn tcp_flags_text(flags: u8) -> Seq<char> {
    if tcp_flag_names(flags).len() == 0 {
        "NONE"@
    } else {
        joined(tcp_flag_names(flags), "|"@)
    }
}

/// The number of data bytes behind the TCP header at the beginning of `payload`. A header that is
/// cut off before its data offset counts as empty, one that is longer than the payload as all of
/// it.
pub open spec fn tcp_data_len(payload: Seq<u8>) -> nat {
    let header_len: int = if payload.len() >= 13 {
        payload[12] / 16 * 4
    } else {
        0
    };
    if header_len <= payload.len() {
        (payload.len() - header_len) as nat
    } else {
        0
    }
}

/// The summary of a packet from what its transport header says.
pub open spec fn transport_summary(
    family: Seq<char>,
    protocol: u8,
    src: Seq<char>,
    dst: Seq<char>,
    payload: Seq<u8>,
    packet_len: nat,
) -> Seq<char> {
    if protocol == IPPROTO_TCP {
        if payload.len() < 4 {
            family + " tcp "@ + src + " -> "@ + dst + " short"@
        } else {
            family + " tcp "@ + src + ":"@ + decimal(word_at(payload, 0)) + " -> "@ + dst + ":"@
                + decimal(word_at(payload, 2)) + " flags="@ + (if payload.len() >= 14 {
                tcp_flags_text(payload[13])
            } else {
                "?"@
            }) + " len="@ + decimal(packet_len) + " data="@ + decimal(tcp_data_len(payload))
        }
    } else if protocol == IPPROTO_UDP {
        if payload.len() < 8 {
            family + " udp "@ + src + " -> "@ + dst + " short"@
        } else {
            family + " udp "@ + src + ":"@ + decimal(word_at(payload, 0)) + " -> "@ + dst + ":"@
                + decimal(word_at(payload, 2)) + " len="@ + decimal(packet_len)
        }
    } else if protocol == IPPROTO_ICMP || protocol == IPPROTO_ICMPV6 {
        family + " "@ + name_of_protocol(protocol) + " "@ + src + " -> "@ + dst
    } else {
        family + " proto"@ + decimal(protocol as nat) + " "@ + src + " -> "@ + dst
    }
}

/// The smaller of two numbers.
pub open spec fn smaller(a: nat, b: nat) -> nat {
    if a <= b {
        a
    } else {
        b
    }
}

/// The summary of an IPv4 packet.
pub open spec fn ipv4_summary(packet: Seq<u8>) -> Seq<char> {
    let header_len = packet[0] % 16 * 4;
    if packet.len() < 20 {
        "ipv4_short"@
    } else if header_len < 20 || packet.len() < header_len {
        "ipv4_bad_header"@
    } else {
        transport_summary(
            "ipv4"@,
            packet[9],
            ipv4_text(packet.subrange(12, 16)),
            ipv4_text(packet.subrange(16, 20)),
            packet.skip(header_len),
            smaller(word_at(packet, 2), packet.len()),
        )
    }
}

/// The summary of an IPv6 packet.
pub open spec fn ipv6_summary(packet: Seq<u8>) -> Seq<char> {
    if packet.len() < 40 {
        "ipv6_short"@
    } else {
        transport_summary(
            "ipv6"@,
            packet[6],
            ipv6_text(packet.subrange(8, 24)),
            ipv6_text(packet.subrange(24, 40)),
            packet.skip(40),
            smaller(40 + word_at(packet, 4), packet.len()),
        )
    }
}

/// The summary of a packet.
pub open spec fn summary(packet: Seq<u8>) -> Seq<char> {
    if packet.len() == 0 {
        "empty"@
    } else if packet[0] / 16 == 4 {
        ipv4_summary(packet)
    } else if packet[0] / 16 == 6 {
        ipv6_summary(packet)
    } else {
        "ip_version_"@ + decimal((packet[0] / 16) as nat)
    }
}

/// Names a transport protocol.
pub fn protocol_name(protocol: u8) -> (name: &'static str)
    ensures
        name@ == name_of_protocol(protocol),
{
    if protocol == IPPROTO_TCP {
        return "tcp";
    }
    if protocol == IPPROTO_UDP {
        return "udp";
    }
    if protocol == IPPROTO_ICMP {
        return "icmp";
    }
    if protocol == IPPROTO_ICMPV6 {
        return "icmpv6";
    }
    "other"
}

/// Writes an IPv4 address in dotted decimal notation.
pub fn format_ipv4(addr: &[u8]) -> (text: String)
    ensures
        text@ == ipv4_text(addr@),
{
    if addr.len() < 4 {
        return "?".to_string();
    }
    let mut text = String::new();
    append_decimal(&mut text, addr[0] as u64);
    assert(text@ == decimal(addr@[0] as nat));
    text.append(".");
    append_decimal(&mut text, addr[1] as u64);
    text.append(".");
    append_decimal(&mut text, addr[2] as u64);
    text.append(".");
    append_decimal(&mut text, addr[3] as u64);
    text
}

/// Writes an IPv6 address as eight hexadecimal groups.
pub fn format_ipv6(addr: &[u8]) -> (text: String)
    ensures
        text@ == ipv6_text(addr@),
{
    if addr.len() < 16 {
        return "?".to_string();
    }
    let mut parts: Vec<String> = Vec::new();
    let ghost groups = Seq::new(8, |i: int| hexadecimal(word_at(addr@, 2 * i)));
    let mut index: usize = 0;
    while index < 8
        invariant
            index <= 8,
            addr@.len() >= 16,
            groups == Seq::new(8, |i: int| hexadecimal(word_at(addr@, 2 * i))),
            texts(parts@) == groups.take(index as int),
        decreases 8 - index,
    {
        let offset: usize = index * 2;
        let value: u16 = be_word(addr[offset], addr[offset + 1]);
        let mut part = String::new();
        append_hexadecimal(&mut part, value as u64);
        assert(part@ == groups[index as int]);
        let ghost before = parts@;
        parts.push(part);
        assert(texts(parts@) == texts(before).push(part@));
        assert(groups.take(index + 1) == groups.take(index as int).push(groups[index as int]));
        index = index + 1;
    }
    assert(groups.take(8) == groups);
    join(&parts, ":")
}

/// Appends `name` to a list of names where `present`.
fn push_name(names: &mut Vec<String>, present: bool, name: &str)
    ensures
        texts(final(names)@) == texts(old(names)@) + name_if(present, name@),
{
    if present {
        names.push(name.to_string());
    }
    assert(texts(names@) == texts(old(names)@) + name_if(present, name@));
}

/// Names the TCP flags that are set.
pub fn format_tcp_flags(flags: u8) -> (text: String)
    ensures
        text@ == tcp_flags_text(flags),
{
    let mut names: Vec<String> = Vec::new();
    assert(texts(names@) == Seq::<Seq<char>>::empty());
    push_name(&mut names, flags & 0x02 != 0, "SYN");
    assert(texts(names@) == name_if(flags & 0x02 != 0, "SYN"@));
    push_name(&mut names, flags & 0x10 != 0, "ACK");
    push_name(&mut names, flags & 0x08 != 0, "PSH");
    push_name(&mut names, flags & 0x01 != 0, "FIN");
    push_name(&mut names, flags & 0x04 != 0, "RST");
    assert(texts(names@).len() == names@.len());
    if names.is_empty() {
        return "NONE".to_string();
    }
    join(&names, "|")
}

/// Counts the data bytes of a TCP segment.
fn count_tcp_data(payload: &[u8]) -> (count: usize)
    ensures
        count == tcp_data_len(payload@),
{
    let header_len: usize = if payload.len() >= 13 {
        high_nibble(payload[12]) as usize * 4
    } else {
        0
    };
    payload.len().saturating_sub(header_len)
}

/// Whether the summary of a packet with this protocol ends at its addresses.
fn is_control_protocol(protocol: u8) -> (answer: bool)
    ensures
        answer == (protocol == IPPROTO_ICMP || protocol == IPPROTO_ICMPV6),
{
    protocol == IPPROTO_ICMP || protocol == IPPROTO_ICMPV6
}

/// Summarises what a packet carries.
pub fn summarize_transport_packet(
    family: &str,
    protocol: u8,
    src: &str,
    dst: &str,
    payload: &[u8],
    packet_len: usize,
) -> (text: String)
    ensures
        text@ == transport_summary(family@, protocol, src@, dst@, payload@, packet_len as nat),
{
    let mut text = family.to_string();
    if protocol == IPPROTO_TCP {
        text.append(" tcp ");
        text.append(src);
        if payload.len() < 4 {
            text.append(" -> ");
            text.append(dst);
            text.append(" short");
            return text;
        }
        text.append(":");
        append_decimal(&mut text, be_word(payload[0], payload[1]) as u64);
        text.append(" -> ");
        text.append(dst);
        text.append(":");
        append_decimal(&mut text, be_word(payload[2], payload[3]) as u64);
        text.append(" flags=");
        if payload.len() >= 14 {
            let flags = format_tcp_flags(payload[13]);
            text.append(flags.as_str());
        } else {
            text.append("?");
        }
        text.append(" len=");
        append_decimal(&mut text, packet_len as u64);
        text.append(" data=");
        append_decimal(&mut text, count_tcp_data(payload) as u64);
        return text;
    }
    if protocol == IPPROTO_UDP {
        text.append(" udp ");
        text.append(src);
        if payload.len() < 8 {
            text.append(" -> ");
            text.append(dst);
            text.append(" short");
            return text;
        }
        text.append(":");
        append_decimal(&mut text, be_word(payload[0], payload[1]) as u64);
        text.append(" -> ");
        text.append(dst);
        text.append(":");
        append_decimal(&mut text, be_word(payload[2], payload[3]) as u64);
        text.append(" len=");
        append_decimal(&mut text, packet_len as u64);
        return text;
    }
    if is_control_protocol(protocol) {
        text.append(" ");
        text.append(protocol_name(protocol));
        text.append(" ");
    } else {
        text.append(" proto");
        append_decimal(&mut text, protocol as u64);
        text.append(" ");
    }
    text.append(src);
    text.append(" -> ");
    text.append(dst);
    text
}

/// Summarises an IPv4 packet.
pub fn summarize_ipv4_packet(packet: &[u8]) -> (text: String)
    ensures
        text@ == ipv4_summary(packet@),
{
    if packet.len() < 20 {
        return "ipv4_short".to_string();
    }
    let header_len: usize = low_nibble(packet[0]) as usize * 4;
    if header_len < 20 || packet.len() < header_len {
        return "ipv4_bad_header".to_string();
    }
    let src = format_ipv4(&packet[12..16]);
    let dst = format_ipv4(&packet[16..20]);
    let total_len: usize = be_word(packet[2], packet[3]) as usize;
    let packet_len: usize = if total_len <= packet.len() {
        total_len
    } else {
        packet.len()
    };
    summarize_transport_packet(
        "ipv4",
        packet[9],
        src.as_str(),
        dst.as_str(),
        &packet[header_len..packet.len()],
        packet_len,
    )
}

/// Summarises an IPv6 packet.
pub fn summarize_ipv6_packet(packet: &[u8]) -> (text: String)
    ensures
        text@ == ipv6_summary(packet@),
{
    if packet.len() < 40 {
        return "ipv6_short".to_string();
    }
    let src = format_ipv6(&packet[8..24]);
    let dst = format_ipv6(&packet[24..40]);
    let total_len: usize = 40 + be_word(packet[4], packet[5]) as usize;
    let packet_len: usize = if total_len <= packet.len() {
        total_len
    } else {
        packet.len()
    };
    summarize_transport_packet(
        "ipv6",
        packet[6],
        src.as_str(),
        dst.as_str(),
        &packet[40..packet.len()],
        packet_len,
    )
}

/// Summarises a packet in one line.
pub fn summarize_ip_packet(packet: &[u8]) -> (text: String)
    ensures
        text@ == summary(packet@),
{
    if packet.is_empty() {
        return "empty".to_string();
    }
    let version: u8 = high_nibble(packet[0]);
    if version == 4 {
        summarize_ipv4_packet(packet)
    } else if version == 6 {
        summarize_ipv6_packet(packet)
    } else {
        let mut text = "ip_version_".to_string();
        append_decimal(&mut text, version as u64);
        text
    }
}

/// The protocols that are called by name.
pub proof fn law_names_of_protocols(protocol: u8)
    ensures
        name_of_protocol(protocol) == match protocol {
            1 => "icmp"@,
            6 => "tcp"@,
            17 => "udp"@,
            58 => "icmpv6"@,
            _ => "other"@,
        },
{
}

/// An address is written byte by byte, or word by word, from its first to its last.
pub proof fn law_addresses_as_text(four: Seq<u8>, six: Seq<u8>)
    ensures
        four.len() >= 4 ==> ipv4_text(four) == joined(
            seq![
                decimal(four[0] as nat),
                decimal(four[1] as nat),
                decimal(four[2] as nat),
                decimal(four[3] as nat),
            ],
            "."@,
        ),
        four.len() < 4 ==> ipv4_text(four) == "?"@,
        six.len() >= 16 ==> ipv6_text(six) == joined(
            seq![
                hexadecimal((256 * six[0] + six[1]) as nat),
                hexadecimal((256 * six[2] + six[3]) as nat),
                hexadecimal((256 * six[4] + six[5]) as nat),
                hexadecimal((256 * six[6] + six[7]) as nat),
                hexadecimal((256 * six[8] + six[9]) as nat),
                hexadecimal((256 * six[10] + six[11]) as nat),
                hexadecimal((256 * six[12] + six[13]) as nat),
                hexadecimal((256 * six[14] + six[15]) as nat),
            ],
            ":"@,
        ),
        six.len() < 16 ==> ipv6_text(six) == "?"@,
{
    if four.len() >= 4 {
        let a = seq![decimal(four[0] as nat)];
        let b = seq![decimal(four[1] as nat)];
        let c = seq![decimal(four[2] as nat)];
        let d = seq![decimal(four[3] as nat)];
        law_joined_lists(a, b, "."@);
        law_joined_lists(b, b, "."@);
        law_joined_lists(a + b, c, "."@);
        law_joined_lists(c, c, "."@);
        law_joined_lists(a + b + c, d, "."@);
        law_joined_lists(d, d, "."@);
        assert(a + b + c + d =~= seq![
            decimal(four[0] as nat),
            decimal(four[1] as nat),
            decimal(four[2] as nat),
            decimal(four[3] as nat),
        ]);
    }
    if six.len() >= 16 {
        assert(Seq::new(8, |i: int| hexadecimal(word_at(six, 2 * i))) =~= seq![
            hexadecimal((256 * six[0] + six[1]) as nat),
            hexadecimal((256 * six[2] + six[3]) as nat),
            hexadecimal((256 * six[4] + six[5]) as nat),
            hexadecimal((256 * six[6] + six[7]) as nat),
            hexadecimal((256 * six[8] + six[9]) as nat),
            hexadecimal((256 * six[10] + six[11]) as nat),
            hexadecimal((256 * six[12] + six[13]) as nat),
            hexadecimal((256 * six[14] + six[15]) as nat),
        ]);
    }
}

/// The flags of a TCP segment are named by their bits, in a fixed order, and joined by bars.
pub proof fn law_flags_by_their_bits(flags: u8)
    ensures
        flags / 2 % 2 == 0 && flags / 16 % 2 == 0 && flags / 8 % 2 == 0 && flags % 2 == 0 && flags
            / 4 % 2 == 0 ==> tcp_flags_text(flags) == "NONE"@,
        flags / 2 % 2 == 1 || flags / 16 % 2 == 1 || flags / 8 % 2 == 1 || flags % 2 == 1 || flags
            / 4 % 2 == 1 ==> tcp_flags_text(flags) == joined((if flags / 2 % 2 == 1 {
            seq!["SYN"@]
        } else {
            Seq::empty()
        }) + (if flags / 16 % 2 == 1 {
            seq!["ACK"@]
        } else {
            Seq::empty()
        }) + (if flags / 8 % 2 == 1 {
            seq!["PSH"@]
        } else {
            Seq::empty()
        }) + (if flags / 1 % 2 == 1 {
            seq!["FIN"@]
        } else {
            Seq::empty()
        }) + (if flags / 4 % 2 == 1 {
            seq!["RST"@]
        } else {
            Seq::empty()
        }),
            "|"@,
        ),
{
    assert(flags & 0x02 != 0 <==> flags / 2 % 2 == 1) by (bit_vector);
    assert(flags & 0x10 != 0 <==> flags / 16 % 2 == 1) by (bit_vector);
    assert(flags & 0x08 != 0 <==> flags / 8 % 2 == 1) by (bit_vector);
    assert(flags & 0x01 != 0 <==> flags % 2 == 1) by (bit_vector);
    assert(flags & 0x04 != 0 <==> flags / 4 % 2 == 1) by (bit_vector);
}

/// The summary of an IPv4 packet with a whole header, from its bytes. The length is that of the
/// packet as its header has it, as far as the packet is there.
pub proof fn law_summary_of_ipv4(packet: Seq<u8>)
    requires
        20 <= packet.len(),
        5 <= packet[0] % 16,
        packet[0] % 16 * 4 <= packet.len(),
    ensures
        ({
            let text = ipv4_summary(packet);
            let start = packet[0] % 16 * 4;
            let src = ipv4_text(packet.subrange(12, 16));
            let dst = ipv4_text(packet.subrange(16, 20));
            let src_port = decimal((256 * packet[start] + packet[start + 1]) as nat);
            let dst_port = decimal((256 * packet[start + 2] + packet[start + 3]) as nat);
            let total: int = 256 * packet[2] + packet[3];
            let len: nat = if total <= packet.len() { total as nat } else { packet.len() };
            let rest = packet.len() - start;
            let header: int = packet[start + 12] / 16 * 4;
            let flags = if rest >= 14 { tcp_flags_text(packet[start + 13]) } else { "?"@ };
            let data: nat = if rest < 13 {
                rest as nat
            } else if header <= rest {
                (rest - header) as nat
            } else {
                0
            };
            &&& packet[9] == 6 && rest < 4 ==> text == "ipv4"@ + " tcp "@ + src + " -> "@
                + dst + " short"@
            &&& packet[9] == 6 && rest >= 4 ==> text == "ipv4"@ + " tcp "@ + src + ":"@
                + src_port + " -> "@ + dst + ":"@ + dst_port + " flags="@ + flags + " len="@
                + decimal(len) + " data="@ + decimal(data)
            &&& packet[9] == 17 && rest < 8 ==> text == "ipv4"@ + " udp "@ + src
                + " -> "@ + dst + " short"@
            &&& packet[9] == 17 && rest >= 8 ==> text == "ipv4"@ + " udp "@ + src + ":"@
                + src_port + " -> "@ + dst + ":"@ + dst_port + " len="@ + decimal(len)
            &&& packet[9] == 1 ==> text == "ipv4"@ + " "@ + "icmp"@ + " "@ + src
                + " -> "@ + dst
            &&& packet[9] == 58 ==> text == "ipv4"@ + " "@ + "icmpv6"@ + " "@ + src
                + " -> "@ + dst
            &&& packet[9] != 6 && packet[9] != 17 && packet[9] != 1 && packet[9] != 58
                ==> text == "ipv4"@ + " proto"@ + decimal(packet[9] as nat) + " "@ + src
                + " -> "@ + dst
            &&& packet[0] / 16 == 4 ==> summary(packet) == text
        }),
{
    let start = packet[0] % 16 * 4;
    let payload = packet.skip(start);
    assert forall|i: int| 0 <= i < payload.len() implies #[trigger] payload[i] == packet[start
        + i] by {}
}

/// The summary of an IPv6 packet with a whole header, from its bytes. The length is that of the
/// packet as its header has it, as far as the packet is there.
pub proof fn law_summary_of_ipv6(packet: Seq<u8>)
    requires
        40 <= packet.len(),
    ensures
        ({
            let text = ipv6_summary(packet);
            let src = ipv6_text(packet.subrange(8, 24));
            let dst = ipv6_text(packet.subrange(24, 40));
            let src_port = decimal((256 * packet[40] + packet[41]) as nat);
            let dst_port = decimal((256 * packet[42] + packet[43]) as nat);
            let total: int = 40 + 256 * packet[4] + packet[5];
            let len: nat = if total <= packet.len() { total as nat } else { packet.len() };
            let rest = packet.len() - 40;
            let header: int = packet[52] / 16 * 4;
            let flags = if rest >= 14 { tcp_flags_text(packet[53]) } else { "?"@ };
            let data: nat = if rest < 13 {
                rest as nat
            } else if header <= rest {
                (rest - header) as nat
            } else {
                0
            };
            &&& packet[6] == 6 && rest < 4 ==> text == "ipv6"@ + " tcp "@ + src + " -> "@
                + dst + " short"@
            &&& packet[6] == 6 && rest >= 4 ==> text == "ipv6"@ + " tcp "@ + src + ":"@
                + src_port + " -> "@ + dst + ":"@ + dst_port + " flags="@ + flags + " len="@
                + decimal(len) + " data="@ + decimal(data)
            &&& packet[6] == 17 && rest < 8 ==> text == "ipv6"@ + " udp "@ + src
                + " -> "@ + dst + " short"@
            &&& packet[6] == 17 && rest >= 8 ==> text == "ipv6"@ + " udp "@ + src + ":"@
                + src_port + " -> "@ + dst + ":"@ + dst_port + " len="@ + decimal(len)
            &&& packet[6] == 1 ==> text == "ipv6"@ + " "@ + "icmp"@ + " "@ + src
                + " -> "@ + dst
            &&& packet[6] == 58 ==> text == "ipv6"@ + " "@ + "icmpv6"@ + " "@ + src
                + " -> "@ + dst
            &&& packet[6] != 6 && packet[6] != 17 && packet[6] != 1 && packet[6] != 58
                ==> text == "ipv6"@ + " proto"@ + decimal(packet[6] as nat) + " "@ + src
                + " -> "@ + dst
            &&& packet[0] / 16 == 6 ==> summary(packet) == text
        }),
{
    let payload = packet.skip(40);
    assert forall|i: int| 0 <= i < payload.len() implies #[trigger] payload[i] == packet[40
        + i] by {}
}

/// The summaries of what has no whole IP header.
pub proof fn law_summary_without_header(packet: Seq<u8>)
    ensures
        packet.len() == 0 ==> summary(packet) == "empty"@,
        packet.len() < 20 ==> ipv4_summary(packet) == "ipv4_short"@,
        20 <= packet.len() && (packet[0] % 16 < 5 || packet.len() < packet[0] % 16 * 4)
            ==> ipv4_summary(packet) == "ipv4_bad_header"@,
        packet.len() < 40 ==> ipv6_summary(packet) == "ipv6_short"@,
        0 < packet.len() && packet[0] / 16 == 4 ==> summary(packet) == ipv4_summary(packet),
        0 < packet.len() && packet[0] / 16 == 6 ==> summary(packet) == ipv6_summary(packet),
        0 < packet.len() && packet[0] / 16 != 4 && packet[0] / 16 != 6 ==> summary(packet)
            == "ip_version_"@ + decimal((packet[0] / 16) as nat),
{
}

/// The summary of what a packet carries, whatever the packet is called and wherever it goes.
pub proof fn law_summary_of_transport(
    family: Seq<char>,
    protocol: u8,
    src: Seq<char>,
    dst: Seq<char>,
    payload: Seq<u8>,
    packet_len: nat,
)
    ensures
        ({
            let text = transport_summary(family, protocol, src, dst, payload, packet_len);
            let src_port = decimal((256 * payload[0] + payload[1]) as nat);
            let dst_port = decimal((256 * payload[2] + payload[3]) as nat);
            let ends = src + ":"@ + src_port + " -> "@ + dst + ":"@ + dst_port;
            let flags = if payload.len() >= 14 { tcp_flags_text(payload[13]) } else { "?"@ };
            let header: int = payload[12] / 16 * 4;
            let data: nat = if payload.len() < 13 {
                payload.len()
            } else if header <= payload.len() {
                (payload.len() - header) as nat
            } else {
                0
            };
            let len = decimal(packet_len);
            &&& protocol == 6 && payload.len() < 4 ==> text == family + " tcp "@ + src + " -> "@
                + dst + " short"@
            &&& protocol == 6 && payload.len() >= 4 ==> text == family + " tcp "@ + ends
                + " flags="@ + flags + " len="@ + len + " data="@ + decimal(data)
            &&& protocol == 17 && payload.len() < 8 ==> text == family + " udp "@ + src + " -> "@
                + dst + " short"@
            &&& protocol == 17 && payload.len() >= 8 ==> text == family + " udp "@ + ends + " len="@
                + len
            &&& protocol == 1 ==> text == family + " "@ + "icmp"@ + " "@ + src + " -> "@ + dst
            &&& protocol == 58 ==> text == family + " "@ + "icmpv6"@ + " "@ + src + " -> "@ + dst
            &&& protocol != 6 && protocol != 17 && protocol != 1 && protocol != 58 ==> text
                == family + " proto"@ + decimal(protocol as nat) + " "@ + src + " -> "@ + dst
        }),
{
}

} // verus!
