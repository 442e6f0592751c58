//! Clamping of the maximum segment size that TCP SYN packets announce.

use vstd::prelude::*;

use crate::bytes::{
    be_word, high_nibble, lemma_word_written, low_nibble, put_word, with_word_at, word_at,
};
use crate::checksum::{
    checksum_of, ipv4_tcp_sum, ipv6_tcp_sum, law_checksum_covers_the_pseudo_header,
    law_ipv4_checksum_verifies, law_ipv6_checksum_verifies, with_ipv4_tcp_checksum,
    with_ipv6_tcp_checksum, word_sum, write_ipv4_tcp_checksum, write_ipv6_tcp_checksum, IPPROTO_TCP,
};
use crate::filter::is_quiet;

verus! {

/// The position of the first maximum segment size option in the TCP option list that reaches from
/// `index` to `end`. The list ends early at an end-of-options byte and at a malformed option.
pub open spec fn mss_option(packet: Seq<u8>, index: int, end: int) -> Option<int>
    decreases end - index,
{
    if index >= end || packet[index] == 0 {
        None
    } else if packet[index] == 1 {
        mss_option(packet, index + 1, end)
    } else if index + 1 >= end || packet[index + 1] < 2 || index + packet[index + 1] > end {
        None
    } else if packet[index] == 2 && packet[index + 1] == 4 {
        Some(index)
    } else {
        mss_option(packet, index + packet[index + 1], end)
    }
}

/// The length in bytes of the TCP header at `start`, as its data offset gives it.
pub open spec fn tcp_header_len(packet: Seq<u8>, start: int) -> int {
    packet[start + 12] / 16 * 4
}

/// The position of the announced maximum segment size in the TCP segment from `start` to `end`:
/// the value of the first such option of a SYN segment with a header that fits.
pub open spec fn announced_mss(packet: Seq<u8>, start: int, end: int) -> Option<int> {
    if start + 20 <= end <= packet.len() && packet[start + 13] & 0x02 != 0 && 20 <= tcp_header_len(
        packet,
        start,
    ) && start + tcp_header_len(packet, start) <= end {
        match mss_option(packet, start + 20, start + tcp_header_len(packet, start)) {
            Some(index) => Some(index + 2),
            None => None,
        }
    } else {
        None
    }
}

/// The position of the announced maximum segment size in the segment, where it is over `limit`.
pub open spec fn excessive_mss(packet: Seq<u8>, start: int, end: int, limit: nat) -> Option<int> {
    match announced_mss(packet, start, end) {
        Some(at) => if word_at(packet, at) > limit {
            Some(at)
        } else {
            None
        },
        None => None,
    }
}

/// The largest TCP payload that fits into `mtu` bytes behind an IP header of `ip_header_len` bytes
/// and a TCP header without options, where it is a 16-bit number.
pub open spec fn mss_limit(mtu: nat, ip_header_len: nat) -> Option<nat> {
    if ip_header_len + 20 <= mtu <= ip_header_len + 20 + 65535 {
        Some((mtu - ip_header_len - 20) as nat)
    } else {
        None
    }
}

/// The bounds of the TCP segment in an IPv4 packet that holds one in full.
pub open spec fn ipv4_tcp_segment(packet: Seq<u8>) -> Option<(int, int)> {
    let header_len = packet[0] % 16 * 4;
    let total_len = word_at(packet, 2) as int;
    if 20 <= packet.len() && packet[9] == IPPROTO_TCP && 20 <= header_len && header_len + 20
        <= total_len <= packet.len() {
        Some((header_len, total_len))
    } else {
        None
    }
}

/// The bounds of the TCP segment in an IPv6 packet that holds one in full, directly behind the
/// fixed header.
pub open spec fn ipv6_tcp_segment(packet: Seq<u8>) -> Option<(int, int)> {
    let total_len = 40 + word_at(packet, 4) as int;
    if 40 <= packet.len() && packet[6] == IPPROTO_TCP && 60 <= total_len <= packet.len() {
        Some((40, total_len))
    } else {
        None
    }
}

/// Where an IPv4 packet announces a maximum segment size that is too large for `mtu`: the position
/// of the value, the value to put in its place, and the bounds of the segment.
pub open spec fn ipv4_clamp(packet: Seq<u8>, mtu: nat) -> Option<(int, nat, int, int)> {
    match (ipv4_tcp_segment(packet), mss_limit(mtu, 20)) {
        (Some((start, end)), Some(limit)) => match excessive_mss(packet, start, end, limit) {
            Some(at) => Some((at, limit, start, end)),
            None => None,
        },
        _ => None,
    }
}

/// Where an IPv6 packet announces a maximum segment size that is too large for `mtu`: the position
/// of the value, the value to put in its place, and the bounds of the segment.
pub open spec fn ipv6_clamp(packet: Seq<u8>, mtu: nat) -> Option<(int, nat, int, int)> {
    match (ipv6_tcp_segment(packet), mss_limit(mtu, 40)) {
        (Some((start, end)), Some(limit)) => match excessive_mss(packet, start, end, limit) {
            Some(at) => Some((at, limit, start, end)),
            None => None,
        },
        _ => None,
    }
}

/// An IPv4 packet with its announced maximum segment size lowered to what `mtu` allows, and its
/// TCP checksum made to match.
pub open spec fn clamped_ipv4(packet: Seq<u8>, mtu: nat) -> Seq<u8> {
    match ipv4_clamp(packet, mtu) {
        Some((at, limit, start, end)) => with_ipv4_tcp_checksum(
            with_word_at(packet, at, limit),
            start,
            end,
        ),
        None => packet,
    }
}

/// An IPv6 packet with its announced maximum segment size lowered to what `mtu` allows, and its
/// TCP checksum made to match.
pub open spec fn clamped_ipv6(packet: Seq<u8>, mtu: nat) -> Seq<u8> {
    match ipv6_clamp(packet, mtu) {
        Some((at, limit, start, end)) => with_ipv6_tcp_checksum(
            with_word_at(packet, at, limit),
            start,
            end,
        ),
        None => packet,
    }
}

/// Whether an IP packet announces a maximum segment size that is too large for `mtu`.
pub open spec fn needs_clamp(packet: Seq<u8>, mtu: nat) -> bool {
    0 < packet.len() && if packet[0] / 16 == 4 {
        ipv4_clamp(packet, mtu) is Some
    } else {
        packet[0] / 16 == 6 && ipv6_clamp(packet, mtu) is Some
    }
}

/// An IP packet with its announced maximum segment size lowered to what `mtu` allows.
pub open spec fn clamped(packet: Seq<u8>, mtu: nat) -> Seq<u8> {
    if packet.len() == 0 {
        packet
    } else if packet[0] / 16 == 4 {
        clamped_ipv4(packet, mtu)
    } else if packet[0] / 16 == 6 {
        clamped_ipv6(packet, mtu)
    } else {
        packet
    }
}

/// A found option lies inside the option list, with its length byte and its value.
proof fn lemma_mss_option_inside(packet: Seq<u8>, index: int, end: int)
    ensures
        mss_option(packet, index, end) matches Some(at) ==> index <= at && at + 4 <= end
            && packet[at] == 2 && packet[at + 1] == 4,
    decreases end - index,
{
    if index < end && packet[index] != 0 {
        if packet[index] == 1 {
            lemma_mss_option_inside(packet, index + 1, end);
        } else if index + 1 < end && packet[index + 1] >= 2 && index + packet[index + 1] <= end {
            lemma_mss_option_inside(packet, index + packet[index + 1], end);
        }
    }
}

/// The search for the option reads nothing behind the length byte of the option that it finds.
proof fn lemma_mss_option_stable(packet: Seq<u8>, other: Seq<u8>, index: int, end: int)
    requires
        mss_option(packet, index, end) is Some,
        forall|i: int|
            index <= i < mss_option(packet, index, end)->0 + 2 ==> #[trigger] packet[i] == other[i],
    ensures
        mss_option(other, index, end) == mss_option(packet, index, end),
    decreases end - index,
{
    lemma_mss_option_inside(packet, index, end);
    let found = mss_option(packet, index, end)->0;
    assert(packet[index] == other[index]);
    if packet[index] == 1 {
        lemma_mss_option_stable(packet, other, index + 1, end);
    } else if !(packet[index] == 2 && packet[index + 1] == 4) {
        lemma_mss_option_inside(packet, index + packet[index + 1], end);
        assert(packet[index + 1] == other[index + 1]);
        lemma_mss_option_stable(packet, other, index + packet[index + 1], end);
    } else {
        assert(packet[index + 1] == other[index + 1]);
    }
}

/// The largest segment size that fits into `mtu` behind an IP header of `ip_header_len` bytes.
pub fn tcp_mss_for_mtu(mtu: usize, ip_header_len: usize) -> (limit: Option<u16>)
    requires
        ip_header_len + 20 <= usize::MAX,
    ensures
        limit is Some <==> mss_limit(mtu as nat, ip_header_len as nat) is Some,
        limit matches Some(value) ==> mss_limit(mtu as nat, ip_header_len as nat) == Some(
            value as nat,
        ),
{
    match mtu.checked_sub(ip_header_len + 20) {
        Some(value) => {
            if value <= 65535 {
                Some(value as u16)
            } else {
                None
            }
        },
        None => None,
    }
}

/// Lowers the maximum segment size that the TCP segment from `tcp_start` to `tcp_end` announces to
/// `max_mss`, and tells whether it was larger. The checksum is left as it is.
pub fn clamp_tcp_mss_option(
    packet: &mut [u8],
    tcp_start: usize,
    tcp_end: usize,
    max_mss: u16,
) -> (lowered: bool)
    requires
        tcp_start + 20 <= usize::MAX,
    ensures
        final(packet)@.len() == old(packet)@.len(),
        lowered == (excessive_mss(
            old(packet)@,
            tcp_start as int,
            tcp_end as int,
            max_mss as nat,
        ) is Some),
        final(packet)@ == match excessive_mss(
            old(packet)@,
            tcp_start as int,
            tcp_end as int,
            max_mss as nat,
        ) {
            Some(at) => with_word_at(old(packet)@, at, max_mss as nat),
            None => old(packet)@,
        },
{
    if packet.len() < tcp_start + 20 || tcp_end < tcp_start + 20 || tcp_end > packet.len() {
        return false;
    }
    if packet[tcp_start + 13] & 0x02 == 0 {
        return false;
    }
    let header_len: usize = high_nibble(packet[tcp_start + 12]) as usize * 4;
    if header_len < 20 || header_len > tcp_end - tcp_start {
        return false;
    }
    let mut index: usize = tcp_start + 20;
    let options_end: usize = tcp_start + header_len;
    let ghost whole = packet@;
    while index < options_end
        invariant
            packet@ == whole,
            packet@ == old(packet)@,
            tcp_start + 20 <= index,
            options_end <= tcp_end <= packet@.len(),
            packet@.len() <= usize::MAX,
            options_end == tcp_start + tcp_header_len(whole, tcp_start as int),
            20 <= tcp_header_len(whole, tcp_start as int),
            whole[tcp_start + 13] & 0x02 != 0,
            mss_option(whole, tcp_start + 20, options_end as int) == mss_option(
                whole,
                index as int,
                options_end as int,
            ),
        decreases options_end - index,
    {
        let kind: u8 = packet[index];
        if kind == 0 {
            return false;
        }
        if kind == 1 {
            index = index + 1;
            continue;
        }
        if options_end - index <= 1 {
            return false;
        }
        let option_len: usize = packet[index + 1] as usize;
        if option_len < 2 || option_len > options_end - index {
            return false;
        }
        if kind == 2 && option_len == 4 {
            let current: u16 = be_word(packet[index + 2], packet[index + 3]);
            if current > max_mss {
                put_word(packet, index + 2, max_mss);
                return true;
            }
            return false;
        }
        index = index + option_len;
    }
    false
}

/// Clamps the maximum segment size that an IPv4 packet announces, and tells whether it was larger.
pub fn clamp_ipv4_tcp_mss(packet: &mut [u8], mtu: usize) -> (lowered: bool)
    ensures
        lowered == (ipv4_clamp(old(packet)@, mtu as nat) is Some),
        final(packet)@ == clamped_ipv4(old(packet)@, mtu as nat),
{
    if packet.len() < 20 || packet[9] != IPPROTO_TCP {
        return false;
    }
    let ip_header_len: usize = low_nibble(packet[0]) as usize * 4;
    let total_len: usize = be_word(packet[2], packet[3]) as usize;
    if ip_header_len < 20 || total_len < ip_header_len + 20 || packet.len() < total_len {
        return false;
    }
    match tcp_mss_for_mtu(mtu, 20) {
        Some(max_mss) => {
            if clamp_tcp_mss_option(packet, ip_header_len, total_len, max_mss) {
                write_ipv4_tcp_checksum(packet, ip_header_len, total_len);
                return true;
            }
            false
        },
        None => false,
    }
}

/// Clamps the maximum segment size that an IPv6 packet announces, and tells whether it was larger.
pub fn clamp_ipv6_tcp_mss(packet: &mut [u8], mtu: usize) -> (lowered: bool)
    ensures
        lowered == (ipv6_clamp(old(packet)@, mtu as nat) is Some),
        final(packet)@ == clamped_ipv6(old(packet)@, mtu as nat),
{
    if packet.len() < 40 || packet[6] != IPPROTO_TCP {
        return false;
    }
    let payload_len: usize = be_word(packet[4], packet[5]) as usize;
    let total_len: usize = 40 + payload_len;
    if total_len < 60 || packet.len() < total_len {
        return false;
    }
    match tcp_mss_for_mtu(mtu, 40) {
        Some(max_mss) => {
            if clamp_tcp_mss_option(packet, 40, total_len, max_mss) {
                write_ipv6_tcp_checksum(packet, 40, total_len);
                return true;
            }
            false
        },
        None => false,
    }
}

/// Clamps the maximum segment size that an IP packet announces to what `mtu` allows, recomputes the
/// TCP checksum where that changes the packet, and tells whether it did.
pub fn clamp_tcp_mss(packet: &mut [u8], mtu: usize) -> (lowered: bool)
    ensures
        lowered == needs_clamp(old(packet)@, mtu as nat),
        final(packet)@ == clamped(old(packet)@, mtu as nat),
{
    if packet.is_empty() {
        return false;
    }
    let version: u8 = high_nibble(packet[0]);
    if version == 4 {
        clamp_ipv4_tcp_mss(packet, mtu)
    } else if version == 6 {
        clamp_ipv6_tcp_mss(packet, mtu)
    } else {
        false
    }
}

/// The value of an announced maximum segment size lies in the TCP header, behind its fixed part.
proof fn lemma_announced_mss_inside(packet: Seq<u8>, start: int, end: int)
    ensures
        announced_mss(packet, start, end) matches Some(at) ==> start + 22 <= at && at + 2 <= end
            <= packet.len(),
{
    lemma_mss_option_inside(packet, start + 20, start + tcp_header_len(packet, start));
}

/// Where a packet keeps every byte of a segment but for its announced maximum segment size and its
/// checksum, the maximum segment size is announced at the same place.
proof fn lemma_announced_mss_stable(packet: Seq<u8>, other: Seq<u8>, start: int, end: int)
    requires
        0 <= start,
        announced_mss(packet, start, end) is Some,
        packet.len() == other.len(),
        forall|i: int|
            start <= i < announced_mss(packet, start, end)->0 && i != start + 16 && i != start + 17
                ==> #[trigger] packet[i] == other[i],
    ensures
        announced_mss(other, start, end) == announced_mss(packet, start, end),
{
    lemma_announced_mss_inside(packet, start, end);
    assert(packet[start + 12] == other[start + 12]);
    assert(packet[start + 13] == other[start + 13]);
    lemma_mss_option_stable(
        packet,
        other,
        start + 20,
        start + tcp_header_len(packet, start),
    );
}

/// Which bytes two packets have in common when one is the other with a new maximum segment size at
/// `at` and a new checksum of the segment at `start`.
pub open spec fn same_but_for(packet: Seq<u8>, other: Seq<u8>, at: int, start: int) -> bool {
    &&& other.len() == packet.len()
    &&& forall|i: int|
        0 <= i < packet.len() && i != at && i != at + 1 && i != start + 16 && i != start + 17
            ==> #[trigger] packet[i] == other[i]
}

/// What clamping does to an IPv4 packet.
proof fn lemma_clamped_ipv4(packet: Seq<u8>, mtu: nat)
    ensures
        ipv4_clamp(packet, mtu) matches Some((at, limit, start, end)) ==> {
            let after = clamped_ipv4(packet, mtu);
            &&& 20 <= start
            &&& start + 22 <= at
            &&& at + 2 <= end <= packet.len()
            &&& end <= 65535
            &&& same_but_for(packet, after, at, start)
            &&& word_at(after, at) == limit
            &&& ipv4_tcp_segment(after) == Some((start, end))
            &&& announced_mss(after, start, end) == Some(at)
            &&& checksum_of(ipv4_tcp_sum(after, start, end)) == 0
            &&& word_at(after, start + 16) != 65535
        },
{
    if let Some((at, limit, start, end)) = ipv4_clamp(packet, mtu) {
        lemma_announced_mss_inside(packet, start, end);
        let lowered = with_word_at(packet, at, limit);
        lemma_word_written(packet, at, limit);
        let after = clamped_ipv4(packet, mtu);
        let cleared = with_word_at(lowered, start + 16, 0);
        let checksum = checksum_of(ipv4_tcp_sum(cleared, start, end) % 0x1_0000_0000);
        lemma_word_written(lowered, start + 16, 0);
        lemma_word_written(cleared, start + 16, checksum);
        assert(same_but_for(packet, after, at, start));
        lemma_announced_mss_stable(packet, after, start, end);
        assert(packet[0] == after[0] && packet[2] == after[2] && packet[3] == after[3] && packet[9]
            == after[9]);
        law_ipv4_checksum_verifies(lowered, start, end);
    }
}

/// What clamping does to an IPv6 packet.
proof fn lemma_clamped_ipv6(packet: Seq<u8>, mtu: nat)
    ensures
        ipv6_clamp(packet, mtu) matches Some((at, limit, start, end)) ==> {
            let after = clamped_ipv6(packet, mtu);
            &&& 40 == start
            &&& start + 22 <= at
            &&& at + 2 <= end <= packet.len()
            &&& end - start <= 65535
            &&& same_but_for(packet, after, at, start)
            &&& word_at(after, at) == limit
            &&& ipv6_tcp_segment(after) == Some((start, end))
            &&& announced_mss(after, start, end) == Some(at)
            &&& checksum_of(ipv6_tcp_sum(after, start, end)) == 0
            &&& word_at(after, start + 16) != 65535
        },
{
    if let Some((at, limit, start, end)) = ipv6_clamp(packet, mtu) {
        lemma_announced_mss_inside(packet, start, end);
        let lowered = with_word_at(packet, at, limit);
        lemma_word_written(packet, at, limit);
        let after = clamped_ipv6(packet, mtu);
        let cleared = with_word_at(lowered, start + 16, 0);
        let checksum = checksum_of(ipv6_tcp_sum(cleared, start, end) % 0x1_0000_0000);
        lemma_word_written(lowered, start + 16, 0);
        lemma_word_written(cleared, start + 16, checksum);
        assert(same_but_for(packet, after, at, start));
        lemma_announced_mss_stable(packet, after, start, end);
        assert(packet[4] == after[4] && packet[5] == after[5] && packet[6] == after[6]);
        law_ipv6_checksum_verifies(lowered, start, end);
    }
}

/// The two words that clamping `packet` for `mtu` writes: the announced maximum segment size and
/// the checksum of the TCP segment, each by its position.
pub open spec fn clamp_positions(packet: Seq<u8>, mtu: nat) -> (int, int) {
    let found = if packet[0] / 16 == 4 {
        ipv4_clamp(packet, mtu)->0
    } else {
        ipv6_clamp(packet, mtu)->0
    };
    (found.0, found.2 + 16)
}

/// Clamping changes no byte of a packet but those of the announced maximum segment size and of the
/// TCP checksum, and a packet that needs no clamping keeps them all.
pub proof fn law_clamp_keeps_the_rest(packet: Seq<u8>, mtu: nat)
    ensures
        clamped(packet, mtu).len() == packet.len(),
        !needs_clamp(packet, mtu) ==> clamped(packet, mtu) == packet,
        needs_clamp(packet, mtu) ==> {
            let (at, checksum_at) = clamp_positions(packet, mtu);
            forall|i: int|
                0 <= i < packet.len() && i != at && i != at + 1 && i != checksum_at && i
                    != checksum_at + 1 ==> #[trigger] clamped(packet, mtu)[i] == packet[i]
        },
{
    lemma_clamped_ipv4(packet, mtu);
    lemma_clamped_ipv6(packet, mtu);
}

/// Clamping a packet does not change whether it is dropped.
pub proof fn law_clamp_keeps_quiet(packet: Seq<u8>, mtu: nat)
    ensures
        is_quiet(clamped(packet, mtu)) == is_quiet(packet),
{
    lemma_clamped_ipv4(packet, mtu);
    lemma_clamped_ipv6(packet, mtu);
    let other = clamped(packet, mtu);
    if needs_clamp(packet, mtu) {
        if packet[0] / 16 == 4 {
            let (start, end) = ipv4_tcp_segment(packet)->0;
            lemma_announced_mss_inside(packet, start, end);
            assert(other.subrange(12, 16) =~= packet.subrange(12, 16));
            assert(other.subrange(16, 20) =~= packet.subrange(16, 20));
        } else {
            let (start, end) = ipv6_tcp_segment(packet)->0;
            lemma_announced_mss_inside(packet, start, end);
            assert(other.subrange(8, 24) =~= packet.subrange(8, 24));
            assert(other.subrange(24, 40) =~= packet.subrange(24, 40));
        }
    }
}

/// What clamping leaves behind needs no clamping: a second pass changes nothing.
pub proof fn law_clamp_is_idempotent(packet: Seq<u8>, mtu: nat)
    ensures
        !needs_clamp(clamped(packet, mtu), mtu),
        clamped(clamped(packet, mtu), mtu) == clamped(packet, mtu),
{
    lemma_clamped_ipv4(packet, mtu);
    lemma_clamped_ipv6(packet, mtu);
    if needs_clamp(packet, mtu) {
        assert(packet[0] == clamped(packet, mtu)[0]);
    }
}

/// A packet that was clamped announces exactly the largest segment that fits, at the place where it
/// announced a larger one.
pub proof fn law_clamped_mss_fits(packet: Seq<u8>, mtu: nat)
    requires
        needs_clamp(packet, mtu),
    ensures
        ({
            let at = clamp_positions(packet, mtu).0;
            let header_len: nat = if packet[0] / 16 == 4 {
                20
            } else {
                40
            };
            &&& word_at(clamped(packet, mtu), at) + header_len + 20 == mtu
            &&& word_at(packet, at) + header_len + 20 > mtu
        }),
{
    lemma_clamped_ipv4(packet, mtu);
    lemma_clamped_ipv6(packet, mtu);
}

/// The TCP checksum of a packet that was clamped verifies.
pub proof fn law_clamped_checksum_verifies(packet: Seq<u8>, mtu: nat)
    requires
        needs_clamp(packet, mtu),
    ensures
        packet[0] / 16 == 4 ==> {
            let (start, end) = ipv4_tcp_segment(clamped(packet, mtu))->0;
            checksum_of(ipv4_tcp_sum(clamped(packet, mtu), start, end)) == 0
        },
        packet[0] / 16 == 6 ==> {
            let (start, end) = ipv6_tcp_segment(clamped(packet, mtu))->0;
            checksum_of(ipv6_tcp_sum(clamped(packet, mtu), start, end)) == 0
        },
{
    lemma_clamped_ipv4(packet, mtu);
    lemma_clamped_ipv6(packet, mtu);
}

/// Walking the option list option by option, past padding and past options of other kinds, leads to
/// where the search for the maximum segment size leads.
proof fn lemma_walk(packet: Seq<u8>, options_end: int, path: Seq<int>)
    requires
        path.len() > 0,
        forall|i: int|
            0 <= i < path.len() - 1 ==> {
                let x = #[trigger] path[i];
                &&& x < options_end
                &&& (packet[x] == 1 && path[i + 1] == x + 1) || (packet[x] >= 2 && x + 1
                    < options_end && packet[x + 1] >= 2 && x + packet[x + 1] <= options_end && !(
                packet[x] == 2 && packet[x + 1] == 4) && path[i + 1] == x + packet[x + 1])
            },
    ensures
        mss_option(packet, path[0], options_end) == mss_option(packet, path.last(), options_end),
    decreases path.len(),
{
    if path.len() > 1 {
        let rest = path.skip(1);
        assert forall|i: int| 0 <= i < rest.len() - 1 implies {
            let x = #[trigger] rest[i];
            &&& x < options_end
            &&& (packet[x] == 1 && rest[i + 1] == x + 1) || (packet[x] >= 2 && x + 1 < options_end
                && packet[x + 1] >= 2 && x + packet[x + 1] <= options_end && !(packet[x] == 2
                && packet[x + 1] == 4) && rest[i + 1] == x + packet[x + 1])
        } by {
            assert(rest[i] == path[i + 1]);
            assert(rest[i + 1] == path[i + 2]);
        }
        lemma_walk(packet, options_end, rest);
        assert(path[0] < options_end);
        assert(rest[0] == path[1]);
    }
}

/// A bit of the flags, by arithmetic.
proof fn lemma_syn_bit(flags: u8)
    ensures
        flags & 0x02 != 0 <==> flags / 2 % 2 == 1,
{
    assert(flags & 0x02 != 0 <==> flags / 2 % 2 == 1) by (bit_vector);
}

/// In a SYN segment whose header fits, with any number of options, the first maximum segment size
/// that a walk through the options comes to is lowered where it is over the limit, and only there.
/// The walk goes past padding, and past well-formed options of other kinds.
pub proof fn law_walked_option_is_found(
    packet: Seq<u8>,
    start: int,
    end: int,
    limit: nat,
    options_end: int,
    path: Seq<int>,
)
    requires
        0 <= start,
        start + 20 <= end <= packet.len(),
        packet[start + 13] / 2 % 2 == 1,
        options_end == start + packet[start + 12] / 16 * 4,
        start + 20 <= options_end <= end,
        path.len() > 0,
        path[0] == start + 20,
        forall|i: int|
            0 <= i < path.len() - 1 ==> {
                let x = #[trigger] path[i];
                &&& x < options_end
                &&& (packet[x] == 1 && path[i + 1] == x + 1) || (packet[x] >= 2 && x + 1
                    < options_end && packet[x + 1] >= 2 && x + packet[x + 1] <= options_end && !(
                packet[x] == 2 && packet[x + 1] == 4) && path[i + 1] == x + packet[x + 1])
            },
    ensures
        ({
            let x = path.last();
            &&& x + 4 <= options_end && packet[x] == 2 && packet[x + 1] == 4 ==> excessive_mss(
                packet,
                start,
                end,
                limit,
            ) == if 256 * packet[x + 2] + packet[x + 3] > limit {
                Some(x + 2)
            } else {
                None
            }
            &&& x >= options_end || packet[x] == 0 || (packet[x] > 1 && (x + 1 >= options_end
                || packet[x + 1] < 2 || x + packet[x + 1] > options_end)) ==> excessive_mss(
                packet,
                start,
                end,
                limit,
            ) is None
        }),
{
    lemma_syn_bit(packet[start + 13]);
    lemma_walk(packet, options_end, path);
}

/// A segment without the SYN flag, or whose header does not fit, announces nothing.
pub proof fn law_only_fitting_syn_segments_announce(
    packet: Seq<u8>,
    start: int,
    end: int,
    limit: nat,
)
    requires
        end < start + 20 || packet.len() < end || packet[start + 13] / 2 % 2 == 0 || packet[start
            + 12] / 16 < 5 || start + packet[start + 12] / 16 * 4 > end,
    ensures
        excessive_mss(packet, start, end, limit) is None,
{
    lemma_syn_bit(packet[start + 13]);
}

/// The largest segment leaves room for the IP header and for a TCP header of twenty bytes.
pub proof fn law_largest_segment(mtu: nat, ip_header_len: nat)
    ensures
        mtu < ip_header_len + 20 ==> mss_limit(mtu, ip_header_len) is None,
        ip_header_len + 20 <= mtu && mtu - ip_header_len - 20 <= 65535 ==> mss_limit(
            mtu,
            ip_header_len,
        ) == Some((mtu - ip_header_len - 20) as nat),
        mtu > ip_header_len + 20 + 65535 ==> mss_limit(mtu, ip_header_len) is None,
{
}

/// An IPv4 packet that holds a SYN segment in full announces no more than the MTU leaves room for,
/// once it was clamped: the first maximum segment size that a walk through its options comes to is
/// lowered to the MTU less forty where it is larger, and the checksum holds again. No other byte
/// changes, and where it is not larger none does.
#[verifier::rlimit(50)]
pub proof fn law_ipv4_announces_what_fits(packet: Seq<u8>, mtu: nat, path: Seq<int>)
    requires
        20 <= packet.len(),
        packet[9] == 6,
        5 <= packet[0] % 16,
        packet[0] % 16 * 4 + 20 <= 256 * packet[2] + packet[3] <= packet.len(),
        packet[packet[0] % 16 * 4 + 13] / 2 % 2 == 1,
        5 <= packet[packet[0] % 16 * 4 + 12] / 16,
        packet[0] % 16 * 4 + packet[packet[0] % 16 * 4 + 12] / 16 * 4 <= 256 * packet[2]
            + packet[3],
        40 <= mtu <= 65575,
        path.len() > 0,
        path[0] == packet[0] % 16 * 4 + 20,
        ({
            let options_end = packet[0] % 16 * 4 + packet[packet[0] % 16 * 4 + 12] / 16 * 4;
            &&& path.last() + 4 <= options_end
            &&& packet[path.last()] == 2
            &&& packet[path.last() + 1] == 4
            &&& forall|i: int|
                0 <= i < path.len() - 1 ==> {
                    let x = #[trigger] path[i];
                    &&& x < options_end
                    &&& (packet[x] == 1 && path[i + 1] == x + 1) || (packet[x] >= 2 && x + 1
                        < options_end && packet[x + 1] >= 2 && x + packet[x + 1] <= options_end
                        && !(packet[x] == 2 && packet[x + 1] == 4) && path[i + 1] == x + packet[x
                        + 1])
                }
        }),
    ensures
        ({
            let start = packet[0] % 16 * 4;
            let end = 256 * packet[2] + packet[3];
            let x = path.last();
            let after = clamped_ipv4(packet, mtu);
            let lowered = ipv4_clamp(packet, mtu) is Some;
            let len = end - start;
            &&& lowered <==> 256 * packet[x + 2] + packet[x + 3] > mtu - 40
            &&& after.len() == packet.len()
            &&& !lowered ==> after == packet
            &&& lowered ==> {
                &&& 256 * after[x + 2] + after[x + 3] == mtu - 40
                &&& word_sum(
                    after.subrange(12, 20) + seq![0u8, 6u8, (len / 256) as u8, (len % 256) as u8]
                        + after.subrange(start, end),
                ) % 65535 == 0
                &&& !(after[start + 16] == 0xff && after[start + 17] == 0xff)
                &&& forall|i: int|
                    0 <= i < packet.len() && i != x + 2 && i != x + 3 && i != start + 16 && i
                        != start + 17 ==> #[trigger] after[i] == packet[i]
            }
            &&& packet[0] / 16 == 4 ==> needs_clamp(packet, mtu) == lowered && clamped(packet, mtu)
                == after
        }),
{
    let start = packet[0] % 16 * 4;
    let end = 256 * packet[2] + packet[3];
    let options_end = start + packet[start + 12] / 16 * 4;
    let limit = (mtu - 40) as nat;
    assert(ipv4_tcp_segment(packet) == Some((start, end)));
    assert(mss_limit(mtu, 20) == Some(limit));
    law_walked_option_is_found(packet, start, end, limit, options_end, path);
    lemma_clamped_ipv4(packet, mtu);
    if ipv4_clamp(packet, mtu) is Some {
        let after = clamped_ipv4(packet, mtu);
        law_checksum_covers_the_pseudo_header(after, start, end);
    }
}

/// The same of an IPv6 packet, whose header is twenty bytes longer.
#[verifier::rlimit(50)]
pub proof fn law_ipv6_announces_what_fits(packet: Seq<u8>, mtu: nat, path: Seq<int>)
    requires
        40 <= packet.len(),
        packet[6] == 6,
        20 <= 256 * packet[4] + packet[5],
        40 + 256 * packet[4] + packet[5] <= packet.len(),
        packet[53] / 2 % 2 == 1,
        5 <= packet[52] / 16,
        packet[52] / 16 * 4 <= 256 * packet[4] + packet[5],
        60 <= mtu <= 65595,
        path.len() > 0,
        path[0] == 60,
        ({
            let options_end = 40 + packet[52] / 16 * 4;
            &&& path.last() + 4 <= options_end
            &&& packet[path.last()] == 2
            &&& packet[path.last() + 1] == 4
            &&& forall|i: int|
                0 <= i < path.len() - 1 ==> {
                    let x = #[trigger] path[i];
                    &&& x < options_end
                    &&& (packet[x] == 1 && path[i + 1] == x + 1) || (packet[x] >= 2 && x + 1
                        < options_end && packet[x + 1] >= 2 && x + packet[x + 1] <= options_end
                        && !(packet[x] == 2 && packet[x + 1] == 4) && path[i + 1] == x + packet[x
                        + 1])
                }
        }),
    ensures
        ({
            let end = 40 + 256 * packet[4] + packet[5];
            let x = path.last();
            let after = clamped_ipv6(packet, mtu);
            let lowered = ipv6_clamp(packet, mtu) is Some;
            let len = end - 40;
            &&& lowered <==> 256 * packet[x + 2] + packet[x + 3] > mtu - 60
            &&& after.len() == packet.len()
            &&& !lowered ==> after == packet
            &&& lowered ==> {
                &&& 256 * after[x + 2] + after[x + 3] == mtu - 60
                &&& word_sum(
                    after.subrange(8, 40) + seq![
                        0u8,
                        0u8,
                        (len / 256) as u8,
                        (len % 256) as u8,
                        0u8,
                        0u8,
                        0u8,
                        6u8,
                    ] + after.subrange(40, end),
                ) % 65535 == 0
                &&& !(after[56] == 0xff && after[57] == 0xff)
                &&& forall|i: int|
                    0 <= i < packet.len() && i != x + 2 && i != x + 3 && i != 56 && i != 57
                        ==> #[trigger] after[i] == packet[i]
            }
            &&& packet[0] / 16 == 6 ==> needs_clamp(packet, mtu) == lowered && clamped(packet, mtu)
                == after
        }),
{
    let end = 40 + 256 * packet[4] + packet[5];
    let options_end = 40 + packet[52] / 16 * 4;
    let limit = (mtu - 60) as nat;
    assert(ipv6_tcp_segment(packet) == Some((40int, end)));
    assert(mss_limit(mtu, 40) == Some(limit));
    law_walked_option_is_found(packet, 40, end, limit, options_end, path);
    lemma_clamped_ipv6(packet, mtu);
    if ipv6_clamp(packet, mtu) is Some {
        let after = clamped_ipv6(packet, mtu);
        law_checksum_covers_the_pseudo_header(after, 40, end);
    }
}

/// A packet keeps every byte that holds no TCP SYN segment in full, or one whose header does not
/// fit, and so does every packet where the MTU leaves room for no 16-bit segment size.
pub proof fn law_other_packets_are_kept(packet: Seq<u8>, mtu: nat)
    ensures
        ({
            let start = packet[0] % 16 * 4;
            let end = 256 * packet[2] + packet[3];
            ||| packet.len() < 20 || packet[9] != 6 || start < 20
            ||| end < start + 20 || packet.len() < end
            ||| packet[start + 13] / 2 % 2 == 0 || packet[start + 12] / 16 < 5
            ||| start + packet[start + 12] / 16 * 4 > end
            ||| mtu < 40 || mtu > 65575
        }) ==> ipv4_clamp(packet, mtu) is None && clamped_ipv4(packet, mtu) == packet,
        ({
            let end = 40 + 256 * packet[4] + packet[5];
            ||| packet.len() < 40 || packet[6] != 6
            ||| end < 60 || packet.len() < end
            ||| packet[53] / 2 % 2 == 0 || packet[52] / 16 < 5
            ||| 40 + packet[52] / 16 * 4 > end
            ||| mtu < 60 || mtu > 65595
        }) ==> ipv6_clamp(packet, mtu) is None && clamped_ipv6(packet, mtu) == packet,
        packet.len() == 0 || packet[0] / 16 != 4 && packet[0] / 16 != 6 ==> !needs_clamp(
            packet,
            mtu,
        ) && clamped(packet, mtu) == packet,
        packet.len() > 0 && packet[0] / 16 == 4 ==> needs_clamp(packet, mtu) == (ipv4_clamp(
            packet,
            mtu,
        ) is Some) && clamped(packet, mtu) == clamped_ipv4(packet, mtu),
        packet.len() > 0 && packet[0] / 16 == 6 ==> needs_clamp(packet, mtu) == (ipv6_clamp(
            packet,
            mtu,
        ) is Some) && clamped(packet, mtu) == clamped_ipv6(packet, mtu),
{
    lemma_syn_bit(packet[packet[0] % 16 * 4 + 13]);
    lemma_syn_bit(packet[53]);
}

/// A SYN packet keeps every byte whose option list ends, or turns out malformed, before a maximum
/// segment size is announced.
pub proof fn law_packets_without_option_are_kept(
    packet: Seq<u8>,
    mtu: nat,
    start: int,
    options_end: int,
    path: Seq<int>,
)
    requires
        options_end == start + packet[start + 12] / 16 * 4,
        path.len() > 0,
        path[0] == start + 20,
        ({
            let x = path.last();
            &&& x >= options_end || packet[x] == 0 || (packet[x] > 1 && (x + 1 >= options_end
                || packet[x + 1] < 2 || x + packet[x + 1] > options_end))
            &&& forall|i: int|
                0 <= i < path.len() - 1 ==> {
                    let x = #[trigger] path[i];
                    &&& x < options_end
                    &&& (packet[x] == 1 && path[i + 1] == x + 1) || (packet[x] >= 2 && x + 1
                        < options_end && packet[x + 1] >= 2 && x + packet[x + 1] <= options_end
                        && !(packet[x] == 2 && packet[x + 1] == 4) && path[i + 1] == x + packet[x
                        + 1])
                }
        }),
    ensures
        20 <= start == packet[0] % 16 * 4 ==> ipv4_clamp(packet, mtu) is None && clamped_ipv4(
            packet,
            mtu,
        ) == packet,
        start == 40 ==> ipv6_clamp(packet, mtu) is None && clamped_ipv6(packet, mtu) == packet,
        0 < packet.len() && packet[0] / 16 == 4 && 20 <= start == packet[0] % 16 * 4
            ==> !needs_clamp(packet, mtu) && clamped(packet, mtu) == packet,
        0 < packet.len() && packet[0] / 16 == 6 && start == 40 ==> !needs_clamp(packet, mtu)
            && clamped(packet, mtu) == packet,
{
    lemma_walk(packet, options_end, path);
}

} // verus!
