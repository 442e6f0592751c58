//! The Internet checksum of a TCP segment.

use vstd::prelude::*;

use crate::bytes::{be_word, lemma_word_written, put_word, with_word_at, word, word_at};

verus! {

/// The protocol number of TCP.
pub const IPPROTO_TCP: u8 = 6;

/// The sum of the big-endian 16-bit words of `data`; an odd last byte counts as the upper half of
/// a word whose lower half is zero.
pub open spec fn word_sum(data: Seq<u8>) -> nat
    decreases data.len(),
{
    if data.len() == 0 {
        0
    } else if data.len() == 1 {
        word(data[0], 0)
    } else {
        word(data[0], data[1]) + word_sum(data.skip(2))
    }
}

/// What is left of a sum when its carries out of the lower 16 bits are added back in until none
/// remains: the residue modulo 65535, where a nonzero multiple of 65535 stays 65535.
pub open spec fn folded(sum: nat) -> nat {
    if sum == 0 {
        0
    } else {
        ((sum - 1) % 65535 + 1) as nat
    }
}

/// The Internet checksum of a block whose words add up to `sum`.
pub open spec fn checksum_of(sum: nat) -> nat {
    (65535 - folded(sum)) as nat
}

/// Adds the words of `data` to a running 32-bit sum.
pub fn add_checksum_bytes(sum: u32, data: &[u8]) -> (total: u32)
    ensures
        total == (sum + word_sum(data@)) % 0x1_0000_0000,
{
    let mut total: u32 = sum;
    let mut index: usize = 0;
    assert(data@.skip(0) == data@);
    while data.len() - index >= 2
        invariant
            index <= data@.len(),
            (sum + word_sum(data@)) % 0x1_0000_0000 == (total + word_sum(
                data@.skip(index as int),
            )) % 0x1_0000_0000,
        decreases data@.len() - index,
    {
        let value: u16 = be_word(data[index], data[index + 1]);
        total = total.wrapping_add(value as u32);
        assert(data@.skip(index as int).skip(2) == data@.skip(index + 2));
        index = index + 2;
    }
    if index < data.len() {
        let value: u16 = be_word(data[index], 0);
        total = total.wrapping_add(value as u32);
    }
    total
}

/// Folds a running sum to 16 bits and complements it.
pub fn finish_checksum(sum: u32) -> (checksum: u16)
    ensures
        checksum == checksum_of(sum as nat),
{
    let mut rest: u32 = sum;
    while rest >> 16 != 0
        invariant
            folded(rest as nat) == folded(sum as nat),
        decreases rest,
    {
        assert(rest & 0xffff == rest % 65536 && rest >> 16 == rest / 65536 && (rest >> 16 != 0
            ==> rest / 65536 > 0)) by (bit_vector);
        rest = (rest & 0xffff) + (rest >> 16);
    }
    assert(rest >> 16 == 0 ==> rest < 65536) by (bit_vector);
    let low: u16 = rest as u16;
    assert(!low == 65535 - low) by (bit_vector);
    !low
}

/// The sum that the checksum of a TCP segment over IPv4 covers: both addresses of the IP header in
/// `packet`, the protocol number, the length of the segment as a 16-bit word, and the words of the
/// segment, which reaches from `start` to `end`.
pub open spec fn ipv4_tcp_sum(packet: Seq<u8>, start: int, end: int) -> nat {
    word_sum(packet.subrange(12, 16)) + word_sum(packet.subrange(16, 20)) + IPPROTO_TCP as nat + (
    (end - start) % 65536) as nat + word_sum(packet.subrange(start, end))
}

/// The sum that the checksum of a TCP segment over IPv6 covers: both addresses of the IP header in
/// `packet`, the length of the segment as two 16-bit words, the protocol number, and the words of
/// the segment, which reaches from `start` to `end`.
pub open spec fn ipv6_tcp_sum(packet: Seq<u8>, start: int, end: int) -> nat {
    word_sum(packet.subrange(8, 24)) + word_sum(packet.subrange(24, 40)) + ((end - start) / 65536
        % 65536) as nat + ((end - start) % 65536) as nat + IPPROTO_TCP as nat + word_sum(
        packet.subrange(start, end),
    )
}

/// `packet` with the checksum field of the TCP segment at `start` set to zero.
pub open spec fn without_checksum(packet: Seq<u8>, start: int) -> Seq<u8> {
    with_word_at(packet, start + 16, 0)
}

/// `packet` with the checksum of the TCP segment from `start` to `end` computed anew over IPv4.
pub open spec fn with_ipv4_tcp_checksum(packet: Seq<u8>, start: int, end: int) -> Seq<u8> {
    let cleared = without_checksum(packet, start);
    with_word_at(
        cleared,
        start + 16,
        checksum_of(ipv4_tcp_sum(cleared, start, end) % 0x1_0000_0000),
    )
}

/// `packet` with the checksum of the TCP segment from `start` to `end` computed anew over IPv6.
pub open spec fn with_ipv6_tcp_checksum(packet: Seq<u8>, start: int, end: int) -> Seq<u8> {
    let cleared = without_checksum(packet, start);
    with_word_at(
        cleared,
        start + 16,
        checksum_of(ipv6_tcp_sum(cleared, start, end) % 0x1_0000_0000),
    )
}

/// Adds one more term to a 32-bit sum that wraps around.
fn add_term(sum: u32, term: u32, Ghost(exact): Ghost<nat>) -> (total: u32)
    requires
        sum == exact % 0x1_0000_0000,
    ensures
        total == (exact + term) % 0x1_0000_0000,
{
    sum.wrapping_add(term)
}

/// Adds the words of `data` to a 32-bit sum that wraps around.
fn add_block(sum: u32, data: &[u8], Ghost(exact): Ghost<nat>) -> (total: u32)
    requires
        sum == exact % 0x1_0000_0000,
    ensures
        total == (exact + word_sum(data@)) % 0x1_0000_0000,
{
    add_checksum_bytes(sum, data)
}

/// Adds up, in 32 bits, what the checksum of a TCP segment over IPv4 covers.
fn sum_ipv4_tcp(packet: &[u8], start: usize, end: usize) -> (sum: u32)
    requires
        20 <= packet@.len(),
        start <= end <= packet@.len(),
    ensures
        sum == ipv4_tcp_sum(packet@, start as int, end as int) % 0x1_0000_0000,
{
    let tcp_len: usize = end - start;
    let ghost source = word_sum(packet@.subrange(12, 16));
    let ghost addresses = source + word_sum(packet@.subrange(16, 20));
    let ghost protocol = addresses + IPPROTO_TCP as nat;
    let ghost header = protocol + ((end - start) % 65536) as nat;
    let sum: u32 = add_block(0, &packet[12..16], Ghost(0));
    let sum: u32 = add_block(sum, &packet[16..20], Ghost(source));
    let sum: u32 = add_term(sum, IPPROTO_TCP as u32, Ghost(addresses));
    let sum: u32 = add_term(sum, (tcp_len % 65536) as u32, Ghost(protocol));
    add_block(sum, &packet[start..end], Ghost(header))
}

/// Adds up, in 32 bits, what the checksum of a TCP segment over IPv6 covers.
fn sum_ipv6_tcp(packet: &[u8], start: usize, end: usize) -> (sum: u32)
    requires
        40 <= packet@.len(),
        start <= end <= packet@.len(),
    ensures
        sum == ipv6_tcp_sum(packet@, start as int, end as int) % 0x1_0000_0000,
{
    let tcp_len: usize = end - start;
    let ghost source = word_sum(packet@.subrange(8, 24));
    let ghost addresses = source + word_sum(packet@.subrange(24, 40));
    let ghost upper = addresses + ((end - start) / 65536 % 65536) as nat;
    let ghost length = upper + ((end - start) % 65536) as nat;
    let ghost header = length + IPPROTO_TCP as nat;
    let sum: u32 = add_block(0, &packet[8..24], Ghost(0));
    let sum: u32 = add_block(sum, &packet[24..40], Ghost(source));
    let sum: u32 = add_term(sum, (tcp_len / 65536 % 65536) as u32, Ghost(addresses));
    let sum: u32 = add_term(sum, (tcp_len % 65536) as u32, Ghost(upper));
    let sum: u32 = add_term(sum, IPPROTO_TCP as u32, Ghost(length));
    add_block(sum, &packet[start..end], Ghost(header))
}

/// Computes the checksum of the TCP segment of an IPv4 packet and writes it into the segment.
pub fn write_ipv4_tcp_checksum(packet: &mut [u8], ip_header_len: usize, total_len: usize)
    requires
        20 <= old(packet)@.len(),
        ip_header_len + 18 <= old(packet)@.len(),
        ip_header_len <= total_len <= old(packet)@.len(),
    ensures
        final(packet)@ == with_ipv4_tcp_checksum(
            old(packet)@,
            ip_header_len as int,
            total_len as int,
        ),
{
    let tcp_start: usize = ip_header_len;
    assert(tcp_start + 18 <= packet.len());
    put_word(packet, tcp_start + 16, 0);
    let sum: u32 = sum_ipv4_tcp(packet, tcp_start, total_len);
    put_word(packet, tcp_start + 16, finish_checksum(sum));
}

/// Computes the checksum of the TCP segment of an IPv6 packet and writes it into the segment.
pub fn write_ipv6_tcp_checksum(packet: &mut [u8], tcp_start: usize, total_len: usize)
    requires
        40 <= old(packet)@.len(),
        tcp_start + 18 <= old(packet)@.len(),
        tcp_start <= total_len <= old(packet)@.len(),
    ensures
        final(packet)@ == with_ipv6_tcp_checksum(old(packet)@, tcp_start as int, total_len as int),
{
    assert(tcp_start + 18 <= packet.len());
    put_word(packet, tcp_start + 16, 0);
    let sum: u32 = sum_ipv6_tcp(packet, tcp_start, total_len);
    put_word(packet, tcp_start + 16, finish_checksum(sum));
}

/// The words of `data` add up to at most 65535 each.
proof fn lemma_word_sum_bound(data: Seq<u8>)
    ensures
        2 * word_sum(data) <= 65535 * (data.len() + 1),
    decreases data.len(),
{
    if data.len() >= 2 {
        lemma_word_sum_bound(data.skip(2));
    }
}

/// Writing a word at an even offset changes the sum by what the word changed.
proof fn lemma_word_sum_written(data: Seq<u8>, at: int, value: nat)
    requires
        0 <= at,
        at % 2 == 0,
        at + 1 < data.len(),
        value < 65536,
    ensures
        word_sum(with_word_at(data, at, value)) + word_at(data, at) == word_sum(data) + value,
    decreases data.len(),
{
    let written = with_word_at(data, at, value);
    if at == 0 {
        assert(written.skip(2) == data.skip(2));
    } else {
        lemma_word_sum_written(data.skip(2), at - 2, value);
        assert(written.skip(2) == with_word_at(data.skip(2), at - 2, value));
    }
}

/// A sum that is completed by its own checksum folds to all ones.
proof fn lemma_checksum_completes(sum: nat)
    requires
        0 < sum,
    ensures
        checksum_of(sum + checksum_of(sum)) == 0,
{
    let part = ((sum - 1) % 65535) as nat;
    let total = sum + checksum_of(sum);
    assert(total - 1 == sum - 1 - part + 65534);
    assert((total - 1) % 65535 == 65534);
}

/// A TCP segment over IPv4 whose checksum was just written verifies: the words of its pseudo header
/// and of the segment, the checksum among them, fold to a checksum of zero. The checksum itself is
/// not all ones.
pub proof fn law_ipv4_checksum_verifies(packet: Seq<u8>, start: int, end: int)
    requires
        20 <= start,
        start + 18 <= end <= packet.len(),
        end - start <= 65535,
    ensures
        checksum_of(ipv4_tcp_sum(with_ipv4_tcp_checksum(packet, start, end), start, end)) == 0,
        word_at(with_ipv4_tcp_checksum(packet, start, end), start + 16) != 65535,
        with_ipv4_tcp_checksum(packet, start, end).len() == packet.len(),
        forall|i: int|
            0 <= i < packet.len() && i != start + 16 && i != start + 17
                ==> #[trigger] with_ipv4_tcp_checksum(packet, start, end)[i] == packet[i],
{
    let cleared = without_checksum(packet, start);
    let sum = ipv4_tcp_sum(cleared, start, end);
    let segment = cleared.subrange(start, end);
    lemma_word_sum_bound(cleared.subrange(12, 16));
    lemma_word_sum_bound(cleared.subrange(16, 20));
    lemma_word_sum_bound(segment);
    assert(sum < 0x1_0000_0000);
    let value = checksum_of(sum);
    let done = with_ipv4_tcp_checksum(packet, start, end);
    assert(done.subrange(12, 16) == cleared.subrange(12, 16));
    assert(done.subrange(16, 20) == cleared.subrange(16, 20));
    assert(done.subrange(start, end) == with_word_at(segment, 16, value));
    lemma_word_sum_written(segment, 16, value);
    lemma_checksum_completes(sum);
}

/// A TCP segment over IPv6 whose checksum was just written verifies: the words of its pseudo header
/// and of the segment, the checksum among them, fold to a checksum of zero. The checksum itself is
/// not all ones.
pub proof fn law_ipv6_checksum_verifies(packet: Seq<u8>, start: int, end: int)
    requires
        40 <= start,
        start + 18 <= end <= packet.len(),
        end - start <= 65535,
    ensures
        checksum_of(ipv6_tcp_sum(with_ipv6_tcp_checksum(packet, start, end), start, end)) == 0,
        word_at(with_ipv6_tcp_checksum(packet, start, end), start + 16) != 65535,
        with_ipv6_tcp_checksum(packet, start, end).len() == packet.len(),
        forall|i: int|
            0 <= i < packet.len() && i != start + 16 && i != start + 17
                ==> #[trigger] with_ipv6_tcp_checksum(packet, start, end)[i] == packet[i],
{
    let cleared = without_checksum(packet, start);
    let sum = ipv6_tcp_sum(cleared, start, end);
    let segment = cleared.subrange(start, end);
    lemma_word_sum_bound(cleared.subrange(8, 24));
    lemma_word_sum_bound(cleared.subrange(24, 40));
    lemma_word_sum_bound(segment);
    assert(sum < 0x1_0000_0000);
    let value = checksum_of(sum);
    let done = with_ipv6_tcp_checksum(packet, start, end);
    assert(done.subrange(8, 24) == cleared.subrange(8, 24));
    assert(done.subrange(24, 40) == cleared.subrange(24, 40));
    assert(done.subrange(start, end) == with_word_at(segment, 16, value));
    lemma_word_sum_written(segment, 16, value);
    lemma_checksum_completes(sum);
}

/// Words add up over blocks of an even length: this, and the sums of what is shorter than two
/// words, leave the sum of every block no choice.
pub proof fn law_word_sums_add_up(first: Seq<u8>, second: Seq<u8>, high: u8, low: u8)
    requires
        first.len() % 2 == 0,
    ensures
        word_sum(first + second) == word_sum(first) + word_sum(second),
        word_sum(Seq::empty()) == 0,
        word_sum(seq![high]) == 256 * high,
        word_sum(seq![high, low]) == 256 * high + low,
    decreases first.len(),
{
    reveal_with_fuel(word_sum, 3);
    assert(seq![high, low].skip(2) =~= Seq::<u8>::empty());
    if first.len() == 0 {
        assert(first + second =~= second);
    } else {
        law_word_sums_add_up(first.skip(2), second, high, low);
        assert((first + second).skip(2) =~= first.skip(2) + second);
    }
}

/// A checksum makes a sum a multiple of 65535, and is all ones only where there is nothing to sum.
pub proof fn law_checksum_completes_a_sum(sum: nat)
    ensures
        checksum_of(sum) <= 65535,
        (sum + checksum_of(sum)) % 65535 == 0,
        checksum_of(sum) == 65535 <==> sum == 0,
{
    if sum > 0 {
        let part = ((sum - 1) % 65535) as nat;
        let times = (sum - 1) / 65535;
        assert(sum - 1 == 65535 * times + part);
        assert(sum + checksum_of(sum) == 65535 * (times + 1));
        assert((65535 * (times + 1)) % 65535 == 0);
    }
}

/// The words of the pseudo headers.
proof fn lemma_pseudo_header_words(high: u8, low: u8)
    ensures
        word_sum(seq![0u8, 6u8, high, low]) == 6 + 256 * high + low,
        word_sum(seq![0u8, 0u8, high, low, 0u8, 0u8, 0u8, 6u8]) == 256 * high + low + 6,
{
    let four = seq![0u8, 6u8, high, low];
    law_word_sums_add_up(seq![0u8, 6u8], seq![high, low], 0, 6);
    law_word_sums_add_up(seq![0u8, 6u8], seq![high, low], high, low);
    assert(four =~= seq![0u8, 6u8] + seq![high, low]);
    let six = seq![0u8, 0u8, high, low, 0u8, 0u8, 0u8, 6u8];
    let back = seq![0u8, 0u8, 0u8, 6u8];
    law_word_sums_add_up(seq![0u8, 0u8], seq![high, low], 0, 0);
    law_word_sums_add_up(seq![0u8, 0u8] + seq![high, low], back, 0, 0);
    law_word_sums_add_up(seq![0u8, 0u8], seq![0u8, 6u8], 0, 6);
    assert(back =~= seq![0u8, 0u8] + seq![0u8, 6u8]);
    assert(six =~= seq![0u8, 0u8] + seq![high, low] + back);
}

/// The words of four blocks, the first three of an even length.
proof fn lemma_three_blocks(one: Seq<u8>, two: Seq<u8>, three: Seq<u8>, rest: Seq<u8>)
    requires
        one.len() % 2 == 0,
        two.len() % 2 == 0,
        three.len() % 2 == 0,
    ensures
        word_sum(one + two + three + rest) == word_sum(one) + word_sum(two) + word_sum(three)
            + word_sum(rest),
{
    law_word_sums_add_up(one, two, 0, 0);
    law_word_sums_add_up(one + two, three, 0, 0);
    law_word_sums_add_up(one + two + three, rest, 0, 0);
}

/// What the checksum of a TCP segment covers are the words of the addresses, of a pseudo header
/// with the protocol number and the length, and of the segment, one after another.
pub proof fn law_checksum_covers_the_pseudo_header(packet: Seq<u8>, start: int, end: int)
    requires
        40 <= packet.len(),
        0 <= start <= end <= packet.len(),
        end - start <= 65535,
    ensures
        ({
            let high = ((end - start) / 256) as u8;
            let low = ((end - start) % 256) as u8;
            let segment = packet.subrange(start, end);
            &&& ipv4_tcp_sum(packet, start, end) == word_sum(
                packet.subrange(12, 20) + seq![0u8, 6u8, high, low] + segment,
            )
            &&& ipv6_tcp_sum(packet, start, end) == word_sum(
                packet.subrange(8, 40) + seq![0u8, 0u8, high, low, 0u8, 0u8, 0u8, 6u8] + segment,
            )
        }),
{
    let high = ((end - start) / 256) as u8;
    let low = ((end - start) % 256) as u8;
    let len = (256 * high + low) as nat;
    assert(len == end - start);
    let segment = packet.subrange(start, end);
    lemma_pseudo_header_words(high, low);
    assert(packet.subrange(12, 20) =~= packet.subrange(12, 16) + packet.subrange(16, 20));
    assert(packet.subrange(8, 40) =~= packet.subrange(8, 24) + packet.subrange(24, 40));
    lemma_three_blocks(
        packet.subrange(12, 16),
        packet.subrange(16, 20),
        seq![0u8, 6u8, high, low],
        segment,
    );
    lemma_three_blocks(
        packet.subrange(8, 24),
        packet.subrange(24, 40),
        seq![0u8, 0u8, high, low, 0u8, 0u8, 0u8, 6u8],
        segment,
    );
}

/// To write a checksum changes the two bytes of its field and no others, wherever the segment lies.
/// What it is made of are the words that a 32-bit sum holds of the addresses, the protocol number,
/// the length and the segment, in which its own field counts as zero; with it they are a multiple
/// of 65535.
pub proof fn law_checksum_field(packet: Seq<u8>, start: int, end: int)
    requires
        20 <= packet.len(),
        0 <= start <= end <= packet.len(),
        start + 18 <= packet.len(),
    ensures
        ({
            let cleared = packet.update(start + 16, 0).update(start + 17, 0);
            let len = end - start;
            let segment = word_sum(cleared.subrange(start, end));
            let after = with_ipv4_tcp_checksum(packet, start, end);
            let sum = (word_sum(cleared.subrange(12, 16)) + word_sum(cleared.subrange(16, 20)) + 6
                + len % 65536 + segment) % 0x1_0000_0000;
            let field = 256 * after[start + 16] + after[start + 17];
            &&& after == packet.update(start + 16, after[start + 16]).update(
                start + 17,
                after[start + 17],
            )
            &&& (sum + field) % 65535 == 0
            &&& field == 65535 <==> sum == 0
        }),
        40 <= packet.len() ==> {
            let cleared = packet.update(start + 16, 0).update(start + 17, 0);
            let len = end - start;
            let segment = word_sum(cleared.subrange(start, end));
            let after = with_ipv6_tcp_checksum(packet, start, end);
            let sum = (word_sum(cleared.subrange(8, 24)) + word_sum(cleared.subrange(24, 40)) + len
                / 65536 % 65536 + len % 65536 + 6 + segment) % 0x1_0000_0000;
            let field = 256 * after[start + 16] + after[start + 17];
            &&& after == packet.update(start + 16, after[start + 16]).update(
                start + 17,
                after[start + 17],
            )
            &&& (sum + field) % 65535 == 0
            &&& field == 65535 <==> sum == 0
        },
{
    let cleared = packet.update(start + 16, 0).update(start + 17, 0);
    assert(without_checksum(packet, start) =~= cleared);
    let four_sum = (ipv4_tcp_sum(cleared, start, end) % 0x1_0000_0000) as nat;
    let six_sum = (ipv6_tcp_sum(cleared, start, end) % 0x1_0000_0000) as nat;
    law_checksum_completes_a_sum(four_sum);
    law_checksum_completes_a_sum(six_sum);
    lemma_word_written(cleared, start + 16, checksum_of(four_sum));
    lemma_word_written(cleared, start + 16, checksum_of(six_sum));
    let four = with_ipv4_tcp_checksum(packet, start, end);
    let six = with_ipv6_tcp_checksum(packet, start, end);
    assert(four =~= packet.update(start + 16, four[start + 16]).update(
        start + 17,
        four[start + 17],
    ));
    assert(six =~= packet.update(start + 16, six[start + 16]).update(start + 17, six[start + 17]));
}

} // verus!
