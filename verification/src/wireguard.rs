//! The WireGuard protocol engine of the `boringtun` crate.

use boringtun::noise::{Tunn, TunnResult};
use boringtun::x25519::{PublicKey, StaticSecret};
use vstd::prelude::*;

use crate::bytes::word_at;
use crate::settings::PeerAddress;

verus! {

/// The largest IP packet.
pub const MAX_IP_PACKET_SIZE: usize = 65_535;

/// The room for what WireGuard adds to a packet.
pub const WG_BUFFER_PADDING: usize = 512;

/// The size of the buffers that hold WireGuard messages.
pub const WG_BUFFER_SIZE: usize = MAX_IP_PACKET_SIZE + WG_BUFFER_PADDING;

/// How many packets can wait for a session.
pub const MAX_QUEUE_DEPTH: usize = 256;

/// How far below a counter the window reaches in which messages may come late.
pub const COUNTER_WINDOW: u64 = 1024;

/// The message type of a handshake initiation.
pub const WG_MESSAGE_HANDSHAKE_INITIATION: u32 = 1;

/// The message type of a handshake response.
pub const WG_MESSAGE_HANDSHAKE_RESPONSE: u32 = 2;

/// The message type of a cookie reply.
pub const WG_MESSAGE_COOKIE_REPLY: u32 = 3;

/// The message type of transport data.
pub const WG_MESSAGE_DATA: u32 = 4;

/// The state of one WireGuard connection.
#[verifier::external_type_specification]
#[verifier::external_body]
pub struct ExTunn(Tunn);

/// What a [`Tunn`] is made with.
pub struct TunnSetup {
    pub private_key: [u8; 32],
    pub peer_public_key: [u8; 32],
    pub preshared_key: Option<[u8; 32]>,
    /// The interval of the persistent keepalive in seconds, where there is one.
    pub keepalive: Option<u16>,
    /// The number that the session indices are made from.
    pub index: u32,
}

/// The contents of a [`TunnSetup`].
pub ghost struct SetupView {
    pub private_key: Seq<u8>,
    pub peer_public_key: Seq<u8>,
    pub preshared_key: Option<Seq<u8>>,
    /// The interval of the persistent keepalive in seconds; zero where there is none.
    pub keepalive: nat,
    pub index: u32,
}

impl View for TunnSetup {
    type V = SetupView;

    open spec fn view(&self) -> SetupView {
        SetupView {
            private_key: self.private_key@,
            peer_public_key: self.peer_public_key@,
            preshared_key: match self.preshared_key {
                Some(key) => Some(key@),
                None => None,
            },
            keepalive: match self.keepalive {
                Some(seconds) => seconds as nat,
                None => 0,
            },
            index: self.index,
        }
    }
}

/// The state of a [`Tunn`].
#[verifier::ext_equal]
pub ghost struct TunnState {
    /// What it was made with.
    pub setup: SetupView,
    /// The packets that wait for a session, the one that has waited longest first.
    pub queue: Seq<Seq<u8>>,
    /// Whether there is a session to send packets in.
    pub session: bool,
    /// Whether a handshake is under way.
    pub handshaking: bool,
    /// How many messages were sent in that session; zero where there is none. The count starts over
    /// when it is full.
    pub sent: u64,
    /// How many initiations and responses were made. The count starts over when it is full.
    pub handshakes: u8,
}

/// The count of initiations and responses after one more was made.
pub open spec fn next_handshake(state: TunnState) -> u8 {
    if state.handshakes == u8::MAX {
        0
    } else {
        (state.handshakes + 1) as u8
    }
}

/// The count of messages in a session after one more was sent.
pub open spec fn next_sent(state: TunnState) -> u64 {
    if state.sent == u64::MAX {
        0
    } else {
        (state.sent + 1) as u64
    }
}

/// The state that a [`Tunn`] holds. Its keys, its keepalive interval and its index stay what they
/// were for as long as it lives.
pub uninterp spec fn tunn_state(tunn: Tunn) -> TunnState;

/// The transport data message that a [`Tunn`] with a session makes of a packet. It is determined by
/// the keys of the session and by how many messages were sent in it.
pub uninterp spec fn sealed(tunn: Tunn, packet: Seq<u8>) -> Seq<u8>;

/// What a [`Tunn`] finds in a transport data message, where it accepts the message. That is
/// determined by the sessions that it holds: by their indices and keys, and by which messages came
/// in them before.
pub uninterp spec fn opened(tunn: Tunn, datagram: Seq<u8>) -> Option<Seq<u8>>;

/// Whether a [`Tunn`] takes a cookie reply. That is determined by the last message of the handshake
/// that it sent.
pub uninterp spec fn takes_cookie(tunn: Tunn, datagram: Seq<u8>) -> bool;

/// What a [`Tunn`] makes of an initiation of or a response to a handshake.
pub ghost enum HandshakeVerdict {
    /// It is not valid.
    Refused,
    /// There are too many: the sender is put off with a cookie reply.
    PutOff(Seq<u8>),
    /// It is an initiation, and is answered with a response.
    Answered,
    /// It is a response, and establishes a session, in which this message is the first.
    Confirmed(Seq<u8>),
}

/// What a [`Tunn`] makes of an initiation of or a response to a handshake, in a period of its
/// clock. That is determined by its keys, by the handshakes that it has seen and begun, by how many
/// such messages came lately, and by the cookie that the sender has to know in that period.
pub uninterp spec fn handshake_verdict(
    tunn: Tunn,
    source: PeerAddress,
    datagram: Seq<u8>,
    period: u64,
) -> HandshakeVerdict;

/// What the timers of a [`Tunn`] ask for.
pub ghost enum TimerTask {
    /// Nothing.
    Rest,
    /// To give the connection up.
    Expire,
    /// Nothing any more, since the connection has been given up.
    StayExpired,
    /// To begin a handshake, even where one is under way.
    Handshake,
    /// To send a message without contents.
    Keepalive,
}

/// What the timers of a [`Tunn`] ask for, and whether the session to send in is still there.
pub ghost struct TimerVerdict {
    pub task: TimerTask,
    pub session: bool,
}

/// What the timers of a [`Tunn`] ask for at a reading of the machine's steady clock, in
/// nanoseconds, and a later one, at which the age of a handshake that is under way is taken.
pub uninterp spec fn timer_verdict(tunn: Tunn, now: u128, later: u128) -> TimerVerdict;

/// How long ago the last handshake of a [`Tunn`] was completed, in seconds and nanoseconds, at a
/// reading of the machine's steady clock in nanoseconds.
pub uninterp spec fn handshake_age(tunn: Tunn, now: u128) -> Option<(u64, u32)>;

/// What a [`Tunn`] has counted and estimated.
pub uninterp spec fn tunn_counters(tunn: Tunn) -> TunnCounters;

/// The counters and the estimates of a [`Tunn`].
pub ghost struct TunnCounters {
    pub tx_bytes: usize,
    pub rx_bytes: usize,
    /// The estimated share of packets lost, as the bits of a single-precision number.
    pub loss_bits: u32,
    pub rtt_millis: Option<u32>,
}

/// The counters and the estimates before anything was sent or received.
pub open spec fn nothing_counted() -> TunnCounters {
    TunnCounters { tx_bytes: 0, rx_bytes: 0, loss_bits: 0, rtt_millis: None }
}

/// What a [`Tunn`] wants done.
pub enum TunnOutcome {
    /// Nothing.
    Done,
    /// Nothing, since what it was given was not valid.
    Rejected,
    /// Send a message to the peer.
    WriteToNetwork(Vec<u8>),
    /// Hand an IPv4 packet to the TUN device.
    WriteToTunnelV4(Vec<u8>),
    /// Hand an IPv6 packet to the TUN device.
    WriteToTunnelV6(Vec<u8>),
}

/// The counters of a [`Tunn`].
pub struct TunnStats {
    /// How long ago the last handshake was completed, in seconds and nanoseconds.
    pub latest_handshake: Option<(u64, u32)>,
    pub tx_bytes: usize,
    pub rx_bytes: usize,
    /// The estimated share of packets lost, as the bits of a single-precision number.
    pub loss_bits: u32,
    pub rtt_millis: Option<u32>,
}

/// What statistics say of counters and estimates.
pub open spec fn counters_of(stats: TunnStats) -> TunnCounters {
    TunnCounters {
        tx_bytes: stats.tx_bytes,
        rx_bytes: stats.rx_bytes,
        loss_bits: stats.loss_bits,
        rtt_millis: stats.rtt_millis,
    }
}

/// The type of a WireGuard message: its first four bytes, the least significant one first.
pub open spec fn message_type(data: Seq<u8>) -> Option<u32> {
    if data.len() < 4 {
        None
    } else {
        Some((data[0] + 256 * data[1] + 65536 * data[2] + 16777216 * data[3]) as u32)
    }
}

/// The message of a handshake carries, behind its type, its number and the index of the one who
/// sends it.
pub open spec fn carries_index(data: Seq<u8>, index: u32, number: u8) -> bool {
    data[4] == number && data[5] + 256 * data[6] + 65536 * data[7] == index
}

/// The form of the next handshake initiation in a state.
pub open spec fn is_handshake_initiation(data: Seq<u8>, state: TunnState) -> bool {
    &&& data.len() == 148
    &&& message_type(data) == Some(WG_MESSAGE_HANDSHAKE_INITIATION)
    &&& carries_index(data, state.setup.index, next_handshake(state))
}

/// The form of a transport data message that carries `payload_len` bytes.
pub open spec fn is_data_message(data: Seq<u8>, payload_len: nat) -> bool {
    data.len() == payload_len + 32 && message_type(data) == Some(WG_MESSAGE_DATA)
}

/// A queue after one more packet came to wait. There is no room for it in a full one.
pub open spec fn queued(queue: Seq<Seq<u8>>, packet: Seq<u8>) -> Seq<Seq<u8>> {
    if queue.len() < MAX_QUEUE_DEPTH {
        queue.push(packet)
    } else {
        queue
    }
}

/// A state after a packet was to be sent. In a session it is sent; without one it waits, and a
/// handshake is under way.
pub open spec fn after_encapsulation(state: TunnState, packet: Seq<u8>) -> TunnState {
    if state.session {
        TunnState { sent: next_sent(state), ..state }
    } else {
        after_handshake(
            TunnState { queue: queued(state.queue, packet), ..state },
            false,
        )
    }
}

/// What comes of encapsulating a packet that `message` is made of where there is a session.
pub open spec fn encapsulation(
    state: TunnState,
    packet: Seq<u8>,
    message: Seq<u8>,
    outcome: TunnOutcome,
) -> bool {
    if state.session {
        &&& outcome matches TunnOutcome::WriteToNetwork(data) && data@ == message
        &&& is_data_message(message, packet.len())
        &&& message_counter(message) == state.sent
    } else {
        handshake_start(state, false, outcome)
    }
}

/// A state after a handshake was to begin.
pub open spec fn after_handshake(state: TunnState, force: bool) -> TunnState {
    if state.handshaking && !force {
        state
    } else {
        TunnState { handshaking: true, handshakes: next_handshake(state), ..state }
    }
}

/// What comes of beginning a handshake.
pub open spec fn handshake_start(state: TunnState, force: bool, outcome: TunnOutcome) -> bool {
    if state.handshaking && !force {
        outcome is Done
    } else {
        outcome matches TunnOutcome::WriteToNetwork(data) && is_handshake_initiation(data@, state)
    }
}

/// A state after the packet that has waited longest was to be sent.
pub open spec fn after_flush(state: TunnState) -> TunnState {
    if state.queue.len() == 0 {
        state
    } else {
        after_encapsulation(
            TunnState { queue: state.queue.drop_first(), ..state },
            state.queue.first(),
        )
    }
}

/// What comes of sending the packet that has waited longest, which `message` is made of where there
/// is a session.
pub open spec fn flushing(state: TunnState, message: Seq<u8>, outcome: TunnOutcome) -> bool {
    if state.queue.len() == 0 {
        outcome is Done
    } else {
        encapsulation(state, state.queue.first(), message, outcome)
    }
}

/// A message of `kind` that is `len` bytes long.
pub open spec fn is_message(data: Seq<u8>, kind: u32, len: nat) -> bool {
    data.len() == len && message_type(data) == Some(kind)
}

/// A response to a handshake initiation: it names the one who began.
pub open spec fn is_response_to(data: Seq<u8>, datagram: Seq<u8>, state: TunnState) -> bool {
    &&& is_message(datagram, WG_MESSAGE_HANDSHAKE_INITIATION, 148)
    &&& is_message(data, WG_MESSAGE_HANDSHAKE_RESPONSE, 92)
    &&& carries_index(data, state.setup.index, next_handshake(state))
    &&& data.subrange(8, 12) == datagram.subrange(4, 8)
}

/// The first message in the session that a handshake response establishes: it carries nothing, and
/// names the one who responded.
pub open spec fn is_confirmation_of(data: Seq<u8>, datagram: Seq<u8>) -> bool {
    &&& is_message(datagram, WG_MESSAGE_HANDSHAKE_RESPONSE, 92)
    &&& is_data_message(data, 0)
    &&& message_counter(data) == 0
    &&& data.subrange(4, 8) == datagram.subrange(4, 8)
}

/// A cookie that a message of the handshake is put off with: it names the one who sent the message.
pub open spec fn is_cookie_for(data: Seq<u8>, datagram: Seq<u8>) -> bool {
    &&& is_message(data, WG_MESSAGE_COOKIE_REPLY, 64)
    &&& data.subrange(4, 8) == datagram.subrange(4, 8)
}

/// What comes of an initiation of or a response to a handshake, and how the state may change with
/// it.
pub open spec fn handshake_answer(
    before: TunnState,
    datagram: Seq<u8>,
    verdict: HandshakeVerdict,
    outcome: TunnOutcome,
    after: TunnState,
) -> bool {
    match verdict {
        HandshakeVerdict::Refused => outcome is Rejected && after == before,
        HandshakeVerdict::PutOff(reply) => {
            &&& outcome matches TunnOutcome::WriteToNetwork(data) && data@ == reply
            &&& is_cookie_for(reply, datagram)
            &&& after == before
        },
        HandshakeVerdict::Answered => {
            &&& outcome matches TunnOutcome::WriteToNetwork(data) && is_response_to(
                data@,
                datagram,
                before,
            )
            &&& before.session ==> after.session
            &&& after == (TunnState {
                session: after.session,
                handshaking: false,
                sent: after.sent,
                handshakes: next_handshake(before),
                ..before
            })
        },
        HandshakeVerdict::Confirmed(reply) => {
            &&& outcome matches TunnOutcome::WriteToNetwork(data) && data@ == reply
            &&& is_confirmation_of(reply, datagram)
            &&& after.handshaking ==> before.handshaking
            &&& after == (TunnState {
                session: true,
                handshaking: after.handshaking,
                sent: after.sent,
                ..before
            })
        },
    }
}

/// The form of a transport data message.
pub open spec fn is_transport_data(data: Seq<u8>) -> bool {
    32 <= data.len() && message_type(data) == Some(WG_MESSAGE_DATA)
}

/// What comes of what was in a transport data message. An IP packet is cut to the length that its
/// header states, which must not be longer than it is; nothing at all is a keepalive.
pub open spec fn payload_taken(payload: Seq<u8>, outcome: TunnOutcome) -> bool {
    if payload.len() == 0 {
        outcome is Done
    } else if payload[0] / 16 == 4 && 20 <= payload.len() && word_at(payload, 2) <= payload.len() {
        outcome matches TunnOutcome::WriteToTunnelV4(data) && data@ == payload.take(
            word_at(payload, 2) as int,
        )
    } else if payload[0] / 16 == 6 && 40 <= payload.len() && 40 + word_at(payload, 4)
        <= payload.len() {
        outcome matches TunnOutcome::WriteToTunnelV6(data) && data@ == payload.take(
            (40 + word_at(payload, 4)) as int,
        )
    } else {
        outcome is Rejected
    }
}

/// What comes of a transport data message with a `payload`, where it is accepted, and how the state
/// changes with it.
pub open spec fn data_taken(
    before: TunnState,
    datagram: Seq<u8>,
    payload: Option<Seq<u8>>,
    outcome: TunnOutcome,
    after: TunnState,
) -> bool {
    match payload {
        Some(payload) => {
            &&& payload.len() + 32 == datagram.len()
            &&& payload_taken(payload, outcome)
            &&& after == (TunnState { session: true, sent: after.sent, ..before })
        },
        None => outcome is Rejected && after == before,
    }
}

/// What comes of taking in a datagram that is not empty, and how the state may change with it. A
/// message of the handshake is dealt with by the verdict of some period of the clock, a cookie
/// reply is taken or not, and transport data gives its `payload`, where it is accepted. Anything
/// else is rejected. What waits for a session goes on waiting.
pub open spec fn decapsulation(
    before: TunnState,
    datagram: Seq<u8>,
    payload: Option<Seq<u8>>,
    cookie_taken: bool,
    verdicts: spec_fn(u64) -> HandshakeVerdict,
    outcome: TunnOutcome,
    after: TunnState,
) -> bool {
    if is_message(datagram, WG_MESSAGE_HANDSHAKE_INITIATION, 148) || is_message(
        datagram,
        WG_MESSAGE_HANDSHAKE_RESPONSE,
        92,
    ) {
        exists|period: u64|
            handshake_answer(before, datagram, #[trigger] verdicts(period), outcome, after)
    } else if is_message(datagram, WG_MESSAGE_COOKIE_REPLY, 64) {
        &&& if cookie_taken {
            outcome is Done
        } else {
            outcome is Rejected
        }
        &&& after == before
    } else if is_transport_data(datagram) {
        data_taken(before, datagram, payload, outcome, after)
    } else {
        outcome is Rejected && after == before
    }
}

/// The counter of a transport data message: the eight bytes behind the index of the session, the
/// least significant one first.
pub open spec fn message_counter(data: Seq<u8>) -> int {
    data[8] + 0x100 * data[9] + 0x1_0000 * data[10] + 0x100_0000 * data[11] + 0x1_0000_0000
        * data[12] + 0x100_0000_0000 * data[13] + 0x1_0000_0000_0000 * data[14]
        + 0x100_0000_0000_0000 * data[15]
}

/// A datagram is not transport data with a counter so large that the window of counters around it
/// does not fit into 64 bits.
pub open spec fn counter_in_range(datagram: Seq<u8>) -> bool {
    is_transport_data(datagram) ==> message_counter(datagram) <= u64::MAX - COUNTER_WINDOW
}

/// A state after sessions have expired.
pub open spec fn after_expiry(before: TunnState, session: bool) -> TunnState {
    TunnState {
        session,
        sent: if session {
            before.sent
        } else {
            0
        },
        ..before
    }
}

/// A state after the timers were looked after. Sessions expire, and with the connection all that
/// waits is given up.
pub open spec fn after_timers(before: TunnState, verdict: TimerVerdict) -> TunnState {
    let left = after_expiry(before, verdict.session);
    match verdict.task {
        TimerTask::Rest => left,
        TimerTask::Expire => TunnState {
            queue: Seq::empty(),
            handshaking: false,
            ..after_expiry(before, false)
        },
        TimerTask::StayExpired => TunnState { handshaking: false, ..left },
        TimerTask::Handshake => after_handshake(left, true),
        TimerTask::Keepalive => after_encapsulation(left, Seq::empty()),
    }
}

/// What comes of looking after the timers. The message `keepalive` is the one without contents.
pub open spec fn timer_update(
    before: TunnState,
    verdict: TimerVerdict,
    keepalive: Seq<u8>,
    outcome: TunnOutcome,
) -> bool {
    &&& verdict.session ==> before.session
    &&& match verdict.task {
        TimerTask::Rest => outcome is Done,
        TimerTask::Expire | TimerTask::StayExpired => outcome is Rejected,
        TimerTask::Handshake => handshake_start(before, true, outcome),
        TimerTask::Keepalive => encapsulation(
            after_expiry(before, verdict.session),
            Seq::empty(),
            keepalive,
            outcome,
        ),
    }
}

/// The timers were looked after as a verdict asks for.
pub open spec fn timers_served(
    before: TunnState,
    verdict: TimerVerdict,
    keepalive: Seq<u8>,
    outcome: TunnOutcome,
    after: TunnState,
) -> bool {
    timer_update(before, verdict, keepalive, outcome) && after == after_timers(before, verdict)
}

/// Two connections differ in nothing but in what waits for a session.
pub open spec fn same_but_for_queue(one: Tunn, other: Tunn) -> bool {
    &&& tunn_counters(one) == tunn_counters(other)
    &&& forall|packet: Seq<u8>| #[trigger] sealed(one, packet) == sealed(other, packet)
    &&& forall|datagram: Seq<u8>| #[trigger] opened(one, datagram) == opened(other, datagram)
    &&& forall|datagram: Seq<u8>| #[trigger]
        takes_cookie(one, datagram) == takes_cookie(other, datagram)
    &&& forall|source: PeerAddress, datagram: Seq<u8>, period: u64| #[trigger]
        handshake_verdict(one, source, datagram, period) == handshake_verdict(
            other,
            source,
            datagram,
            period,
        )
    &&& forall|now: u128, later: u128| #[trigger]
        timer_verdict(one, now, later) == timer_verdict(other, now, later)
    &&& forall|now: u128| #[trigger] handshake_age(one, now) == handshake_age(other, now)
}

/// The bytes of a packet were added to those that were sent, as far as the counter goes.
pub open spec fn counted_out(before: TunnCounters, len: nat, after: TunnCounters) -> bool {
    before.tx_bytes + len <= usize::MAX ==> after == (TunnCounters {
        tx_bytes: (before.tx_bytes + len) as usize,
        ..before
    })
}

/// How many bytes an outcome hands to the TUN device.
pub open spec fn bytes_in(outcome: TunnOutcome) -> nat {
    match outcome {
        TunnOutcome::WriteToTunnelV4(data) | TunnOutcome::WriteToTunnelV6(data) => data@.len(),
        _ => 0,
    }
}

/// The bytes of a packet that came in were added to those that were received, as far as the counter
/// goes. Nothing was sent that counts, and only an answer can bring a new estimate of the round
/// trip.
pub open spec fn counted_in(
    before: TunnCounters,
    outcome: TunnOutcome,
    after: TunnCounters,
) -> bool {
    &&& after.tx_bytes == before.tx_bytes
    &&& before.rx_bytes + bytes_in(outcome) <= usize::MAX ==> after.rx_bytes == before.rx_bytes
        + bytes_in(outcome)
    &&& !(outcome is WriteToNetwork) ==> after.rtt_millis == before.rtt_millis
}

/// A connection has dealt with one packet of `len` bytes and nothing else: in a session its bytes
/// were counted, and while a handshake is under way it can only have come to wait.
pub open spec fn packet_accounted(before: Tunn, len: nat, after: Tunn) -> bool {
    let state = tunn_state(before);
    if state.session {
        counted_out(tunn_counters(before), len, tunn_counters(after))
    } else {
        &&& tunn_counters(after) == tunn_counters(before)
        &&& state.handshaking ==> same_but_for_queue(before, after)
    }
}

/// A connection has dealt with the packet that has waited longest and nothing else.
pub open spec fn flush_accounted(before: Tunn, after: Tunn) -> bool {
    if tunn_state(before).queue.len() == 0 {
        same_but_for_queue(before, after)
    } else {
        packet_accounted(before, tunn_state(before).queue.first().len(), after)
    }
}

/// Looking after the timers sends and receives no bytes that count.
pub open spec fn timers_accounted(before: TunnCounters, after: TunnCounters) -> bool {
    after == (TunnCounters { loss_bits: after.loss_bits, ..before })
}

/// Makes a connection.
///
/// Calls `Tunn::new`, without a rate limiter, and hands it each part of the setup in its place. The
/// connection starts without a session, without a handshake, with nothing that waits and with
/// nothing counted. What it holds besides is drawn at random and taken from the clock. No keepalive
/// is the same to it as one of zero seconds, and of the index it keeps the lower 24 bits. Whatever
/// it is given, it panics where the wall clock is set before 1970.
#[verifier::external_body]
pub(crate) fn new_tunn(setup: &TunnSetup) -> (tunn: Tunn)
    requires
        setup.index < 0x100_0000,
    ensures
        tunn_state(tunn) == (TunnState {
            setup: setup@,
            queue: Seq::empty(),
            session: false,
            handshaking: false,
            sent: 0,
            handshakes: 0,
        }),
        tunn_counters(tunn) == nothing_counted(),
{
    Tunn::new(
        StaticSecret::from(setup.private_key),
        PublicKey::from(setup.peer_public_key),
        setup.preshared_key,
        setup.keepalive,
        setup.index,
        None,
    )
}

/// Encrypts a packet for the peer, or asks for a handshake where there is no session yet.
///
/// Calls `Tunn::encapsulate`. With a session it returns a transport data message that is 32 bytes
/// longer than the packet, with the next counter of the session, and adds the packet's length to
/// the bytes sent. Without one it puts the packet at the end of its queue, unless 256 packets are
/// there, and returns a handshake initiation of 148 bytes with the next number, or nothing where a
/// handshake is under way; it then changes nothing but the queue. It panics where the buffer is too
/// small for the packet. What else is in a handshake initiation is drawn at random and taken from
/// the clock, and is not stated.
#[verifier::external_body]
pub(crate) fn tunn_encapsulate(tunn: &mut Tunn, packet: &[u8], out: &mut [u8]) -> (outcome:
    TunnOutcome)
    requires
        packet@.len() <= MAX_IP_PACKET_SIZE,
        WG_BUFFER_SIZE <= old(out)@.len(),
    ensures
        tunn_state(*final(tunn)) == after_encapsulation(tunn_state(*old(tunn)), packet@),
        final(out)@.len() == old(out)@.len(),
        encapsulation(
            tunn_state(*old(tunn)),
            packet@,
            sealed(*old(tunn), packet@),
            outcome,
        ),
        packet_accounted(*old(tunn), packet@.len(), *final(tunn)),
{
    match tunn.encapsulate(packet, out) {
        TunnResult::Done => TunnOutcome::Done,
        TunnResult::Err(_) => TunnOutcome::Rejected,
        TunnResult::WriteToNetwork(data) => TunnOutcome::WriteToNetwork(data.to_vec()),
        TunnResult::WriteToTunnelV4(data, _) => TunnOutcome::WriteToTunnelV4(data.to_vec()),
        TunnResult::WriteToTunnelV6(data, _) => TunnOutcome::WriteToTunnelV6(data.to_vec()),
    }
}

/// Takes in a datagram of the peer.
///
/// Calls `Tunn::decapsulate` with the address that the datagram came from. It checks and answers
/// messages of the handshake, decrypts transport data, and takes an empty datagram as a request to
/// encapsulate the first packet of its queue; [`decapsulation`], [`flushing`], [`counted_in`] and
/// [`flush_accounted`] say what its source shows of each. It panics where the buffer is too small
/// for the datagram or for the first packet of the queue, and, where arithmetic is checked for
/// overflow, on authentic transport data with a counter at the very end of its range. What else is
/// in a response to a handshake is drawn at random and is not stated.
#[verifier::external_body]
pub(crate) fn tunn_decapsulate(
    tunn: &mut Tunn,
    source: PeerAddress,
    datagram: &[u8],
    out: &mut [u8],
) -> (outcome: TunnOutcome)
    requires
        WG_BUFFER_SIZE <= old(out)@.len(),
        datagram@.len() <= old(out)@.len(),
        datagram@.len() == 0 ==> queue_in_bounds(tunn_state(*old(tunn))),
        counter_in_range(datagram@),
    ensures
        final(out)@.len() == old(out)@.len(),
        datagram@.len() == 0 ==> tunn_state(*final(tunn)) == after_flush(tunn_state(*old(tunn)))
            && flushing(
            tunn_state(*old(tunn)),
            sealed(*old(tunn), tunn_state(*old(tunn)).queue.first()),
            outcome,
        ) && flush_accounted(*old(tunn), *final(tunn)),
        datagram@.len() > 0 ==> decapsulation(
            tunn_state(*old(tunn)),
            datagram@,
            opened(*old(tunn), datagram@),
            takes_cookie(*old(tunn), datagram@),
            |period: u64| handshake_verdict(*old(tunn), source, datagram@, period),
            outcome,
            tunn_state(*final(tunn)),
        ) && counted_in(tunn_counters(*old(tunn)), outcome, tunn_counters(*final(tunn))),
{
    let ip = match source {
        PeerAddress::V4 { address, .. } => address.to_be_bytes().into(),
        PeerAddress::V6 { address, .. } => address.to_be_bytes().into(),
    };
    match tunn.decapsulate(Some(ip), datagram, out) {
        TunnResult::Done => TunnOutcome::Done,
        TunnResult::Err(_) => TunnOutcome::Rejected,
        TunnResult::WriteToNetwork(data) => TunnOutcome::WriteToNetwork(data.to_vec()),
        TunnResult::WriteToTunnelV4(data, _) => TunnOutcome::WriteToTunnelV4(data.to_vec()),
        TunnResult::WriteToTunnelV6(data, _) => TunnOutcome::WriteToTunnelV6(data.to_vec()),
    }
}

/// Begins a handshake.
///
/// Calls `Tunn::format_handshake_initiation`. It returns a handshake initiation of 148 bytes, or,
/// unless it is forced, nothing where a handshake is under way. What else is in the message is
/// drawn at random and taken from the clock, and is not stated.
#[verifier::external_body]
pub(crate) fn tunn_handshake(tunn: &mut Tunn, out: &mut [u8], force: bool) -> (outcome: TunnOutcome)
    requires
        WG_BUFFER_SIZE <= old(out)@.len(),
    ensures
        tunn_state(*final(tunn)) == after_handshake(tunn_state(*old(tunn)), force),
        tunn_counters(*final(tunn)) == tunn_counters(*old(tunn)),
        final(out)@.len() == old(out)@.len(),
        handshake_start(tunn_state(*old(tunn)), force, outcome),
{
    match tunn.format_handshake_initiation(out, force) {
        TunnResult::Done => TunnOutcome::Done,
        TunnResult::Err(_) => TunnOutcome::Rejected,
        TunnResult::WriteToNetwork(data) => TunnOutcome::WriteToNetwork(data.to_vec()),
        TunnResult::WriteToTunnelV4(data, _) => TunnOutcome::WriteToTunnelV4(data.to_vec()),
        TunnResult::WriteToTunnelV6(data, _) => TunnOutcome::WriteToTunnelV6(data.to_vec()),
    }
}

/// Does what the clock asks for.
///
/// Calls `Tunn::update_timers`. It returns a handshake initiation of 148 bytes or a transport data
/// message without payload where the time has come for one, an error where the connection has
/// expired, and otherwise nothing. Which of them it is depends on two readings of the clock, and is
/// named for each; [`timers_served`] says what its source shows of each. What else is in a
/// handshake initiation is drawn at random and taken from the clock, and is not stated.
#[verifier::external_body]
pub(crate) fn tunn_update_timers(tunn: &mut Tunn, out: &mut [u8]) -> (outcome: TunnOutcome)
    requires
        WG_BUFFER_SIZE <= old(out)@.len(),
    ensures
        final(out)@.len() == old(out)@.len(),
        exists|now: u128, later: u128|
            timers_served(
                tunn_state(*old(tunn)),
                #[trigger] timer_verdict(*old(tunn), now, later),
                sealed(*old(tunn), Seq::empty()),
                outcome,
                tunn_state(*final(tunn)),
            ),
        timers_accounted(tunn_counters(*old(tunn)), tunn_counters(*final(tunn))),
{
    match tunn.update_timers(out) {
        TunnResult::Done => TunnOutcome::Done,
        TunnResult::Err(_) => TunnOutcome::Rejected,
        TunnResult::WriteToNetwork(data) => TunnOutcome::WriteToNetwork(data.to_vec()),
        TunnResult::WriteToTunnelV4(data, _) => TunnOutcome::WriteToTunnelV4(data.to_vec()),
        TunnResult::WriteToTunnelV6(data, _) => TunnOutcome::WriteToTunnelV6(data.to_vec()),
    }
}

/// Reads the counters of a connection.
///
/// Calls `Tunn::stats`. What it counted and estimated is named. The age of the last handshake is
/// there where there is a session, and is named for each reading of the clock.
#[verifier::external_body]
pub(crate) fn tunn_stats(tunn: &Tunn) -> (stats: TunnStats)
    ensures
        counters_of(stats) == tunn_counters(*tunn),
        exists|now: u128| stats.latest_handshake == #[trigger] handshake_age(*tunn, now),
        stats.latest_handshake is Some <==> tunn_state(*tunn).session,
{
    let (handshake, tx, rx, loss, rtt) = tunn.stats();
    TunnStats {
        latest_handshake: handshake.map(|age| (age.as_secs(), age.subsec_nanos())),
        tx_bytes: tx,
        rx_bytes: rx,
        loss_bits: loss.to_bits(),
        rtt_millis: rtt,
    }
}

/// Reads the type of a WireGuard message.
pub fn wireguard_message_type(data: &[u8]) -> (kind: Option<u32>)
    ensures
        kind == message_type(data@),
{
    if data.len() < 4 {
        return None;
    }
    Some(
        data[0] as u32 + 256 * (data[1] as u32) + 65536 * (data[2] as u32) + 16777216 * (
        data[3] as u32),
    )
}

/// Whether a WireGuard message is transport data.
pub fn holds_data(data: &[u8]) -> (holds: bool)
    ensures
        holds == (message_type(data@) == Some(WG_MESSAGE_DATA)),
{
    match wireguard_message_type(data) {
        Some(kind) => kind == WG_MESSAGE_DATA,
        None => false,
    }
}

/// Whether a datagram is not transport data with a counter at the very end of its range.
pub fn has_counter_in_range(datagram: &[u8]) -> (in_range: bool)
    ensures
        in_range == counter_in_range(datagram@),
{
    if datagram.len() < 32 || !holds_data(datagram) {
        return true;
    }
    let counter: u64 = datagram[8] as u64 + 0x100 * (datagram[9] as u64) + 0x1_0000 * (
    datagram[10] as u64) + 0x100_0000 * (datagram[11] as u64) + 0x1_0000_0000 * (
    datagram[12] as u64) + 0x100_0000_0000 * (datagram[13] as u64) + 0x1_0000_0000_0000 * (
    datagram[14] as u64) + 0x100_0000_0000_0000 * (datagram[15] as u64);
    counter <= 0xffff_ffff_ffff_ffff - COUNTER_WINDOW
}

/// Whether there may be more to send: whether something was just sent.
pub fn should_flush_again(outcome: &TunnOutcome) -> (again: bool)
    ensures
        again == (outcome is WriteToNetwork),
{
    match outcome {
        TunnOutcome::WriteToNetwork(_) => true,
        _ => false,
    }
}

/// The queue of a state is not overfull, and no packet in it is larger than an IP packet can be.
pub open spec fn queue_in_bounds(state: TunnState) -> bool {
    &&& state.queue.len() <= MAX_QUEUE_DEPTH
    &&& forall|i: int|
        0 <= i < state.queue.len() ==> (#[trigger] state.queue[i]).len() <= MAX_IP_PACKET_SIZE
}

/// However a connection is used, its queue is never overfull, and no packet in it is larger than an
/// IP packet can be.
pub proof fn law_queue_stays_in_bounds(
    state: TunnState,
    packet: Seq<u8>,
    datagram: Seq<u8>,
    payload: Option<Seq<u8>>,
    cookie_taken: bool,
    verdicts: spec_fn(u64) -> HandshakeVerdict,
    timers: TimerVerdict,
    outcome: TunnOutcome,
    after: TunnState,
)
    requires
        queue_in_bounds(state),
        packet.len() <= MAX_IP_PACKET_SIZE,
    ensures
        queue_in_bounds(after_encapsulation(state, packet)),
        queue_in_bounds(after_flush(state)),
        decapsulation(state, datagram, payload, cookie_taken, verdicts, outcome, after)
            ==> queue_in_bounds(after),
        queue_in_bounds(after_timers(state, timers)),
{
}

/// A packet that finds no session, and room in the queue, is not lost: it waits behind the packets
/// that came before it.
pub proof fn law_packet_without_session_waits(state: TunnState, packet: Seq<u8>)
    requires
        !state.session,
        state.queue.len() < MAX_QUEUE_DEPTH,
    ensures
        after_encapsulation(state, packet).queue == state.queue.push(packet),
        after_encapsulation(state, packet).queue.last() == packet,
        after_encapsulation(state, packet).handshaking,
{
}

/// With a session, the packets that waited are sent in the order in which they came.
pub proof fn law_waiting_packets_are_sent_in_order(
    state: TunnState,
    message: Seq<u8>,
    outcome: TunnOutcome,
)
    requires
        state.session,
        state.queue.len() > 0,
        flushing(state, message, outcome),
    ensures
        outcome matches TunnOutcome::WriteToNetwork(data) && data@ == message,
        message_counter(message) == state.sent,
        after_flush(state) == (TunnState {
            queue: state.queue.drop_first(),
            sent: next_sent(state),
            ..state
        }),
{
}

/// How many more messages flushing may give: the packets that wait, where there is a session, and
/// otherwise one handshake initiation.
pub open spec fn flushes_left(state: TunnState) -> nat {
    if state.session {
        state.queue.len()
    } else if state.queue.len() > 0 && !state.handshaking {
        1
    } else {
        0
    }
}

/// Flushing for as long as there is something to send comes to an end, and nothing that waits is
/// lost before it is sent.
pub proof fn law_flushing_ends(state: TunnState, message: Seq<u8>, outcome: TunnOutcome)
    requires
        queue_in_bounds(state),
        flushing(state, message, outcome),
    ensures
        outcome is WriteToNetwork ==> flushes_left(after_flush(state)) < flushes_left(state),
        !(outcome is WriteToNetwork) ==> outcome is Done && flushes_left(state) == 0,
        !state.session ==> after_flush(state).queue.to_multiset() == state.queue.to_multiset(),
{
    let queue = state.queue;
    if queue.len() > 0 {
        let first = seq![queue.first()];
        assert(queue =~= first + queue.drop_first());
        assert(queue.drop_first().push(queue.first()) =~= queue.drop_first() + first);
        vstd::seq_lib::lemma_multiset_commutative(first, queue.drop_first());
        vstd::seq_lib::lemma_multiset_commutative(queue.drop_first(), first);
        assert(queue.to_multiset() =~= (queue.drop_first() + first).to_multiset());
    }
}

/// The type of a message is read from its first four bytes, the least significant one first.
pub proof fn law_message_type_is_little_endian(data: Seq<u8>, kind: u32)
    ensures
        message_type(data) == Some(kind) <==> 4 <= data.len() && data[0] + 256 * (data[1] + 256 * (
        data[2] + 256 * data[3])) == kind,
        message_type(data) is None <==> data.len() < 4,
{
}

/// Transport data is taken in with every counter up to the last that leaves room for the window
/// above it, and no datagram but transport data with a counter beyond is kept out: one whose
/// counter has all bits set but for its two lowest bytes, which make a number above 64511.
pub proof fn law_counters_are_in_range(datagram: Seq<u8>)
    ensures
        datagram.len() < 32 ==> counter_in_range(datagram),
        32 <= datagram.len() && !(datagram[0] == 4 && datagram[1] == 0 && datagram[2] == 0
            && datagram[3] == 0) ==> counter_in_range(datagram),
        32 <= datagram.len() && datagram[0] == 4 && datagram[1] == 0 && datagram[2] == 0
            && datagram[3] == 0 ==> (counter_in_range(datagram) <==> !(datagram[8] + 256
            * datagram[9] > 64511 && datagram[10] == 255 && datagram[11] == 255 && datagram[12]
            == 255 && datagram[13] == 255 && datagram[14] == 255 && datagram[15] == 255)),
{
}

/// Counters that count up are in range until only 1024 of them are left.
pub proof fn law_counter_limit(datagram: Seq<u8>)
    requires
        16 <= datagram.len(),
    ensures
        message_counter(datagram) == datagram[8] + 256 * (datagram[9] + 256 * (datagram[10] + 256
            * (datagram[11] + 256 * (datagram[12] + 256 * (datagram[13] + 256 * (datagram[14] + 256
            * datagram[15])))))),
        message_counter(datagram) <= 0xffff_ffff_ffff_ffff - 1024 ==> counter_in_range(datagram),
{
}

/// A handshake that is begun goes out as an initiation: 148 bytes, the type, the number of the
/// handshake and the index of the connection. Where one is under way and another is not forced,
/// nothing does.
pub proof fn law_handshake_initiation_goes_out(state: TunnState, force: bool, outcome: TunnOutcome)
    requires
        handshake_start(state, force, outcome),
    ensures
        state.handshaking && !force ==> outcome is Done && after_handshake(state, force) == state,
        !state.handshaking || force ==> (outcome matches TunnOutcome::WriteToNetwork(data) && {
            &&& data@.len() == 148
            &&& data@[0] == 1 && data@[1] == 0 && data@[2] == 0 && data@[3] == 0
            &&& data@[4] == (state.handshakes + 1) % 256
            &&& data@[5] + 256 * (data@[6] + 256 * data@[7]) == state.setup.index
        }),
        !state.handshaking || force ==> after_handshake(state, force) == (TunnState {
            handshaking: true,
            handshakes: ((state.handshakes + 1) % 256) as u8,
            ..state
        }),
{
    if let TunnOutcome::WriteToNetwork(data) = outcome {
        law_message_type_is_little_endian(data@, 1);
    }
}

} // verus!
