//! A tunnel at work: what becomes of packets, datagrams and timers.

use boringtun::noise::Tunn;
use vstd::prelude::*;

use crate::clock::{elapsed_millis_since, elapsed_since};
use crate::error::TunnelError;
use crate::filter::{is_quiet, should_drop_quiet_tun_packet};
use crate::mss::{clamp_tcp_mss, clamped, law_clamp_keeps_the_rest};
use crate::settings::{settings_of, PeerAddress, SettingsView, TunnelSettings};
use crate::summary::{summarize_ip_packet, summary};
use crate::timer::{
    any_due, deadline_after, increasing, is_earliest, law_earlier_timer_wakes,
    law_second_timer_wakes, law_timer_is_set_among_others, law_timer_is_waited_for,
    law_timers_are_kept, law_two_timers_are_set, timeout_ms, with_timer, without_due, TimerState,
    MAX_DEADLINES,
};
use crate::wireguard::{
    after_encapsulation, after_flush, after_handshake, bytes_in, counted_in, counter_in_range,
    counters_of, decapsulation, encapsulation, flush_accounted, flushing, handshake_age,
    handshake_answer, handshake_start, handshake_verdict, has_counter_in_range,
    is_handshake_initiation, law_counter_limit, law_message_type_is_little_endian, message_type,
    new_tunn, nothing_counted, opened, packet_accounted, queue_in_bounds, sealed,
    should_flush_again, takes_cookie, timer_verdict, timers_accounted, timers_served, tunn_counters,
    tunn_decapsulate, tunn_encapsulate, tunn_handshake, tunn_state, tunn_stats, tunn_update_timers,
    wireguard_message_type, SetupView, TunnCounters, TunnOutcome, TunnSetup, TunnState, TunnStats,
    MAX_IP_PACKET_SIZE, WG_BUFFER_SIZE, WG_MESSAGE_DATA, WG_MESSAGE_HANDSHAKE_INITIATION,
};

verus! {

/// The number that the session indices of a tunnel are made from.
pub const HANDSHAKE_INDEX: u32 = 1;

/// How long after a handshake initiation the timers are looked at.
pub const REKEY_TIMEOUT_MS: u64 = 5_000;

/// How long after data came in the timers are looked at.
pub const KEEPALIVE_TIMEOUT_MS: u64 = 10_000;

/// How long after data went out the timers are looked at.
pub const DATA_SILENCE_REKEY_MS: u64 = 15_000;

/// A counter after one more event. It starts over when it is full.
pub open spec fn counted(count: u64) -> u64 {
    if count == u64::MAX {
        0
    } else {
        (count + 1) as u64
    }
}

/// One where something holds, and else zero.
pub open spec fn once(holds: bool) -> nat {
    if holds {
        1
    } else {
        0
    }
}

/// Counts how often the workers of all tunnels were woken.
pub struct TickCounter {
    count: u64,
}

impl View for TickCounter {
    type V = u64;

    closed spec fn view(&self) -> u64 {
        self.count
    }
}

impl TickCounter {
    /// A counter at zero.
    pub fn new() -> (ticks: TickCounter)
        ensures
            ticks@ == 0,
    {
        TickCounter { count: 0 }
    }

    /// Counts one more.
    fn bump(&mut self)
        ensures
            final(self)@ == counted(old(self)@),
    {
        self.count = self.count.wrapping_add(1);
    }
}

/// Reads how often the workers of all tunnels were woken.
pub fn get_tick_count(ticks: &TickCounter) -> (count: u64)
    ensures
        count == ticks@,
{
    ticks.count
}

/// What comes of a packet that is sent through a connection, and how that leaves it.
pub open spec fn packet_sent(
    tunn: Tunn,
    packet: Seq<u8>,
    outcome: TunnOutcome,
    left: Tunn,
) -> bool {
    &&& encapsulation(tunn_state(tunn), packet, sealed(tunn, packet), outcome)
    &&& tunn_state(left) == after_encapsulation(tunn_state(tunn), packet)
    &&& packet_accounted(tunn, packet.len(), left)
}

/// What comes of sending the packet that has waited longest for a connection, and how that leaves
/// it.
pub open spec fn flush(tunn: Tunn, outcome: TunnOutcome, left: Tunn) -> bool {
    &&& flushing(tunn_state(tunn), sealed(tunn, tunn_state(tunn).queue.first()), outcome)
    &&& tunn_state(left) == after_flush(tunn_state(tunn))
    &&& flush_accounted(tunn, left)
}

/// What may come of looking after the timers of a connection, and how that leaves it.
pub open spec fn timers_updated(tunn: Tunn, outcome: TunnOutcome, left: Tunn) -> bool {
    &&& exists|now: u128, later: u128|
        timers_served(
            tunn_state(tunn),
            #[trigger] timer_verdict(tunn, now, later),
            sealed(tunn, Seq::empty()),
            outcome,
            tunn_state(left),
        )
    &&& timers_accounted(tunn_counters(tunn), tunn_counters(left))
}

/// What may come of a datagram, and how it leaves a connection. An empty one asks for the packet
/// that has waited longest, and one with a counter at the very end of its range is rejected unread.
pub open spec fn datagram_taken(
    tunn: Tunn,
    source: PeerAddress,
    datagram: Seq<u8>,
    outcome: TunnOutcome,
    left: Tunn,
) -> bool {
    if datagram.len() == 0 {
        flush(tunn, outcome, left)
    } else if !counter_in_range(datagram) {
        outcome is Rejected && left == tunn
    } else {
        &&& decapsulation(
            tunn_state(tunn),
            datagram,
            opened(tunn, datagram),
            takes_cookie(tunn, datagram),
            |period: u64| handshake_verdict(tunn, source, datagram, period),
            outcome,
            tunn_state(left),
        )
        &&& counted_in(tunn_counters(tunn), outcome, tunn_counters(left))
    }
}

/// Something to do with a packet.
pub enum PacketAction {
    /// Nothing: the connection is at rest.
    Idle,
    /// Nothing.
    Discard,
    /// Send a message to the peer.
    SendToPeer(Vec<u8>),
    /// Write a packet to the TUN device.
    WriteToTun(Vec<u8>),
}

/// What to do about an outcome. Packets can be written to the TUN device only where it is at hand.
pub open spec fn action_for(outcome: TunnOutcome, tun_at_hand: bool) -> PacketAction {
    match outcome {
        TunnOutcome::Done => PacketAction::Idle,
        TunnOutcome::Rejected => PacketAction::Discard,
        TunnOutcome::WriteToNetwork(data) => PacketAction::SendToPeer(data),
        TunnOutcome::WriteToTunnelV4(data) | TunnOutcome::WriteToTunnelV6(data) => if tun_at_hand {
            PacketAction::WriteToTun(data)
        } else {
            PacketAction::Discard
        },
    }
}

/// Decides what to do about an outcome.
pub fn handle_tunn_result(outcome: TunnOutcome, tun_at_hand: bool) -> (action: PacketAction)
    ensures
        action == action_for(outcome, tun_at_hand),
{
    match outcome {
        TunnOutcome::Done => PacketAction::Idle,
        TunnOutcome::Rejected => PacketAction::Discard,
        TunnOutcome::WriteToNetwork(data) => PacketAction::SendToPeer(data),
        TunnOutcome::WriteToTunnelV4(data) | TunnOutcome::WriteToTunnelV6(data) => {
            if tun_at_hand {
                PacketAction::WriteToTun(data)
            } else {
                PacketAction::Discard
            }
        },
    }
}

/// How long after a message went out the timers are looked at, where they are on its account.
pub open spec fn timer_delay(data: Seq<u8>) -> Option<u64> {
    if message_type(data) == Some(WG_MESSAGE_HANDSHAKE_INITIATION) {
        Some(REKEY_TIMEOUT_MS)
    } else if message_type(data) == Some(WG_MESSAGE_DATA) {
        Some(DATA_SILENCE_REKEY_MS)
    } else {
        None
    }
}

/// Decides how long after a message the timers are looked at.
pub fn timer_delay_for_network_write(data: &[u8]) -> (delay_ms: Option<u64>)
    ensures
        delay_ms == timer_delay(data@),
        delay_ms == if 4 <= data@.len() && data@[0] == 1 && data@[1] == 0 && data@[2] == 0
            && data@[3] == 0 {
            Some(5_000u64)
        } else if 4 <= data@.len() && data@[0] == 4 && data@[1] == 0 && data@[2] == 0 && data@[3]
            == 0 {
            Some(15_000u64)
        } else {
            None
        },
{
    match wireguard_message_type(data) {
        Some(kind) => {
            if kind == WG_MESSAGE_HANDSHAKE_INITIATION {
                Some(REKEY_TIMEOUT_MS)
            } else if kind == WG_MESSAGE_DATA {
                Some(DATA_SILENCE_REKEY_MS)
            } else {
                None
            }
        },
        None => None,
    }
}

/// The last packets that went through the TUN device, in words.
struct PacketSummaries {
    tun_read_last: String,
    tun_write_last: String,
}

/// A tunnel: the WireGuard connection, and what is known and counted about it.
pub struct TunnelRuntime {
    tunn: Tunn,
    socket_fd: i32,
    peer: PeerAddress,
    mtu: usize,
    persistent_keepalive_ms: u64,
    running: bool,
    last_network_send_ms: u64,
    tun_read_packets: u64,
    tun_dropped_packets: u64,
    udp_read_packets: u64,
    tun_write_packets: u64,
    packet_summaries: PacketSummaries,
    tick_count: u64,
    timer_state: TimerState,
}

/// The contents of a [`TunnelRuntime`].
#[verifier::ext_equal]
pub ghost struct RuntimeView {
    /// The state of the connection.
    pub tunn: TunnState,
    pub socket_fd: i32,
    pub peer: PeerAddress,
    pub mtu: nat,
    pub persistent_keepalive_ms: u64,
    pub running: bool,
    /// When the last message was sent; zero where none was.
    pub last_network_send_ms: u64,
    pub tun_read_packets: u64,
    pub tun_dropped_packets: u64,
    pub udp_read_packets: u64,
    pub tun_write_packets: u64,
    pub tun_read_last: Seq<char>,
    pub tun_write_last: Seq<char>,
    pub tick_count: u64,
    /// The pending deadlines, earliest first.
    pub deadlines: Seq<u64>,
}

impl TunnelRuntime {
    /// The connection.
    pub closed spec fn connection(self) -> Tunn {
        self.tunn
    }

    /// What is known and counted about the tunnel.
    pub closed spec fn record(self) -> RuntimeView {
        RuntimeView {
            tunn: tunn_state(self.tunn),
            socket_fd: self.socket_fd,
            peer: self.peer,
            mtu: self.mtu as nat,
            persistent_keepalive_ms: self.persistent_keepalive_ms,
            running: self.running,
            last_network_send_ms: self.last_network_send_ms,
            tun_read_packets: self.tun_read_packets,
            tun_dropped_packets: self.tun_dropped_packets,
            udp_read_packets: self.udp_read_packets,
            tun_write_packets: self.tun_write_packets,
            tun_read_last: self.packet_summaries.tun_read_last@,
            tun_write_last: self.packet_summaries.tun_write_last@,
            tick_count: self.tick_count,
            deadlines: self.timer_state@,
        }
    }
}

impl View for TunnelRuntime {
    type V = RuntimeView;

    open spec fn view(&self) -> RuntimeView {
        RuntimeView { tunn: tunn_state(self.connection()), ..self.record() }
    }
}

/// A tunnel that was just made.
pub open spec fn fresh(settings: SettingsView, peer: PeerAddress, socket_fd: i32) -> RuntimeView {
    RuntimeView {
        tunn: TunnState {
            setup: SetupView {
                private_key: settings.private_key,
                peer_public_key: settings.peer_public_key,
                preshared_key: settings.preshared_key,
                keepalive: match settings.keepalive {
                    Some(seconds) => seconds as nat,
                    None => 0,
                },
                index: HANDSHAKE_INDEX,
            },
            queue: Seq::empty(),
            session: false,
            handshaking: false,
            sent: 0,
            handshakes: 0,
        },
        socket_fd,
        peer,
        mtu: settings.mtu,
        persistent_keepalive_ms: settings.persistent_keepalive_ms as u64,
        running: false,
        last_network_send_ms: 0,
        tun_read_packets: 0,
        tun_dropped_packets: 0,
        udp_read_packets: 0,
        tun_write_packets: 0,
        tun_read_last: Seq::empty(),
        tun_write_last: Seq::empty(),
        tick_count: 0,
        deadlines: Seq::empty(),
    }
}

impl RuntimeView {
    /// What waits for a session is within bounds.
    pub open spec fn wf(self) -> bool {
        queue_in_bounds(self.tunn)
    }

    /// After a timer was set.
    pub open spec fn timer_set(self, delay_ms: u64, now_ms: u64) -> RuntimeView {
        RuntimeView { deadlines: with_timer(self.deadlines, delay_ms, now_ms), ..self }
    }

    /// After a timer was set for the persistent keepalive, where there is one.
    pub open spec fn keepalive_set(self, now_ms: u64) -> RuntimeView {
        if self.persistent_keepalive_ms > 0 {
            self.timer_set(self.persistent_keepalive_ms, now_ms)
        } else {
            self
        }
    }

    /// Whether a timer for the persistent keepalive is set and goes off first.
    pub open spec fn keepalive_is_earliest(self, now_ms: u64) -> bool {
        self.persistent_keepalive_ms > 0 && is_earliest(
            self.deadlines,
            self.persistent_keepalive_ms,
            now_ms,
        )
    }

    /// After a packet was read from the TUN device: it is noted, and dropped where it is quiet, or
    /// otherwise clamped and sent or kept.
    pub open spec fn packet_read(self, packet: Seq<u8>) -> RuntimeView {
        if packet.len() == 0 {
            self
        } else {
            let noted = RuntimeView {
                tun_read_packets: counted(self.tun_read_packets),
                tun_read_last: summary(packet),
                ..self
            };
            if is_quiet(packet) {
                RuntimeView { tun_dropped_packets: counted(self.tun_dropped_packets), ..noted }
            } else {
                RuntimeView {
                    tunn: after_encapsulation(self.tunn, clamped(packet, self.mtu)),
                    ..noted
                }
            }
        }
    }

    /// After a handshake was to begin.
    pub open spec fn handshake_begun(self, force: bool) -> RuntimeView {
        RuntimeView { tunn: after_handshake(self.tunn, force), ..self }
    }

    /// After a packet was written to the TUN device.
    pub open spec fn packet_written(self, packet: Seq<u8>) -> RuntimeView {
        RuntimeView {
            tun_write_packets: counted(self.tun_write_packets),
            tun_write_last: summary(packet),
            ..self
        }
    }

    /// After a timer was set on account of a message that was sent, where one is.
    pub open spec fn send_timer_set(self, data: Seq<u8>, now_ms: u64) -> RuntimeView {
        match timer_delay(data) {
            Some(delay_ms) => self.timer_set(delay_ms, now_ms),
            None => self,
        }
    }

    /// After a message was sent to the peer.
    pub open spec fn message_sent(self, data: Seq<u8>, now_ms: u64) -> RuntimeView {
        RuntimeView { last_network_send_ms: now_ms, ..self }.send_timer_set(
            data,
            now_ms,
        ).keepalive_set(now_ms)
    }

    /// How many of the timers that are set when a message is sent to the peer go off first.
    pub open spec fn send_wakes(self, data: Seq<u8>, now_ms: u64) -> nat {
        let timer_wakes = timer_delay(data) matches Some(delay_ms) && is_earliest(
            self.deadlines,
            delay_ms,
            now_ms,
        );
        once(timer_wakes) + once(self.send_timer_set(data, now_ms).keepalive_is_earliest(now_ms))
    }

    /// After an action was tried.
    pub open spec fn completed(
        self,
        action: PacketAction,
        performed: bool,
        now_ms: u64,
    ) -> RuntimeView {
        match action {
            PacketAction::SendToPeer(data) => if performed {
                self.message_sent(data@, now_ms)
            } else {
                self
            },
            PacketAction::WriteToTun(packet) => if performed {
                self.packet_written(packet@)
            } else {
                self
            },
            _ => self,
        }
    }

    /// How many of the timers that are set after an action was tried go off first.
    pub open spec fn completion_wakes(
        self,
        action: PacketAction,
        performed: bool,
        now_ms: u64,
    ) -> nat {
        match action {
            PacketAction::SendToPeer(data) => if performed {
                self.send_wakes(data@, now_ms)
            } else {
                0
            },
            _ => 0,
        }
    }

    /// After an action was tried that a timer had asked for. A connection at rest gets a new timer
    /// for the persistent keepalive.
    pub open spec fn timer_completed(
        self,
        action: PacketAction,
        performed: bool,
        now_ms: u64,
    ) -> RuntimeView {
        if action is Idle {
            self.keepalive_set(now_ms)
        } else {
            self.completed(action, performed, now_ms)
        }
    }

    /// How many of the timers that are set after an action was tried that a timer had asked for go
    /// off first.
    pub open spec fn timer_completion_wakes(
        self,
        action: PacketAction,
        performed: bool,
        now_ms: u64,
    ) -> nat {
        if action is Idle {
            once(self.keepalive_is_earliest(now_ms))
        } else {
            self.completion_wakes(action, performed, now_ms)
        }
    }
}

/// What is known and counted about a tunnel.
pub struct NativeTunnelStats {
    pub running: bool,
    pub tx_bytes: usize,
    pub rx_bytes: usize,
    /// How long ago the last handshake was completed, in seconds and nanoseconds.
    pub latest_handshake: Option<(u64, u32)>,
    /// How long ago the last message was sent, in milliseconds.
    pub latest_packet_sent_millis: Option<u64>,
    /// The estimated share of packets lost, as the bits of a single-precision number.
    pub loss_bits: u32,
    pub rtt_millis: Option<u32>,
    pub tun_read_packets: u64,
    pub tun_dropped_packets: u64,
    pub udp_read_packets: u64,
    pub tun_write_packets: u64,
    pub tun_read_last: String,
    pub tun_write_last: String,
}

/// The statistics tell what a tunnel counts itself, as of `now_ms`.
pub open spec fn tells_of_runtime(
    stats: NativeTunnelStats,
    runtime: RuntimeView,
    now_ms: u64,
) -> bool {
    &&& stats.running == runtime.running
    &&& stats.latest_packet_sent_millis == elapsed_since(runtime.last_network_send_ms, now_ms)
    &&& stats.tun_read_packets == runtime.tun_read_packets
    &&& stats.tun_dropped_packets == runtime.tun_dropped_packets
    &&& stats.udp_read_packets == runtime.udp_read_packets
    &&& stats.tun_write_packets == runtime.tun_write_packets
    &&& stats.tun_read_last@ == runtime.tun_read_last
    &&& stats.tun_write_last@ == runtime.tun_write_last
}

/// The statistics tell what the connection has counted.
pub open spec fn tells_of_tunn(stats: NativeTunnelStats, counters: TunnCounters) -> bool {
    &&& stats.tx_bytes == counters.tx_bytes
    &&& stats.rx_bytes == counters.rx_bytes
    &&& stats.loss_bits == counters.loss_bits
    &&& stats.rtt_millis == counters.rtt_millis
}

impl TunnelRuntime {
    /// Puts together what the tunnel and its connection count.
    pub fn collect_stats(&self, tunn: TunnStats, now_ms: u64) -> (stats: NativeTunnelStats)
        ensures
            tells_of_runtime(stats, self@, now_ms),
            tells_of_tunn(stats, counters_of(tunn)),
            stats.latest_handshake == tunn.latest_handshake,
            stats.running == self@.running,
            stats.tx_bytes == tunn.tx_bytes,
            stats.rx_bytes == tunn.rx_bytes,
            stats.loss_bits == tunn.loss_bits,
            stats.rtt_millis == tunn.rtt_millis,
            stats.tun_read_packets == self@.tun_read_packets,
            stats.tun_dropped_packets == self@.tun_dropped_packets,
            stats.udp_read_packets == self@.udp_read_packets,
            stats.tun_write_packets == self@.tun_write_packets,
            stats.tun_read_last@ == self@.tun_read_last,
            stats.tun_write_last@ == self@.tun_write_last,
            0 < self@.last_network_send_ms <= now_ms ==> (
            stats.latest_packet_sent_millis matches Some(millis) && millis == now_ms
                - self@.last_network_send_ms),
            self@.last_network_send_ms == 0 ==> stats.latest_packet_sent_millis is None,
    {
        NativeTunnelStats {
            running: self.running,
            tx_bytes: tunn.tx_bytes,
            rx_bytes: tunn.rx_bytes,
            latest_handshake: tunn.latest_handshake,
            latest_packet_sent_millis: elapsed_millis_since(self.last_network_send_ms, now_ms),
            loss_bits: tunn.loss_bits,
            rtt_millis: tunn.rtt_millis,
            tun_read_packets: self.tun_read_packets,
            tun_dropped_packets: self.tun_dropped_packets,
            udp_read_packets: self.udp_read_packets,
            tun_write_packets: self.tun_write_packets,
            tun_read_last: self.packet_summaries.tun_read_last.clone(),
            tun_write_last: self.packet_summaries.tun_write_last.clone(),
        }
    }

    /// Whether the tunnel is running.
    pub fn is_running(&self) -> (running: bool)
        ensures
            running == self@.running,
    {
        self.running
    }

    /// Marks the tunnel as running, and tells whether it was already.
    pub fn mark_running(&mut self) -> (was_running: bool)
        ensures
            final(self).connection() == old(self).connection(),
            final(self)@ == (RuntimeView { running: true, ..old(self)@ }),
            was_running == old(self)@.running,
    {
        let was_running: bool = self.running;
        self.running = true;
        was_running
    }

    /// Marks the tunnel as stopped.
    pub fn stop(&mut self)
        ensures
            final(self).connection() == old(self).connection(),
            final(self)@ == (RuntimeView { running: false, ..old(self)@ }),
    {
        self.running = false;
    }

    /// Makes a tunnel to a peer that is reached through a socket.
    pub fn new(settings: &TunnelSettings, peer: PeerAddress, socket_fd: i32) -> (runtime:
        TunnelRuntime)
        ensures
            runtime@.wf(),
            runtime@ == fresh(settings@, peer, socket_fd),
            tunn_counters(runtime.connection()) == nothing_counted(),
    {
        let setup = TunnSetup {
            private_key: settings.private_key,
            peer_public_key: settings.peer_public_key,
            preshared_key: settings.preshared_key,
            keepalive: settings.keepalive,
            index: HANDSHAKE_INDEX,
        };
        TunnelRuntime {
            tunn: new_tunn(&setup),
            socket_fd,
            peer,
            mtu: settings.mtu,
            persistent_keepalive_ms: settings.persistent_keepalive_ms,
            running: false,
            last_network_send_ms: 0,
            tun_read_packets: 0,
            tun_dropped_packets: 0,
            udp_read_packets: 0,
            tun_write_packets: 0,
            packet_summaries: PacketSummaries {
                tun_read_last: String::new(),
                tun_write_last: String::new(),
            },
            tick_count: 0,
            timer_state: TimerState::new(),
        }
    }

    /// Counts that a worker of the tunnel was woken.
    pub fn bump_tick(&mut self, ticks: &mut TickCounter)
        ensures
            final(self).connection() == old(self).connection(),
            final(self)@ == (RuntimeView {
                tick_count: counted(old(self)@.tick_count),
                ..old(self)@
            }),
            final(ticks)@ == counted(old(ticks)@),
    {
        self.tick_count = self.tick_count.wrapping_add(1);
        ticks.bump();
    }

    /// Notes what the last packet on one side of the TUN device was.
    fn set_packet_summary(&mut self, packet: &[u8], read_side: bool)
        ensures
            final(self).connection() == old(self).connection(),
            final(self)@ == if read_side {
                (RuntimeView { tun_read_last: summary(packet@), ..old(self)@ })
            } else {
                (RuntimeView { tun_write_last: summary(packet@), ..old(self)@ })
            },
    {
        let text = summarize_ip_packet(packet);
        if read_side {
            self.packet_summaries.tun_read_last = text;
        } else {
            self.packet_summaries.tun_write_last = text;
        }
    }

    /// Sets a timer, and tells whether who waits for the earliest deadline must be woken.
    pub fn schedule_timer_after(&mut self, delay_ms: u64, now_ms: u64) -> (wake: bool)
        ensures
            final(self).connection() == old(self).connection(),
            final(self)@ == old(self)@.timer_set(delay_ms, now_ms),
            wake == is_earliest(old(self)@.deadlines, delay_ms, now_ms),
    {
        self.timer_state.schedule_timer_after(delay_ms, now_ms)
    }

    /// Sets a timer for the persistent keepalive, and tells whether who waits for the earliest
    /// deadline must be woken.
    pub fn schedule_persistent_keepalive(&mut self, now_ms: u64) -> (wake: bool)
        ensures
            final(self).connection() == old(self).connection(),
            final(self)@ == old(self)@.keepalive_set(now_ms),
            wake == old(self)@.keepalive_is_earliest(now_ms),
    {
        if self.persistent_keepalive_ms > 0 {
            let delay_ms: u64 = self.persistent_keepalive_ms;
            self.schedule_timer_after(delay_ms, now_ms)
        } else {
            false
        }
    }

    /// How long to wait for the earliest deadline, as `poll` takes it.
    pub fn next_timer_timeout_ms(&self, now_ms: u64) -> (timeout: i32)
        ensures
            timeout == timeout_ms(self@.deadlines, now_ms),
            increasing(self@.deadlines),
            self@.deadlines.len() <= MAX_DEADLINES,
    {
        self.timer_state.next_timer_timeout_ms(now_ms)
    }

    /// Takes in a packet that was read from the TUN device: notes it, drops it where it is quiet,
    /// and otherwise clamps its segment size and encapsulates it. Reading nothing changes nothing.
    pub fn read_tun_packet(&mut self, packet: &mut [u8], out: &mut [u8]) -> (action: PacketAction)
        requires
            old(packet)@.len() <= MAX_IP_PACKET_SIZE,
            WG_BUFFER_SIZE <= old(out)@.len(),
        ensures
            old(self)@.wf() ==> final(self)@.wf(),
            final(self)@ == old(self)@.packet_read(old(packet)@),
            final(out)@.len() == old(out)@.len(),
            is_quiet(old(packet)@) ==> {
                &&& action is Discard
                &&& final(packet)@ == old(packet)@
                &&& final(self).connection() == old(self).connection()
            },
            !is_quiet(old(packet)@) ==> {
                &&& final(packet)@ == clamped(old(packet)@, old(self)@.mtu)
                &&& exists|outcome: TunnOutcome| #[trigger]
                    packet_sent(
                        old(self).connection(),
                        final(packet)@,
                        outcome,
                        final(self).connection(),
                    ) && action == action_for(outcome, false)
            },
    {
        if packet.is_empty() {
            return PacketAction::Discard;
        }
        self.tun_read_packets = self.tun_read_packets.wrapping_add(1);
        self.set_packet_summary(packet, true);
        if should_drop_quiet_tun_packet(packet) {
            self.tun_dropped_packets = self.tun_dropped_packets.wrapping_add(1);
            return PacketAction::Discard;
        }
        let _lowered: bool = clamp_tcp_mss(packet, self.mtu);
        proof {
            law_clamp_keeps_the_rest(old(packet)@, self.mtu as nat);
        }
        let outcome = tunn_encapsulate(&mut self.tunn, packet, out);
        assert(packet_sent(old(self).connection(), packet@, outcome, self.tunn));
        handle_tunn_result(outcome, false)
    }

    /// Takes in a datagram. One that is not from the peer is ignored, and transport data with a
    /// counter at the very end of its range, which no session reaches, is discarded.
    pub fn receive_datagram(
        &mut self,
        source: PeerAddress,
        datagram: &[u8],
        out: &mut [u8],
    ) -> (action: Option<PacketAction>)
        requires
            old(self)@.wf(),
            WG_BUFFER_SIZE <= old(out)@.len(),
            datagram@.len() <= old(out)@.len(),
        ensures
            final(self)@.wf(),
            final(out)@.len() == old(out)@.len(),
            action is None <==> source != old(self)@.peer,
            !counter_in_range(datagram@) ==> final(self).connection() == old(self).connection(),
            action is None ==> final(self)@ == old(self)@ && final(self).connection() == old(
                self,
            ).connection(),
            action matches Some(action) ==> {
                &&& final(self)@ == (RuntimeView {
                    udp_read_packets: counted(old(self)@.udp_read_packets),
                    tunn: final(self)@.tunn,
                    ..old(self)@
                })
                &&& exists|outcome: TunnOutcome| #[trigger]
                    datagram_taken(
                        old(self).connection(),
                        source,
                        datagram@,
                        outcome,
                        final(self).connection(),
                    ) && action == action_for(outcome, true)
            },
    {
        if source != self.peer {
            return None;
        }
        self.udp_read_packets = self.udp_read_packets.wrapping_add(1);
        if !has_counter_in_range(datagram) {
            let outcome = TunnOutcome::Rejected;
            assert(datagram_taken(
                old(self).connection(),
                source,
                datagram@,
                outcome,
                self.tunn,
            ));
            return Some(handle_tunn_result(outcome, true));
        }
        let outcome = tunn_decapsulate(&mut self.tunn, source, datagram, out);
        assert(datagram_taken(
            old(self).connection(),
            source,
            datagram@,
            outcome,
            self.tunn,
        ));
        Some(handle_tunn_result(outcome, true))
    }

    /// Sends a packet that had to wait for a session, and tells whether there may be another one.
    pub fn flush_queued(&mut self, out: &mut [u8]) -> (flushed: (PacketAction, bool))
        requires
            old(self)@.wf(),
            WG_BUFFER_SIZE <= old(out)@.len(),
        ensures
            final(self)@.wf(),
            final(self)@ == (RuntimeView { tunn: after_flush(old(self)@.tunn), ..old(self)@ }),
            final(out)@.len() == old(out)@.len(),
            exists|outcome: TunnOutcome| #[trigger]
                flush(old(self).connection(), outcome, final(self).connection()) && flushed.0
                    == action_for(outcome, true) && flushed.1 == (outcome is WriteToNetwork),
    {
        let nothing: Vec<u8> = Vec::new();
        let outcome = tunn_decapsulate(&mut self.tunn, self.peer, nothing.as_slice(), out);
        assert(flush(old(self).connection(), outcome, self.tunn));
        let again: bool = should_flush_again(&outcome);
        (handle_tunn_result(outcome, true), again)
    }

    /// Looks after the timers on account of a deadline that has passed, where one has.
    pub fn service_timer(&mut self, now_ms: u64, out: &mut [u8]) -> (action: Option<PacketAction>)
        requires
            WG_BUFFER_SIZE <= old(out)@.len(),
        ensures
            old(self)@.wf() ==> final(self)@.wf(),
            final(self)@ == (RuntimeView {
                deadlines: without_due(old(self)@.deadlines, now_ms),
                tunn: final(self)@.tunn,
                ..old(self)@
            }),
            final(out)@.len() == old(out)@.len(),
            action is Some <==> any_due(old(self)@.deadlines, now_ms),
            action is None ==> final(self).connection() == old(self).connection(),
            action matches Some(action) ==> exists|outcome: TunnOutcome| #[trigger]
                timers_updated(old(self).connection(), outcome, final(self).connection()) && action
                    == action_for(outcome, false),
    {
        if self.timer_state.take_due_timer(now_ms) {
            let outcome = tunn_update_timers(&mut self.tunn, out);
            assert(timers_updated(old(self).connection(), outcome, self.tunn));
            Some(handle_tunn_result(outcome, false))
        } else {
            None
        }
    }

    /// Begins the first handshake.
    pub fn send_initial_handshake(&mut self, out: &mut [u8]) -> (action: PacketAction)
        requires
            WG_BUFFER_SIZE <= old(out)@.len(),
        ensures
            final(self)@ == old(self)@.handshake_begun(false),
            tunn_counters(final(self).connection()) == tunn_counters(old(self).connection()),
            final(out)@.len() == old(out)@.len(),
            exists|outcome: TunnOutcome| #[trigger]
                handshake_start(old(self)@.tunn, false, outcome) && action == action_for(
                    outcome,
                    false,
                ),
    {
        let outcome = tunn_handshake(&mut self.tunn, out, false);
        handle_tunn_result(outcome, false)
    }

    /// Begins a handshake, even where one is under way.
    pub fn force_handshake(&mut self, out: &mut [u8]) -> (action: PacketAction)
        requires
            WG_BUFFER_SIZE <= old(out)@.len(),
        ensures
            final(self)@ == old(self)@.handshake_begun(true),
            tunn_counters(final(self).connection()) == tunn_counters(old(self).connection()),
            final(out)@.len() == old(out)@.len(),
            action matches PacketAction::SendToPeer(data) && is_handshake_initiation(
                data@,
                old(self)@.tunn,
            ),
    {
        let outcome = tunn_handshake(&mut self.tunn, out, true);
        handle_tunn_result(outcome, false)
    }

    /// Takes note of an action that was tried: of a message that was sent and of a packet that was
    /// written. Tells how often who waits for the earliest deadline must be woken.
    pub fn complete(&mut self, action: &PacketAction, performed: bool, now_ms: u64) -> (wakes: u8)
        ensures
            final(self).connection() == old(self).connection(),
            final(self)@ == old(self)@.completed(*action, performed, now_ms),
            wakes == old(self)@.completion_wakes(*action, performed, now_ms),
    {
        if !performed {
            return 0;
        }
        match action {
            PacketAction::SendToPeer(data) => {
                self.last_network_send_ms = now_ms;
                let mut wakes: u8 = 0;
                if let Some(delay_ms) = timer_delay_for_network_write(data.as_slice()) {
                    if self.schedule_timer_after(delay_ms, now_ms) {
                        wakes = 1;
                    }
                }
                if self.schedule_persistent_keepalive(now_ms) {
                    wakes = wakes + 1;
                }
                wakes
            },
            PacketAction::WriteToTun(packet) => {
                self.tun_write_packets = self.tun_write_packets.wrapping_add(1);
                self.set_packet_summary(packet.as_slice(), false);
                0
            },
            _ => 0,
        }
    }

    /// Takes note of an action that was tried because a timer had asked for it. Tells how often who
    /// waits for the earliest deadline must be woken.
    pub fn complete_timer(
        &mut self,
        action: &PacketAction,
        performed: bool,
        now_ms: u64,
    ) -> (wakes: u8)
        ensures
            final(self).connection() == old(self).connection(),
            final(self)@ == old(self)@.timer_completed(*action, performed, now_ms),
            wakes == old(self)@.timer_completion_wakes(*action, performed, now_ms),
    {
        match action {
            PacketAction::Idle => {
                if self.schedule_persistent_keepalive(now_ms) {
                    1
                } else {
                    0
                }
            },
            _ => self.complete(action, performed, now_ms),
        }
    }
}

/// Reads what is known and counted about a tunnel.
pub fn get_tunnel_stats(runtime: &TunnelRuntime, now_ms: u64) -> (stats: NativeTunnelStats)
    ensures
        tells_of_runtime(stats, runtime@, now_ms),
        tells_of_tunn(stats, tunn_counters(runtime.connection())),
        stats.running == runtime@.running,
        stats.tx_bytes == tunn_counters(runtime.connection()).tx_bytes,
        stats.rx_bytes == tunn_counters(runtime.connection()).rx_bytes,
        stats.loss_bits == tunn_counters(runtime.connection()).loss_bits,
        stats.rtt_millis == tunn_counters(runtime.connection()).rtt_millis,
        stats.tun_read_packets == runtime@.tun_read_packets,
        stats.tun_dropped_packets == runtime@.tun_dropped_packets,
        stats.udp_read_packets == runtime@.udp_read_packets,
        stats.tun_write_packets == runtime@.tun_write_packets,
        stats.tun_read_last@ == runtime@.tun_read_last,
        stats.tun_write_last@ == runtime@.tun_write_last,
        stats.latest_handshake is Some <==> runtime@.tunn.session,
        exists|now: u128|
            stats.latest_handshake == #[trigger] handshake_age(runtime.connection(), now),
{
    runtime.collect_stats(tunn_stats(&runtime.tunn), now_ms)
}

/// Reads the file descriptor of the socket of a tunnel.
pub fn get_tunnel_socket_fd(runtime: &TunnelRuntime) -> (socket_fd: i32)
    ensures
        socket_fd == runtime@.socket_fd,
{
    runtime.socket_fd
}

/// Reads how often the workers of a tunnel were woken.
pub fn get_tunnel_tick_count(runtime: &TunnelRuntime) -> (count: u64)
    ensures
        count == runtime@.tick_count,
{
    runtime.tick_count
}

/// Reads the interval of the persistent keepalive of a tunnel; zero where there is none.
pub fn get_persistent_keepalive_seconds(runtime: &TunnelRuntime) -> (seconds: u64)
    ensures
        seconds == runtime@.persistent_keepalive_ms / 1000,
{
    runtime.persistent_keepalive_ms / 1_000
}

/// Begins a handshake of a tunnel, even where one is under way.
pub fn force_tunnel_handshake(runtime: &mut TunnelRuntime, out: &mut [u8]) -> (action: PacketAction)
    requires
        WG_BUFFER_SIZE <= old(out)@.len(),
    ensures
        final(runtime)@ == old(runtime)@.handshake_begun(true),
        tunn_counters(final(runtime).connection()) == tunn_counters(old(runtime).connection()),
        final(out)@.len() == old(out)@.len(),
        action matches PacketAction::SendToPeer(data) && is_handshake_initiation(
            data@,
            old(runtime)@.tunn,
        ),
{
    runtime.force_handshake(out)
}

/// The persistent keepalive that settings were accepted with is what the tunnel made from them
/// reports and what its connection was made with.
pub proof fn law_keepalive_is_reported(
    private_key: Result<Seq<u8>, TunnelError>,
    peer_public_key: Result<Seq<u8>, TunnelError>,
    preshared_key: Option<Result<Seq<u8>, TunnelError>>,
    endpoint_host: Seq<char>,
    endpoint_port: u32,
    persistent_keepalive: u32,
    mtu: u32,
    peer: PeerAddress,
    socket_fd: i32,
)
    ensures
        settings_of(
            private_key,
            peer_public_key,
            preshared_key,
            endpoint_host,
            endpoint_port,
            persistent_keepalive,
            mtu,
        ) matches Ok(settings) ==> {
            let runtime = fresh(settings, peer, socket_fd);
            &&& runtime.persistent_keepalive_ms / 1000 == persistent_keepalive
            &&& runtime.tunn.setup.keepalive == persistent_keepalive
        },
{
}

/// The lasting parts of a tunnel: what it was made with, and where its peer is.
pub open spec fn same_tunnel(one: RuntimeView, other: RuntimeView) -> bool {
    &&& one.tunn.setup == other.tunn.setup
    &&& one.socket_fd == other.socket_fd
    &&& one.peer == other.peer
    &&& one.mtu == other.mtu
    &&& one.persistent_keepalive_ms == other.persistent_keepalive_ms
}

/// Nothing that a tunnel goes through changes what it was made with, where its peer is, or whether
/// it runs.
pub proof fn law_tunnel_stays_itself(
    runtime: RuntimeView,
    action: PacketAction,
    performed: bool,
    data: Seq<u8>,
    delay_ms: u64,
    now_ms: u64,
)
    ensures
        same_tunnel(runtime, runtime.completed(action, performed, now_ms)),
        same_tunnel(runtime, runtime.timer_completed(action, performed, now_ms)),
        same_tunnel(runtime, runtime.packet_read(data)),
        same_tunnel(runtime, runtime.handshake_begun(performed)),
        same_tunnel(runtime, RuntimeView { tunn: after_flush(runtime.tunn), ..runtime }),
        same_tunnel(runtime, runtime.timer_set(delay_ms, now_ms)),
        runtime.completed(action, performed, now_ms).running == runtime.running,
        runtime.timer_completed(action, performed, now_ms).running == runtime.running,
        runtime.packet_read(data).running == runtime.running,
        runtime.handshake_begun(performed).running == runtime.running,
        runtime.timer_set(delay_ms, now_ms).running == runtime.running,
{
}

/// Whatever a tunnel goes through, what waits for a session stays within bounds.
pub proof fn law_tunnel_stays_well_formed(
    runtime: RuntimeView,
    tunn: Tunn,
    source: PeerAddress,
    packet: Seq<u8>,
    action: PacketAction,
    performed: bool,
    now_ms: u64,
    outcome: TunnOutcome,
    left: Tunn,
)
    requires
        runtime.wf(),
        runtime.tunn == tunn_state(tunn),
    ensures
        packet.len() <= MAX_IP_PACKET_SIZE ==> runtime.packet_read(packet).wf(),
        datagram_taken(tunn, source, packet, outcome, left) ==> queue_in_bounds(tunn_state(left)),
        timers_updated(tunn, outcome, left) ==> queue_in_bounds(tunn_state(left)),
        queue_in_bounds(after_flush(runtime.tunn)),
        runtime.completed(action, performed, now_ms).wf(),
        runtime.timer_completed(action, performed, now_ms).wf(),
        runtime.handshake_begun(performed).wf(),
{
    law_clamp_keeps_the_rest(packet, runtime.mtu);
}

/// What the peer sends reaches the TUN device: a packet that the connection finds in transport data
/// is to be written, as long as its own header says. That holds of every counter that leaves room
/// for the window of 1024 above it.
pub proof fn law_data_reaches_the_tun(
    tunn: Tunn,
    source: PeerAddress,
    datagram: Seq<u8>,
    packet: Seq<u8>,
    outcome: TunnOutcome,
    left: Tunn,
)
    requires
        datagram_taken(tunn, source, datagram, outcome, left),
        32 <= datagram.len(),
        datagram[0] == 4 && datagram[1] == 0 && datagram[2] == 0 && datagram[3] == 0,
        datagram[8] + 256 * (datagram[9] + 256 * (datagram[10] + 256 * (datagram[11] + 256 * (
        datagram[12] + 256 * (datagram[13] + 256 * (datagram[14] + 256 * datagram[15]))))))
            <= 0xffff_ffff_ffff_ffff - 1024,
        opened(tunn, datagram) == Some(packet),
    ensures
        packet.len() >= 20 && packet[0] / 16 == 4 && 256 * packet[2] + packet[3] <= packet.len()
            ==> (action_for(outcome, true) matches PacketAction::WriteToTun(data) && data@
            == packet.take(256 * packet[2] + packet[3])),
        packet.len() >= 40 && packet[0] / 16 == 6 && 40 + 256 * packet[4] + packet[5]
            <= packet.len() ==> (action_for(outcome, true) matches PacketAction::WriteToTun(data)
            && data@ == packet.take(40 + 256 * packet[4] + packet[5])),
        packet.len() == 0 ==> action_for(outcome, true) is Idle,
        tunn_state(left).session,
        tunn_state(left).queue == tunn_state(tunn).queue,
        tunn_state(left).setup == tunn_state(tunn).setup,
{
    law_counter_limit(datagram);
    assert(message_type(datagram) == Some(4u32));
}

/// What is found in a datagram goes by its length and its first bytes: of what is no message of the
/// protocol, of transport data that the connection does not open, and of transport data with a
/// counter in the last 1024, nothing comes and nothing is remembered.
pub proof fn law_other_datagrams_are_discarded(
    tunn: Tunn,
    source: PeerAddress,
    datagram: Seq<u8>,
    outcome: TunnOutcome,
    left: Tunn,
)
    requires
        datagram_taken(tunn, source, datagram, outcome, left),
        0 < datagram.len(),
        ({
            ||| datagram.len() < 4
            ||| datagram[1] != 0 || datagram[2] != 0 || datagram[3] != 0
            ||| datagram[0] == 0 || datagram[0] > 4
            ||| datagram[0] == 1 && datagram.len() != 148
            ||| datagram[0] == 2 && datagram.len() != 92
            ||| datagram[0] == 3 && datagram.len() != 64
            ||| datagram[0] == 3 && !takes_cookie(tunn, datagram)
            ||| datagram[0] == 4 && datagram.len() < 32
            ||| datagram[0] == 4 && opened(tunn, datagram) is None
            ||| datagram[0] == 4 && datagram[8] + 256 * (datagram[9] + 256 * (datagram[10] + 256 * (
            datagram[11] + 256 * (datagram[12] + 256 * (datagram[13] + 256 * (datagram[14] + 256
                * datagram[15])))))) > 0xffff_ffff_ffff_ffff - 1024
        }),
    ensures
        action_for(outcome, true) is Discard,
        tunn_state(left) == tunn_state(tunn),
        tunn_counters(left).tx_bytes == tunn_counters(tunn).tx_bytes,
        tunn_counters(left).rx_bytes == tunn_counters(tunn).rx_bytes,
{
    law_message_type_is_little_endian(datagram, 1);
    law_message_type_is_little_endian(datagram, 2);
    law_message_type_is_little_endian(datagram, 3);
    law_message_type_is_little_endian(datagram, 4);
    if datagram.len() >= 16 {
        law_counter_limit(datagram);
    }
}

/// A message of the handshake is dealt with as the connection sees fit, and what it has to answer
/// goes to the peer. A cookie that the connection takes is taken in silence.
pub proof fn law_handshake_messages_are_dealt_with(
    tunn: Tunn,
    source: PeerAddress,
    datagram: Seq<u8>,
    outcome: TunnOutcome,
    left: Tunn,
)
    requires
        datagram_taken(tunn, source, datagram, outcome, left),
        4 <= datagram.len(),
        datagram[1] == 0 && datagram[2] == 0 && datagram[3] == 0,
    ensures
        datagram[0] == 1 && datagram.len() == 148 || datagram[0] == 2 && datagram.len() == 92 ==> (
        exists|period: u64|
            handshake_answer(
                tunn_state(tunn),
                datagram,
                #[trigger] handshake_verdict(tunn, source, datagram, period),
                outcome,
                tunn_state(left),
            )),
        datagram[0] == 1 && datagram.len() == 148 || datagram[0] == 2 && datagram.len() == 92 ==> (
        match action_for(outcome, true) {
            PacketAction::SendToPeer(data) => outcome == TunnOutcome::WriteToNetwork(data),
            PacketAction::Discard => outcome is Rejected,
            _ => false,
        }),
        datagram[0] == 3 && datagram.len() == 64 && takes_cookie(tunn, datagram) ==> action_for(
            outcome,
            true,
        ) is Idle && tunn_state(left) == tunn_state(tunn),
{
    law_message_type_is_little_endian(datagram, 1);
    law_message_type_is_little_endian(datagram, 2);
    law_message_type_is_little_endian(datagram, 3);
    law_message_type_is_little_endian(datagram, 4);
    let verdicts = |period: u64| handshake_verdict(tunn, source, datagram, period);
    if datagram[0] == 1 && datagram.len() == 148 || datagram[0] == 2 && datagram.len() == 92 {
        let period = choose|period: u64|
            handshake_answer(
                tunn_state(tunn),
                datagram,
                #[trigger] verdicts(period),
                outcome,
                tunn_state(left),
            );
        assert(handshake_answer(
            tunn_state(tunn),
            datagram,
            handshake_verdict(tunn, source, datagram, period),
            outcome,
            tunn_state(left),
        ));
    }
}

/// An action that was not performed leaves no trace, unless the connection is at rest after a
/// timer.
pub proof fn law_failed_action_leaves_no_trace(
    runtime: RuntimeView,
    action: PacketAction,
    now_ms: u64,
)
    ensures
        runtime.completed(action, false, now_ms) == runtime,
        runtime.completion_wakes(action, false, now_ms) == 0,
        !(action is Idle) ==> runtime.timer_completed(action, false, now_ms) == runtime,
{
}

/// After a message went out on whose account the timers are looked at, they are looked at no later
/// than its delay asks for, and with a persistent keepalive no later than that asks for.
pub proof fn law_sent_message_is_followed_up(runtime: RuntimeView, data: Seq<u8>, now_ms: u64)
    requires
        increasing(runtime.deadlines),
    ensures
        ({
            let after = runtime.message_sent(data, now_ms);
            let timeout = timeout_ms(after.deadlines, now_ms);
            &&& after.last_network_send_ms == now_ms
            &&& timer_delay(data) matches Some(delay_ms) ==> 0 <= timeout <= delay_ms
            &&& runtime.persistent_keepalive_ms > 0 ==> 0 <= timeout <= deadline_after(
                now_ms,
                runtime.persistent_keepalive_ms,
            ) - now_ms
        }),
{
    let noted = RuntimeView { last_network_send_ms: now_ms, ..runtime };
    let timed = noted.send_timer_set(data, now_ms);
    if let Some(delay_ms) = timer_delay(data) {
        law_timer_is_waited_for(runtime.deadlines, delay_ms, now_ms);
        law_timers_are_kept(runtime.deadlines, delay_ms, now_ms);
    }
    if runtime.persistent_keepalive_ms > 0 {
        law_timer_is_waited_for(timed.deadlines, runtime.persistent_keepalive_ms, now_ms);
    }
}

/// The bytes of all packets.
pub open spec fn total_len(packets: Seq<Seq<u8>>) -> nat
    decreases packets.len(),
{
    if packets.len() == 0 {
        0
    } else {
        total_len(packets.drop_last()) + packets.last().len()
    }
}

/// The bytes that all outcomes hand to the TUN device.
pub open spec fn total_in(outcomes: Seq<TunnOutcome>) -> nat
    decreases outcomes.len(),
{
    if outcomes.len() == 0 {
        0
    } else {
        total_in(outcomes.drop_last()) + bytes_in(outcomes.last())
    }
}

/// The bytes sent add up, and so do the messages: when packets are sent one after another in a
/// session, the connection counts the bytes of all of them and one message for each, and receives
/// nothing.
pub proof fn law_sent_bytes_add_up(
    tunns: Seq<Tunn>,
    packets: Seq<Seq<u8>>,
    outcomes: Seq<TunnOutcome>,
)
    requires
        tunns.len() == packets.len() + 1,
        outcomes.len() == packets.len(),
        forall|i: int|
            0 <= i < packets.len() ==> packet_sent(
                tunns[i],
                #[trigger] packets[i],
                outcomes[i],
                tunns[i + 1],
            ),
        tunn_state(tunns[0]).session,
        tunn_counters(tunns[0]).tx_bytes + total_len(packets) <= usize::MAX,
        tunn_state(tunns[0]).sent + packets.len() <= u64::MAX,
    ensures
        tunn_state(tunns.last()).session,
        tunn_state(tunns.last()).sent == tunn_state(tunns[0]).sent + packets.len(),
        tunn_counters(tunns.last()) == (TunnCounters {
            tx_bytes: (tunn_counters(tunns[0]).tx_bytes + total_len(packets)) as usize,
            ..tunn_counters(tunns[0])
        }),
    decreases packets.len(),
{
    if packets.len() > 0 {
        let n = packets.len() - 1;
        let before = tunns.drop_last();
        assert forall|i: int| 0 <= i < n implies packet_sent(
            before[i],
            #[trigger] packets.drop_last()[i],
            outcomes.drop_last()[i],
            before[i + 1],
        ) by {
            assert(packets.drop_last()[i] == packets[i]);
        }
        law_sent_bytes_add_up(before, packets.drop_last(), outcomes.drop_last());
        assert(packet_sent(tunns[n], packets[n], outcomes[n], tunns[n + 1]));
    }
}

/// The bytes received add up: when datagrams are taken in one after another, the connection counts
/// the bytes of all packets that are to be written to the TUN device, and sends nothing that
/// counts.
pub proof fn law_received_bytes_add_up(
    tunns: Seq<Tunn>,
    sources: Seq<PeerAddress>,
    datagrams: Seq<Seq<u8>>,
    outcomes: Seq<TunnOutcome>,
)
    requires
        tunns.len() == datagrams.len() + 1,
        sources.len() == datagrams.len(),
        outcomes.len() == datagrams.len(),
        forall|i: int|
            0 <= i < datagrams.len() ==> 0 < datagrams[i].len() && datagram_taken(
                tunns[i],
                sources[i],
                #[trigger] datagrams[i],
                outcomes[i],
                tunns[i + 1],
            ),
        tunn_counters(tunns[0]).rx_bytes + total_in(outcomes) <= usize::MAX,
    ensures
        tunn_counters(tunns.last()).rx_bytes == tunn_counters(tunns[0]).rx_bytes + total_in(
            outcomes,
        ),
        tunn_counters(tunns.last()).tx_bytes == tunn_counters(tunns[0]).tx_bytes,
    decreases datagrams.len(),
{
    if datagrams.len() > 0 {
        let n = datagrams.len() - 1;
        let before = tunns.drop_last();
        assert forall|i: int| 0 <= i < n implies 0 < datagrams.drop_last()[i].len()
            && datagram_taken(
            before[i],
            sources.drop_last()[i],
            #[trigger] datagrams.drop_last()[i],
            outcomes.drop_last()[i],
            before[i + 1],
        ) by {
            assert(datagrams.drop_last()[i] == datagrams[i]);
        }
        law_received_bytes_add_up(
            before,
            sources.drop_last(),
            datagrams.drop_last(),
            outcomes.drop_last(),
        );
        assert(datagram_taken(tunns[n], sources[n], datagrams[n], outcomes[n], tunns[n + 1]));
    }
}

/// A count goes up by one each time, and starts over only when 64 bits are full.
pub proof fn law_counts_go_up_by_one(count: u64)
    ensures
        count < 0xffff_ffff_ffff_ffff ==> counted(count) == count + 1,
        count == 0xffff_ffff_ffff_ffff ==> counted(count) == 0,
{
}

/// What a connection wants done is done with just the bytes that it gave: messages go to the peer,
/// packets to the TUN device where it is at hand.
pub proof fn law_outcomes_keep_their_bytes(outcome: TunnOutcome, tun_at_hand: bool, data: Vec<u8>)
    ensures
        action_for(outcome, tun_at_hand) == PacketAction::SendToPeer(data) <==> outcome
            == TunnOutcome::WriteToNetwork(data),
        action_for(outcome, tun_at_hand) == PacketAction::WriteToTun(data) <==> tun_at_hand && (
        outcome == TunnOutcome::WriteToTunnelV4(data) || outcome == TunnOutcome::WriteToTunnelV6(
            data,
        )),
        action_for(outcome, tun_at_hand) is Idle <==> outcome is Done,
        action_for(outcome, tun_at_hand) is Discard <==> outcome is Rejected || !tun_at_hand && (
        outcome is WriteToTunnelV4 || outcome is WriteToTunnelV6),
{
}

/// After a handshake initiation the timers are looked at in five seconds, after transport data in
/// fifteen, and after anything else not on its account.
pub proof fn law_follow_up_delays(data: Seq<u8>)
    ensures
        4 <= data.len() && data[0] == 1 && data[1] == 0 && data[2] == 0 && data[3] == 0
            ==> timer_delay(data) == Some(5_000u64),
        4 <= data.len() && data[0] == 4 && data[1] == 0 && data[2] == 0 && data[3] == 0
            ==> timer_delay(data) == Some(15_000u64),
        data.len() < 4 || data[0] != 1 && data[0] != 4 || data[1] != 0 || data[2] != 0 || data[3]
            != 0 ==> timer_delay(data) is None,
{
    law_message_type_is_little_endian(data, 1);
    law_message_type_is_little_endian(data, 4);
}

/// A tunnel that was just made has what its settings say, and has done nothing.
pub proof fn law_fresh_tunnel_has_done_nothing(
    settings: SettingsView,
    peer: PeerAddress,
    socket_fd: i32,
)
    requires
        settings.persistent_keepalive_ms <= u64::MAX,
    ensures
        ({
            let runtime = fresh(settings, peer, socket_fd);
            &&& runtime.peer == peer
            &&& runtime.socket_fd == socket_fd
            &&& runtime.mtu == settings.mtu
            &&& runtime.persistent_keepalive_ms == settings.persistent_keepalive_ms
            &&& runtime.tunn.setup.private_key == settings.private_key
            &&& runtime.tunn.setup.peer_public_key == settings.peer_public_key
            &&& runtime.tunn.setup.preshared_key == settings.preshared_key
            &&& settings.keepalive matches Some(seconds) ==> runtime.tunn.setup.keepalive == seconds
            &&& settings.keepalive is None ==> runtime.tunn.setup.keepalive == 0
            &&& runtime.tunn.setup.index == 1
            &&& runtime.tunn.queue.len() == 0
            &&& !runtime.tunn.session && !runtime.tunn.handshaking && !runtime.running
            &&& runtime.tunn.sent == 0 && runtime.tunn.handshakes == 0
            &&& runtime.last_network_send_ms == 0 && runtime.tick_count == 0
            &&& runtime.tun_read_packets == 0 && runtime.tun_dropped_packets == 0
            &&& runtime.udp_read_packets == 0 && runtime.tun_write_packets == 0
            &&& runtime.tun_read_last.len() == 0 && runtime.tun_write_last.len() == 0
            &&& runtime.deadlines.len() == 0
        }),
{
}

/// A packet that was read is counted and put in words, and as dropped where it is quiet. One that
/// is not takes its number in the session, or waits behind all others while there is room for 256.
pub proof fn law_read_packet_is_noted(runtime: RuntimeView, packet: Seq<u8>)
    requires
        runtime.tun_read_packets < u64::MAX,
        runtime.tun_dropped_packets < u64::MAX,
        runtime.tunn.sent < u64::MAX,
    ensures
        ({
            let after = runtime.packet_read(packet);
            let passes = packet.len() > 0 && !is_quiet(packet);
            &&& packet.len() == 0 ==> after == runtime
            &&& packet.len() > 0 ==> {
                &&& after.tun_read_packets == runtime.tun_read_packets + 1
                &&& after.tun_read_last == summary(packet)
            }
            &&& packet.len() > 0 && is_quiet(packet) ==> {
                &&& after.tun_dropped_packets == runtime.tun_dropped_packets + 1
                &&& after.tunn == runtime.tunn
            }
            &&& passes ==> after.tun_dropped_packets == runtime.tun_dropped_packets
            &&& passes && runtime.tunn.session ==> {
                &&& after.tunn.sent == runtime.tunn.sent + 1
                &&& after.tunn.queue == runtime.tunn.queue
                &&& after.tunn.session
                &&& after.tunn.handshaking == runtime.tunn.handshaking
            }
            &&& passes && !runtime.tunn.session ==> {
                &&& after.tunn.sent == runtime.tunn.sent
                &&& runtime.tunn.queue.len() < 256 ==> after.tunn.queue == runtime.tunn.queue.push(
                    clamped(packet, runtime.mtu),
                )
                &&& runtime.tunn.queue.len() >= 256 ==> after.tunn.queue == runtime.tunn.queue
                &&& !after.tunn.session
                &&& after.tunn.handshaking
            }
            &&& after.peer == runtime.peer && after.socket_fd == runtime.socket_fd
            &&& after.mtu == runtime.mtu && after.running == runtime.running
            &&& after.persistent_keepalive_ms == runtime.persistent_keepalive_ms
            &&& after.last_network_send_ms == runtime.last_network_send_ms
            &&& after.udp_read_packets == runtime.udp_read_packets
            &&& after.tun_write_packets == runtime.tun_write_packets
            &&& after.tun_write_last == runtime.tun_write_last
            &&& after.tick_count == runtime.tick_count
            &&& after.deadlines == runtime.deadlines
        }),
{
}

/// A packet that was written is counted and put in words, and nothing else changes.
pub proof fn law_written_packet_is_noted(runtime: RuntimeView, packet: Vec<u8>, now_ms: u64)
    requires
        runtime.tun_write_packets < u64::MAX,
    ensures
        ({
            let after = runtime.completed(PacketAction::WriteToTun(packet), true, now_ms);
            &&& after.tun_write_packets == runtime.tun_write_packets + 1
            &&& after.tun_write_last == summary(packet@)
            &&& after == (RuntimeView {
                tun_write_packets: after.tun_write_packets,
                tun_write_last: after.tun_write_last,
                ..runtime
            })
            &&& runtime.completion_wakes(PacketAction::WriteToTun(packet), true, now_ms) == 0
            &&& runtime.timer_completed(PacketAction::WriteToTun(packet), true, now_ms) == after
        }),
{
}

/// A message that was sent is noted with its time, and sets the timers that it calls for: five
/// seconds behind a handshake initiation, fifteen behind transport data, and the persistent
/// keepalive behind anything. No deadline is given up for them that is not later than sixteen
/// others, and nothing else changes.
pub proof fn law_sent_message_sets_timers(
    runtime: RuntimeView,
    data: Vec<u8>,
    now_ms: u64,
    d: u64,
)
    requires
        runtime.persistent_keepalive_ms == 0 || runtime.persistent_keepalive_ms >= 500,
        now_ms + 15_000 <= u64::MAX,
        now_ms + runtime.persistent_keepalive_ms <= u64::MAX,
    ensures
        ({
            let after = runtime.completed(PacketAction::SendToPeer(data), true, now_ms);
            let keepalive = runtime.persistent_keepalive_ms;
            let typed = 4 <= data@.len() && data@[1] == 0 && data@[2] == 0 && data@[3] == 0;
            let wanted = runtime.deadlines.contains(d) || typed && data@[0] == 1 && d == now_ms
                + 5_000 || typed && data@[0] == 4 && d == now_ms + 15_000 || keepalive > 0 && d
                == now_ms + keepalive;
            &&& after.last_network_send_ms == now_ms
            &&& after.deadlines.contains(d) ==> wanted
            &&& wanted && !after.deadlines.contains(d) ==> after.deadlines.len() == 16
                && forall|i: int| 0 <= i < 16 ==> #[trigger] after.deadlines[i] < d
            &&& after == (RuntimeView {
                last_network_send_ms: now_ms,
                deadlines: after.deadlines,
                ..runtime
            })
            &&& runtime.timer_completed(PacketAction::SendToPeer(data), true, now_ms) == after
        }),
{
    law_follow_up_delays(data@);
    let keepalive = runtime.persistent_keepalive_ms;
    let delay_ms: u64 = if timer_delay(data@) is Some {
        timer_delay(data@)->0
    } else {
        5_000
    };
    law_timer_is_set_among_others(runtime.deadlines, delay_ms, now_ms, d);
    if keepalive > 0 {
        law_timer_is_set_among_others(runtime.deadlines, keepalive, now_ms, d);
        law_two_timers_are_set(runtime.deadlines, delay_ms, keepalive, now_ms, d);
    }
}

/// Who waits is woken for a message that was sent once for each timer that it sets and that goes
/// off before all others that are pending by then.
pub proof fn law_sent_message_wakes(runtime: RuntimeView, data: Vec<u8>, now_ms: u64)
    requires
        forall|i: int, j: int|
            0 <= i < j < runtime.deadlines.len() ==> runtime.deadlines[i] < runtime.deadlines[j],
        runtime.persistent_keepalive_ms == 0 || runtime.persistent_keepalive_ms >= 500,
        now_ms + 15_000 <= u64::MAX,
        now_ms + runtime.persistent_keepalive_ms <= u64::MAX,
    ensures
        ({
            let keepalive = runtime.persistent_keepalive_ms;
            let typed = 4 <= data@.len() && data@[1] == 0 && data@[2] == 0 && data@[3] == 0;
            let delay: int = if typed && data@[0] == 1 {
                5_000
            } else if typed && data@[0] == 4 {
                15_000
            } else {
                0
            };
            let none = runtime.deadlines.len() == 0;
            let first = runtime.deadlines[0];
            let one: int = if delay > 0 && (none || now_ms + delay < first) { 1 } else { 0 };
            let other: int = if keepalive > 0 && (none || now_ms + keepalive < first) && (delay == 0
                || keepalive < delay) { 1 } else { 0 };
            runtime.completion_wakes(PacketAction::SendToPeer(data), true, now_ms) == one + other
        }),
{
    law_follow_up_delays(data@);
    let keepalive = runtime.persistent_keepalive_ms;
    if keepalive > 0 {
        law_earlier_timer_wakes(runtime.deadlines, keepalive, now_ms);
    }
    if let Some(delay_ms) = timer_delay(data@) {
        law_earlier_timer_wakes(runtime.deadlines, delay_ms, now_ms);
        if keepalive > 0 {
            law_second_timer_wakes(runtime.deadlines, delay_ms, keepalive, now_ms);
        }
    }
}

/// A connection that is at rest when its timers were looked after is looked after again when the
/// persistent keepalive is over, and who waits is woken for that exactly when it comes first.
/// Without a persistent keepalive nothing changes.
pub proof fn law_rest_is_followed_by_keepalive(
    runtime: RuntimeView,
    performed: bool,
    now_ms: u64,
    d: u64,
)
    requires
        forall|i: int, j: int|
            0 <= i < j < runtime.deadlines.len() ==> runtime.deadlines[i] < runtime.deadlines[j],
        runtime.persistent_keepalive_ms == 0 || runtime.persistent_keepalive_ms >= 500,
        now_ms + runtime.persistent_keepalive_ms <= u64::MAX,
    ensures
        ({
            let after = runtime.timer_completed(PacketAction::Idle, performed, now_ms);
            let wakes = runtime.timer_completion_wakes(PacketAction::Idle, performed, now_ms);
            let keepalive = runtime.persistent_keepalive_ms;
            let wanted = runtime.deadlines.contains(d) || d == now_ms + keepalive;
            &&& keepalive == 0 ==> after == runtime && wakes == 0
            &&& after == (RuntimeView { deadlines: after.deadlines, ..runtime })
            &&& keepalive > 0 && after.deadlines.contains(d) ==> wanted
            &&& keepalive > 0 && wanted && !after.deadlines.contains(d) ==> after.deadlines.len()
                == 16 && forall|i: int| 0 <= i < 16 ==> #[trigger] after.deadlines[i] < d
            &&& keepalive > 0 ==> (wakes == 1 <==> runtime.deadlines.len() == 0 || now_ms
                + keepalive < runtime.deadlines[0])
            &&& wakes <= 1
        }),
{
    if runtime.persistent_keepalive_ms > 0 {
        let keepalive = runtime.persistent_keepalive_ms;
        law_timer_is_set_among_others(runtime.deadlines, keepalive, now_ms, d);
        law_earlier_timer_wakes(runtime.deadlines, keepalive, now_ms);
    }
}

/// In a session a packet goes out as just the message that the connection makes of it, 32 bytes
/// longer and with the next number. Without one it asks for a handshake where none is under way.
pub proof fn law_packet_goes_out(tunn: Tunn, packet: Seq<u8>, outcome: TunnOutcome, left: Tunn)
    requires
        packet_sent(tunn, packet, outcome, left),
    ensures
        tunn_state(tunn).session ==> (action_for(outcome, false) matches PacketAction::SendToPeer(
            data,
        ) && {
            &&& data@ == sealed(tunn, packet)
            &&& data@.len() == packet.len() + 32
            &&& data@[0] == 4 && data@[1] == 0 && data@[2] == 0 && data@[3] == 0
            &&& data@[8] + 256 * (data@[9] + 256 * (data@[10] + 256 * (data@[11] + 256 * (data@[12]
                + 256 * (data@[13] + 256 * (data@[14] + 256 * data@[15])))))) == tunn_state(
                tunn,
            ).sent
        }),
        !tunn_state(tunn).session && tunn_state(tunn).handshaking ==> action_for(
            outcome,
            false,
        ) is Idle,
        !tunn_state(tunn).session && !tunn_state(tunn).handshaking ==> (action_for(
            outcome,
            false,
        ) matches PacketAction::SendToPeer(data) && data@.len() == 148 && data@[0] == 1 && data@[1]
            == 0 && data@[2] == 0 && data@[3] == 0),
        tunn_state(tunn).session && tunn_counters(tunn).tx_bytes + packet.len() <= usize::MAX
            ==> tunn_counters(left).tx_bytes == tunn_counters(tunn).tx_bytes + packet.len(),
{
    if let TunnOutcome::WriteToNetwork(data) = outcome {
        law_message_type_is_little_endian(data@, 1);
        law_message_type_is_little_endian(data@, 4);
        if data@.len() >= 16 {
            law_counter_limit(data@);
        }
    }
}

/// What has waited longest goes out first, in a session, as just the message that the connection
/// makes of it; where nothing waits, nothing goes out and nothing changes.
pub proof fn law_longest_waiting_goes_out(tunn: Tunn, outcome: TunnOutcome, left: Tunn)
    requires
        flush(tunn, outcome, left),
    ensures
        tunn_state(tunn).queue.len() == 0 ==> outcome is Done,
        tunn_state(tunn).queue.len() == 0 ==> tunn_state(left) == tunn_state(tunn),
        tunn_state(tunn).queue.len() > 0 && tunn_state(tunn).session ==> (
        outcome matches TunnOutcome::WriteToNetwork(data) && {
            &&& data@ == sealed(tunn, tunn_state(tunn).queue[0])
            &&& data@.len() == tunn_state(tunn).queue[0].len() + 32
            &&& seq![tunn_state(tunn).queue[0]] + tunn_state(left).queue == tunn_state(tunn).queue
        }),
        tunn_state(tunn).queue.len() > 0 && !tunn_state(tunn).session && tunn_state(
            tunn,
        ).handshaking ==> outcome is Done,
{
    let queue = tunn_state(tunn).queue;
    if queue.len() > 0 {
        assert(seq![queue[0]] + queue.drop_first() =~= queue);
    }
}

/// Of an action that is neither to send nor to write there is nothing to note.
pub proof fn law_nothing_to_note(runtime: RuntimeView, performed: bool, now_ms: u64)
    ensures
        runtime.completed(PacketAction::Idle, performed, now_ms) == runtime,
        runtime.completed(PacketAction::Discard, performed, now_ms) == runtime,
        runtime.timer_completed(PacketAction::Discard, performed, now_ms) == runtime,
        runtime.completion_wakes(PacketAction::Idle, performed, now_ms) == 0,
        runtime.completion_wakes(PacketAction::Discard, performed, now_ms) == 0,
        runtime.timer_completion_wakes(PacketAction::Discard, performed, now_ms) == 0,
{
}

/// To set a timer changes the deadlines and nothing else, and to begin a handshake changes the
/// connection and nothing else.
pub proof fn law_timers_and_handshakes_are_separate(
    runtime: RuntimeView,
    delay_ms: u64,
    now_ms: u64,
    force: bool,
)
    ensures
        runtime.timer_set(delay_ms, now_ms) == (RuntimeView {
            deadlines: with_timer(runtime.deadlines, delay_ms, now_ms),
            ..runtime
        }),
        runtime.handshake_begun(force) == (RuntimeView {
            tunn: after_handshake(runtime.tunn, force),
            ..runtime
        }),
        runtime.persistent_keepalive_ms == 0 ==> runtime.keepalive_set(now_ms) == runtime
            && !runtime.keepalive_is_earliest(now_ms),
        runtime.persistent_keepalive_ms > 0 ==> runtime.keepalive_set(now_ms) == (RuntimeView {
            deadlines: with_timer(runtime.deadlines, runtime.persistent_keepalive_ms, now_ms),
            ..runtime
        }),
        runtime.persistent_keepalive_ms > 0 ==> runtime.keepalive_is_earliest(now_ms)
            == is_earliest(runtime.deadlines, runtime.persistent_keepalive_ms, now_ms),
{
}

/// Whatever the time, a message that was sent sets the timer that its type calls for and then that
/// of the persistent keepalive, and wakes who waits once for each that comes first when it is set.
pub proof fn law_timers_of_a_sent_message(runtime: RuntimeView, data: Vec<u8>, now_ms: u64)
    ensures
        ({
            let sent = PacketAction::SendToPeer(data);
            let after = runtime.completed(sent, true, now_ms);
            let wakes = runtime.completion_wakes(sent, true, now_ms);
            let typed = 4 <= data@.len() && data@[1] == 0 && data@[2] == 0 && data@[3] == 0;
            let timed = typed && (data@[0] == 1 || data@[0] == 4);
            let delay: u64 = if data@[0] == 1 { 5_000 } else { 15_000 };
            let between = if timed {
                with_timer(runtime.deadlines, delay, now_ms)
            } else {
                runtime.deadlines
            };
            let keepalive = runtime.persistent_keepalive_ms;
            let first = timed && is_earliest(runtime.deadlines, delay, now_ms);
            let second = keepalive > 0 && is_earliest(between, keepalive, now_ms);
            &&& keepalive == 0 ==> after.deadlines == between
            &&& keepalive > 0 ==> after.deadlines == with_timer(between, keepalive, now_ms)
            &&& after == (RuntimeView {
                last_network_send_ms: now_ms,
                deadlines: after.deadlines,
                ..runtime
            })
            &&& wakes == 2 <==> first && second
            &&& wakes == 0 <==> !first && !second
            &&& wakes <= 2
            &&& runtime.timer_completed(sent, true, now_ms) == after
            &&& runtime.timer_completion_wakes(sent, true, now_ms) == wakes
        }),
{
    law_follow_up_delays(data@);
}

/// Looking after the timers does what they ask for at some reading of the clock: nothing, a
/// handshake initiation, a message without contents in a session, or to give the connection up.
pub proof fn law_timers_get_what_they_ask_for(tunn: Tunn, outcome: TunnOutcome, left: Tunn)
    requires
        timers_updated(tunn, outcome, left),
    ensures
        exists|now: u128, later: u128|
            {
                let verdict = #[trigger] timer_verdict(tunn, now, later);
                &&& verdict.task is Rest ==> outcome is Done && tunn_state(left).queue
                    == tunn_state(tunn).queue
                &&& verdict.task is Expire ==> outcome is Rejected && tunn_state(left).queue.len()
                    == 0 && !tunn_state(left).session && !tunn_state(left).handshaking
                &&& verdict.task is StayExpired ==> outcome is Rejected
                &&& verdict.task is Handshake ==> (outcome matches TunnOutcome::WriteToNetwork(data)
                    && data@.len() == 148 && data@[0] == 1 && data@[1] == 0 && data@[2] == 0
                    && data@[3] == 0) && tunn_state(left).handshaking
                &&& verdict.task is Keepalive && verdict.session ==> (
                outcome matches TunnOutcome::WriteToNetwork(data) && data@ == sealed(
                    tunn,
                    Seq::empty(),
                ) && data@.len() == 32 && data@[0] == 4)
            },
        tunn_state(left).setup == tunn_state(tunn).setup,
        tunn_counters(left).tx_bytes == tunn_counters(tunn).tx_bytes,
        tunn_counters(left).rx_bytes == tunn_counters(tunn).rx_bytes,
{
    let (now, later) = choose|now: u128, later: u128|
        timers_served(
            tunn_state(tunn),
            #[trigger] timer_verdict(tunn, now, later),
            sealed(tunn, Seq::empty()),
            outcome,
            tunn_state(left),
        );
    let verdict = timer_verdict(tunn, now, later);
    if let TunnOutcome::WriteToNetwork(data) = outcome {
        law_message_type_is_little_endian(data@, 1);
        law_message_type_is_little_endian(data@, 4);
    }
    assert(verdict.session ==> tunn_state(tunn).session);
}

} // verus!
