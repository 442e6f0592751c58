//! The workers of a tunnel, stage by stage: one reads the TUN device, one reads the socket and
//! looks after the timers.
//!
//! A worker is always at a stage, which says what is to be done. Who does it hands back what came
//! of it, and gets the next stage.

use boringtun::noise::Tunn;
use vstd::prelude::*;

use crate::filter::is_quiet;
use crate::mss::clamped;
use crate::poll::PollOutcome;
use crate::runtime::{
    action_for, counted, datagram_taken, flush, once, packet_sent, timer_delay, timers_updated,
    PacketAction, RuntimeView, TickCounter, TunnelRuntime, KEEPALIVE_TIMEOUT_MS,
};
use crate::settings::PeerAddress;
use crate::timer::{
    any_due, due, increasing, is_earliest, law_earlier_timer_wakes, law_earliest_deadline_is_served,
    law_new_timer_keeps_what_is_due, law_timer_is_set_among_others, without_due, MAX_DEADLINES,
};
use crate::wireguard::{
    after_flush, counter_in_range, holds_data, message_type, TunnOutcome, TunnState,
    MAX_IP_PACKET_SIZE, WG_BUFFER_SIZE, WG_MESSAGE_DATA,
};

verus! {

/// What came of waiting for a descriptor.
#[derive(Clone, Copy, Debug, PartialEq, Eq, Structural)]
pub enum PollEvent {
    /// The wait ended.
    Got(PollOutcome),
    /// The wait failed. It can be tried once more where `retry` says so.
    Failed { retry: bool },
}

/// A stage of the worker that reads the TUN device.
pub enum TunStage {
    /// Wait for a packet.
    Polling,
    /// Read a packet.
    Reading,
    /// Do something with a packet.
    Acting(PacketAction),
    /// End.
    Exited,
}

/// A stage of the worker that reads the socket.
pub enum UdpStage {
    /// Wait for a datagram, no longer than until the earliest deadline.
    Polling,
    /// Receive a datagram.
    Receiving,
    /// Do something on account of a datagram; `data_came` says whether it held data.
    Acting { action: PacketAction, data_came: bool },
    /// Do something with a packet that had waited; `again` says whether there may be another one.
    Flushing { action: PacketAction, again: bool, data_came: bool },
    /// Do something on account of a timer.
    Timing(PacketAction),
    /// End.
    Exited,
}

/// The next round of the worker that reads the TUN device, where the tunnel is running.
pub open spec fn tun_round(runtime: RuntimeView) -> TunStage {
    if runtime.running {
        TunStage::Polling
    } else {
        TunStage::Exited
    }
}

/// The next round of the worker that reads the socket, where the tunnel is running.
pub open spec fn udp_round(runtime: RuntimeView) -> UdpStage {
    if runtime.running {
        UdpStage::Polling
    } else {
        UdpStage::Exited
    }
}

/// Begins a round of the worker that reads the TUN device.
pub fn begin_tun_round(runtime: &TunnelRuntime) -> (stage: TunStage)
    ensures
        stage == tun_round(runtime@),
{
    if runtime.is_running() {
        TunStage::Polling
    } else {
        TunStage::Exited
    }
}

/// A tunnel after one of its workers was woken.
pub open spec fn woken(runtime: RuntimeView) -> RuntimeView {
    RuntimeView { tick_count: counted(runtime.tick_count), ..runtime }
}

/// Goes on after waiting for a packet: reads it where there is one, ends where the worker was told
/// to stop or the wait failed for good, and else waits once more.
pub fn tun_polled(runtime: &mut TunnelRuntime, ticks: &mut TickCounter, event: PollEvent) -> (stage:
    TunStage)
    ensures
        final(runtime).connection() == old(runtime).connection(),
        match event {
            PollEvent::Got(PollOutcome::Ready) => {
                &&& final(runtime)@ == woken(old(runtime)@)
                &&& final(ticks)@ == counted(old(ticks)@)
            },
            _ => final(runtime)@ == old(runtime)@ && final(ticks)@ == old(ticks)@,
        },
        stage == match event {
            PollEvent::Got(PollOutcome::Ready) => TunStage::Reading,
            PollEvent::Got(PollOutcome::Stopped) => TunStage::Exited,
            PollEvent::Got(PollOutcome::TimedOut) => tun_round(old(runtime)@),
            PollEvent::Failed { retry } => if retry {
                tun_round(old(runtime)@)
            } else {
                TunStage::Exited
            },
        },
{
    match event {
        PollEvent::Got(PollOutcome::Ready) => {
            runtime.bump_tick(ticks);
            TunStage::Reading
        },
        PollEvent::Got(PollOutcome::Stopped) => TunStage::Exited,
        PollEvent::Got(PollOutcome::TimedOut) => begin_tun_round(runtime),
        PollEvent::Failed { retry } => tun_failed(runtime, retry),
    }
}

/// Goes on after reading a packet failed.
pub fn tun_failed(runtime: &TunnelRuntime, retry: bool) -> (stage: TunStage)
    ensures
        stage == if retry {
            tun_round(runtime@)
        } else {
            TunStage::Exited
        },
{
    if retry {
        begin_tun_round(runtime)
    } else {
        TunStage::Exited
    }
}

/// Goes on after a packet was read: see [`TunnelRuntime::read_tun_packet`].
pub fn tun_read(runtime: &mut TunnelRuntime, packet: &mut [u8], out: &mut [u8]) -> (stage: TunStage)
    requires
        old(packet)@.len() <= MAX_IP_PACKET_SIZE,
        WG_BUFFER_SIZE <= old(out)@.len(),
    ensures
        old(runtime)@.wf() ==> final(runtime)@.wf(),
        final(runtime)@ == old(runtime)@.packet_read(old(packet)@),
        final(out)@.len() == old(out)@.len(),
        is_quiet(old(packet)@) ==> stage == tun_round(old(runtime)@) && final(packet)@ == old(
            packet,
        )@ && final(runtime).connection() == old(runtime).connection(),
        !is_quiet(old(packet)@) ==> {
            &&& final(packet)@ == clamped(old(packet)@, old(runtime)@.mtu)
            &&& exists|outcome: TunnOutcome| #[trigger]
                packet_sent(
                    old(runtime).connection(),
                    final(packet)@,
                    outcome,
                    final(runtime).connection(),
                ) && stage == TunStage::Acting(action_for(outcome, false))
        },
{
    let action = runtime.read_tun_packet(packet, out);
    match action {
        PacketAction::Discard => begin_tun_round(runtime),
        action => TunStage::Acting(action),
    }
}

/// Goes on after something was done with a packet, with success or without. Tells how often who
/// waits for the earliest deadline must be woken.
pub fn tun_acted(
    runtime: &mut TunnelRuntime,
    action: &PacketAction,
    performed: bool,
    now_ms: u64,
) -> (next: (TunStage, u8))
    ensures
        final(runtime).connection() == old(runtime).connection(),
        final(runtime)@ == old(runtime)@.completed(*action, performed, now_ms),
        next.0 == tun_round(old(runtime)@),
        next.1 == old(runtime)@.completion_wakes(*action, performed, now_ms),
{
    let wakes: u8 = runtime.complete(action, performed, now_ms);
    (begin_tun_round(runtime), wakes)
}

/// Begins a round of the worker that reads the socket.
pub fn begin_udp_round(runtime: &TunnelRuntime) -> (stage: UdpStage)
    ensures
        stage == udp_round(runtime@),
{
    if runtime.is_running() {
        UdpStage::Polling
    } else {
        UdpStage::Exited
    }
}

/// A worker has taken one deadline that has passed, where one has, and looks after the timers, or
/// else begins the next round.
pub open spec fn timers_looked_after(
    tunn: Tunn,
    before: RuntimeView,
    now_ms: u64,
    stage: UdpStage,
    left: Tunn,
    after: RuntimeView,
) -> bool {
    &&& after == (RuntimeView {
        deadlines: without_due(before.deadlines, now_ms),
        tunn: after.tunn,
        ..before
    })
    &&& if any_due(before.deadlines, now_ms) {
        exists|outcome: TunnOutcome| #[trigger]
            timers_updated(tunn, outcome, left) && stage == UdpStage::Timing(
                action_for(outcome, false),
            )
    } else {
        stage == udp_round(before) && left == tunn
    }
}

/// Takes one deadline that has passed, where one has, and looks after the timers, or else begins
/// the next round.
fn look_after_timers(runtime: &mut TunnelRuntime, now_ms: u64, out: &mut [u8]) -> (stage: UdpStage)
    requires
        WG_BUFFER_SIZE <= old(out)@.len(),
    ensures
        old(runtime)@.wf() ==> final(runtime)@.wf(),
        final(out)@.len() == old(out)@.len(),
        timers_looked_after(
            old(runtime).connection(),
            old(runtime)@,
            now_ms,
            stage,
            final(runtime).connection(),
            final(runtime)@,
        ),
{
    match runtime.service_timer(now_ms, out) {
        Some(action) => UdpStage::Timing(action),
        None => begin_udp_round(runtime),
    }
}

/// Goes on after waiting for a datagram: receives it where there is one, looks after the timers
/// where the time is up, ends where the wait failed for good, and else waits once more, if the
/// tunnel is still running.
pub fn udp_polled(
    runtime: &mut TunnelRuntime,
    ticks: &mut TickCounter,
    event: PollEvent,
    now_ms: u64,
    out: &mut [u8],
) -> (stage: UdpStage)
    requires
        WG_BUFFER_SIZE <= old(out)@.len(),
    ensures
        old(runtime)@.wf() ==> final(runtime)@.wf(),
        final(out)@.len() == old(out)@.len(),
        final(ticks)@ == match event {
            PollEvent::Got(PollOutcome::Ready) | PollEvent::Got(PollOutcome::TimedOut) => counted(
                old(ticks)@,
            ),
            _ => old(ticks)@,
        },
        event != PollEvent::Got(PollOutcome::TimedOut) ==> final(runtime).connection() == old(
            runtime,
        ).connection(),
        match event {
            PollEvent::Got(PollOutcome::Ready) => {
                &&& final(runtime)@ == woken(old(runtime)@)
                &&& stage == UdpStage::Receiving
            },
            PollEvent::Got(PollOutcome::TimedOut) => timers_looked_after(
                old(runtime).connection(),
                woken(old(runtime)@),
                now_ms,
                stage,
                final(runtime).connection(),
                final(runtime)@,
            ),
            PollEvent::Got(PollOutcome::Stopped) => {
                &&& final(runtime)@ == old(runtime)@
                &&& stage == udp_round(old(runtime)@)
            },
            PollEvent::Failed { retry } => {
                &&& final(runtime)@ == old(runtime)@
                &&& stage == if retry {
                    udp_round(old(runtime)@)
                } else {
                    UdpStage::Exited
                }
            },
        },
{
    match event {
        PollEvent::Got(PollOutcome::Ready) => {
            runtime.bump_tick(ticks);
            UdpStage::Receiving
        },
        PollEvent::Got(PollOutcome::Stopped) => begin_udp_round(runtime),
        PollEvent::Got(PollOutcome::TimedOut) => {
            runtime.bump_tick(ticks);
            look_after_timers(runtime, now_ms, out)
        },
        PollEvent::Failed { retry } => udp_failed(runtime, retry),
    }
}

/// Goes on after receiving a datagram failed.
pub fn udp_failed(runtime: &TunnelRuntime, retry: bool) -> (stage: UdpStage)
    ensures
        stage == if retry {
            udp_round(runtime@)
        } else {
            UdpStage::Exited
        },
{
    if retry {
        begin_udp_round(runtime)
    } else {
        UdpStage::Exited
    }
}

/// Goes on after a datagram was received. One that is not from the peer is ignored, and the timers
/// are not looked after on its account.
pub fn udp_received(
    runtime: &mut TunnelRuntime,
    source: PeerAddress,
    datagram: &[u8],
    out: &mut [u8],
) -> (stage: UdpStage)
    requires
        old(runtime)@.wf(),
        WG_BUFFER_SIZE <= old(out)@.len(),
        datagram@.len() <= old(out)@.len(),
    ensures
        final(runtime)@.wf(),
        final(out)@.len() == old(out)@.len(),
        !counter_in_range(datagram@) ==> final(runtime).connection() == old(runtime).connection(),
        source != old(runtime)@.peer ==> {
            &&& final(runtime)@ == old(runtime)@
            &&& final(runtime).connection() == old(runtime).connection()
            &&& stage == udp_round(old(runtime)@)
        },
        source == old(runtime)@.peer ==> {
            &&& final(runtime)@ == (RuntimeView {
                udp_read_packets: counted(old(runtime)@.udp_read_packets),
                tunn: final(runtime)@.tunn,
                ..old(runtime)@
            })
            &&& exists|outcome: TunnOutcome| #[trigger]
                datagram_taken(
                    old(runtime).connection(),
                    source,
                    datagram@,
                    outcome,
                    final(runtime).connection(),
                ) && stage == (UdpStage::Acting {
                    action: action_for(outcome, true),
                    data_came: message_type(datagram@) == Some(WG_MESSAGE_DATA),
                })
        },
{
    match runtime.receive_datagram(source, datagram, out) {
        Some(action) => UdpStage::Acting { action, data_came: holds_data(datagram) },
        None => begin_udp_round(runtime),
    }
}

/// A worker has sent the packet that has waited longest.
pub open spec fn flushed(
    tunn: Tunn,
    before: RuntimeView,
    data_came: bool,
    stage: UdpStage,
    left: Tunn,
    after: RuntimeView,
) -> bool {
    &&& after == (RuntimeView { tunn: after_flush(before.tunn), ..before })
    &&& exists|outcome: TunnOutcome| #[trigger]
        flush(tunn, outcome, left) && stage == (UdpStage::Flushing {
            action: action_for(outcome, true),
            again: outcome is WriteToNetwork,
            data_came,
        })
}

/// A tunnel after a datagram was dealt with, in which data came or did not.
pub open spec fn dealt_with(runtime: RuntimeView, data_came: bool, now_ms: u64) -> RuntimeView {
    if data_came {
        runtime.timer_set(KEEPALIVE_TIMEOUT_MS, now_ms)
    } else {
        runtime
    }
}

/// What a worker does after something was done with a packet. After a datagram, the packets that
/// waited are sent, one by one. When the last of them is sent, a timer is set where data came, and
/// the timers are looked after, one by one.
pub open spec fn acted(
    tunn: Tunn,
    before: RuntimeView,
    stage: UdpStage,
    performed: bool,
    now_ms: u64,
    next: UdpStage,
    left: Tunn,
    after: RuntimeView,
) -> bool {
    match stage {
        UdpStage::Acting { action, data_came } => flushed(
            tunn,
            before.completed(action, performed, now_ms),
            data_came,
            next,
            left,
            after,
        ),
        UdpStage::Flushing { action, again: true, data_came } => flushed(
            tunn,
            before.completed(action, performed, now_ms),
            data_came,
            next,
            left,
            after,
        ),
        UdpStage::Flushing { action, again: false, data_came } => timers_looked_after(
            tunn,
            dealt_with(before.completed(action, performed, now_ms), data_came, now_ms),
            now_ms,
            next,
            left,
            after,
        ),
        UdpStage::Timing(action) => timers_looked_after(
            tunn,
            before.timer_completed(action, performed, now_ms),
            now_ms,
            next,
            left,
            after,
        ),
        _ => after == before && left == tunn && next == udp_round(before),
    }
}

/// How often who waits for the earliest deadline must be woken after something was done with a
/// packet.
pub open spec fn acting_wakes(
    runtime: RuntimeView,
    stage: UdpStage,
    performed: bool,
    now_ms: u64,
) -> nat {
    match stage {
        UdpStage::Acting { action, .. } => runtime.completion_wakes(action, performed, now_ms),
        UdpStage::Flushing { action, again, data_came } => runtime.completion_wakes(
            action,
            performed,
            now_ms,
        ) + once(
            !again && data_came && is_earliest(
                runtime.completed(action, performed, now_ms).deadlines,
                KEEPALIVE_TIMEOUT_MS,
                now_ms,
            ),
        ),
        UdpStage::Timing(action) => runtime.timer_completion_wakes(action, performed, now_ms),
        _ => 0,
    }
}

/// Goes on after something was done with a packet, with success or without. Tells how often who
/// waits for the earliest deadline must be woken.
pub fn udp_acted(
    runtime: &mut TunnelRuntime,
    stage: UdpStage,
    performed: bool,
    now_ms: u64,
    out: &mut [u8],
) -> (next: (UdpStage, u8))
    requires
        old(runtime)@.wf(),
        WG_BUFFER_SIZE <= old(out)@.len(),
    ensures
        final(runtime)@.wf(),
        final(out)@.len() == old(out)@.len(),
        acted(
            old(runtime).connection(),
            old(runtime)@,
            stage,
            performed,
            now_ms,
            next.0,
            final(runtime).connection(),
            final(runtime)@,
        ),
        next.1 == acting_wakes(old(runtime)@, stage, performed, now_ms),
{
    match stage {
        UdpStage::Acting { action, data_came } => {
            let wakes: u8 = runtime.complete(&action, performed, now_ms);
            let (action, again) = runtime.flush_queued(out);
            (UdpStage::Flushing { action, again, data_came }, wakes)
        },
        UdpStage::Flushing { action, again, data_came } => {
            let mut wakes: u8 = runtime.complete(&action, performed, now_ms);
            if again {
                let (action, again) = runtime.flush_queued(out);
                return (UdpStage::Flushing { action, again, data_came }, wakes);
            }
            if data_came {
                if runtime.schedule_timer_after(KEEPALIVE_TIMEOUT_MS, now_ms) {
                    wakes = wakes + 1;
                }
            }
            (look_after_timers(runtime, now_ms, out), wakes)
        },
        UdpStage::Timing(action) => {
            let wakes: u8 = runtime.complete_timer(&action, performed, now_ms);
            (look_after_timers(runtime, now_ms, out), wakes)
        },
        _ => (begin_udp_round(runtime), 0),
    }
}

/// Looking after the timers comes to an end: each time, whatever was done on account of it, just
/// the earliest deadline leaves those that have passed. Only at the very last moment of the clock a
/// new timer goes off at once.
pub proof fn law_due_timers_run_out(
    runtime: RuntimeView,
    tunn: TunnState,
    action: PacketAction,
    performed: bool,
    now_ms: u64,
)
    requires
        increasing(runtime.deadlines),
        runtime.deadlines.len() <= MAX_DEADLINES,
        any_due(runtime.deadlines, now_ms),
        now_ms < u64::MAX,
    ensures
        ({
            let taken = RuntimeView {
                deadlines: without_due(runtime.deadlines, now_ms),
                tunn,
                ..runtime
            };
            let after = taken.timer_completed(action, performed, now_ms);
            &&& due(after.deadlines, now_ms) == due(runtime.deadlines, now_ms).remove(
                runtime.deadlines[0],
            )
            &&& due(after.deadlines, now_ms).len() + 1 == due(runtime.deadlines, now_ms).len()
        }),
{
    let taken = RuntimeView { deadlines: without_due(runtime.deadlines, now_ms), tunn, ..runtime };
    let after = taken.timer_completed(action, performed, now_ms);
    let first = runtime.deadlines[0];
    let i = choose|i: int|
        0 <= i < runtime.deadlines.len() && #[trigger] runtime.deadlines[i] <= now_ms;
    assert(first <= now_ms);
    assert(due(runtime.deadlines, now_ms).contains(first));
    assert(due(taken.deadlines, now_ms) =~= due(runtime.deadlines, now_ms).remove(first)) by {
        assert forall|d: u64| runtime.deadlines.contains(d) && d != first implies
            taken.deadlines.contains(d) by {
            let j = choose|j: int| 0 <= j < runtime.deadlines.len() && runtime.deadlines[j] == d;
            assert(taken.deadlines[j - 1] == d);
        }
        assert forall|d: u64| taken.deadlines.contains(d) implies runtime.deadlines.contains(d)
            && d != first by {
            let j = choose|j: int| 0 <= j < taken.deadlines.len() && taken.deadlines[j] == d;
            assert(runtime.deadlines[j + 1] == d);
        }
    }
    if let PacketAction::SendToPeer(data) = action {
        if let Some(delay_ms) = timer_delay(data@) {
            law_new_timer_keeps_what_is_due(taken.deadlines, delay_ms, now_ms);
        }
        let noted = RuntimeView { last_network_send_ms: now_ms, ..taken };
        law_new_timer_keeps_what_is_due(
            noted.send_timer_set(data@, now_ms).deadlines,
            runtime.persistent_keepalive_ms,
            now_ms,
        );
    }
    law_new_timer_keeps_what_is_due(taken.deadlines, runtime.persistent_keepalive_ms, now_ms);
}

/// What happens to a tunnel while its TUN device is read.
pub ghost enum TunEvent {
    /// The worker was woken.
    Woken,
    /// A packet was read, or nothing.
    Read(Seq<u8>),
    /// What came of a packet was dealt with, with success or without.
    Acted { outcome: TunnOutcome, performed: bool, now_ms: u64 },
}

/// A tunnel after one event.
pub open spec fn after_tun_event(runtime: RuntimeView, event: TunEvent) -> RuntimeView {
    match event {
        TunEvent::Woken => woken(runtime),
        TunEvent::Read(packet) => runtime.packet_read(packet),
        TunEvent::Acted { outcome, performed, now_ms } => runtime.completed(
            action_for(outcome, false),
            performed,
            now_ms,
        ),
    }
}

/// A tunnel after a run of events.
pub open spec fn after_tun_run(runtime: RuntimeView, events: Seq<TunEvent>) -> RuntimeView
    decreases events.len(),
{
    if events.len() == 0 {
        runtime
    } else {
        after_tun_event(after_tun_run(runtime, events.drop_last()), events.last())
    }
}

/// Whether an event is that a packet was read.
pub open spec fn is_packet(event: TunEvent) -> bool {
    event matches TunEvent::Read(packet) && packet.len() > 0
}

/// Whether an event is that a quiet packet was read.
pub open spec fn is_quiet_packet(event: TunEvent) -> bool {
    event matches TunEvent::Read(packet) && packet.len() > 0 && is_quiet(packet)
}

/// How many packets were read in a run.
pub open spec fn packets_in(events: Seq<TunEvent>) -> nat
    decreases events.len(),
{
    if events.len() == 0 {
        0
    } else {
        packets_in(events.drop_last()) + once(is_packet(events.last()))
    }
}

/// How many quiet packets were read in a run.
pub open spec fn quiet_packets_in(events: Seq<TunEvent>) -> nat
    decreases events.len(),
{
    if events.len() == 0 {
        0
    } else {
        quiet_packets_in(events.drop_last()) + once(is_quiet_packet(events.last()))
    }
}

/// Reading the TUN device for any time counts each packet that was read and each quiet one among
/// them, and nothing that was received or written. In a session one message is sent for each of the
/// others.
pub proof fn law_tun_run_is_counted(runtime: RuntimeView, events: Seq<TunEvent>)
    requires
        runtime.tun_read_packets + packets_in(events) <= u64::MAX,
        runtime.tun_dropped_packets + quiet_packets_in(events) <= u64::MAX,
        runtime.tunn.sent + packets_in(events) <= u64::MAX,
    ensures
        ({
            let after = after_tun_run(runtime, events);
            &&& after.tun_read_packets == runtime.tun_read_packets + packets_in(events)
            &&& after.tun_dropped_packets == runtime.tun_dropped_packets + quiet_packets_in(events)
            &&& after.udp_read_packets == runtime.udp_read_packets
            &&& after.tun_write_packets == runtime.tun_write_packets
            &&& after.tun_write_last == runtime.tun_write_last
            &&& quiet_packets_in(events) <= packets_in(events)
            &&& runtime.tun_dropped_packets <= runtime.tun_read_packets
                ==> after.tun_dropped_packets <= after.tun_read_packets
            &&& runtime.tunn.session ==> after.tunn.session && after.tunn.sent
                == runtime.tunn.sent + packets_in(events) - quiet_packets_in(events)
        }),
    decreases events.len(),
{
    if events.len() > 0 {
        law_tun_run_is_counted(runtime, events.drop_last());
    }
}

/// What happens to the tunnels.
pub ghost enum TickEvent {
    /// One more is made.
    Made(RuntimeView),
    /// A worker of one is woken.
    Woken(int),
    /// Something else happens to one, such as that it is stopped.
    Changed(int, RuntimeView),
}

/// Whether something can happen to the tunnels. Nothing but that a worker is woken changes a count.
pub open spec fn can_happen(tunnels: Seq<RuntimeView>, event: TickEvent) -> bool {
    match event {
        TickEvent::Made(runtime) => runtime.tick_count == 0,
        TickEvent::Woken(i) => 0 <= i < tunnels.len(),
        TickEvent::Changed(i, runtime) => 0 <= i < tunnels.len() && runtime.tick_count
            == tunnels[i].tick_count,
    }
}

/// The tunnels after something happened, those that were stopped among them.
pub open spec fn tunnels_after(tunnels: Seq<RuntimeView>, event: TickEvent) -> Seq<RuntimeView> {
    match event {
        TickEvent::Made(runtime) => tunnels.push(runtime),
        TickEvent::Woken(i) => tunnels.update(i, woken(tunnels[i])),
        TickEvent::Changed(i, runtime) => tunnels.update(i, runtime),
    }
}

/// The common counter after something happened.
pub open spec fn ticks_after(ticks: u64, event: TickEvent) -> u64 {
    if event is Woken {
        counted(ticks)
    } else {
        ticks
    }
}

/// Whether `tunnels` and `ticks` list what the tunnels and the common counter were in turn, while
/// `events` happened.
pub open spec fn is_tick_run(
    tunnels: Seq<Seq<RuntimeView>>,
    ticks: Seq<u64>,
    events: Seq<TickEvent>,
) -> bool {
    &&& tunnels.len() == events.len() + 1
    &&& ticks.len() == events.len() + 1
    &&& forall|i: int|
        0 <= i < events.len() ==> {
            &&& can_happen(tunnels[i], #[trigger] events[i])
            &&& tunnels[i + 1] == tunnels_after(tunnels[i], events[i])
            &&& ticks[i + 1] == ticks_after(ticks[i], events[i])
        }
}

/// How often the workers of the tunnels were woken, all together.
pub open spec fn tick_sum(tunnels: Seq<RuntimeView>) -> nat
    decreases tunnels.len(),
{
    if tunnels.len() == 0 {
        0
    } else {
        tick_sum(tunnels.drop_last()) + tunnels.last().tick_count as nat
    }
}

/// Where one tunnel is another, the sum differs by what its count does.
proof fn lemma_tick_sum_updated(tunnels: Seq<RuntimeView>, i: int, runtime: RuntimeView)
    requires
        0 <= i < tunnels.len(),
    ensures
        tick_sum(tunnels.update(i, runtime)) + tunnels[i].tick_count == tick_sum(tunnels)
            + runtime.tick_count,
        tunnels[i].tick_count <= tick_sum(tunnels),
    decreases tunnels.len(),
{
    let updated = tunnels.update(i, runtime);
    if i < tunnels.len() - 1 {
        lemma_tick_sum_updated(tunnels.drop_last(), i, runtime);
        assert(updated.drop_last() =~= tunnels.drop_last().update(i, runtime));
    } else {
        assert(updated.drop_last() =~= tunnels.drop_last());
    }
}

/// The common counter is the sum of the counts of all tunnels that were ever made, those that were
/// stopped among them, as long as it has not run full. It never falls, and it is no lower than the
/// count of any tunnel.
pub proof fn law_ticks_add_up(
    tunnels: Seq<Seq<RuntimeView>>,
    ticks: Seq<u64>,
    events: Seq<TickEvent>,
)
    requires
        is_tick_run(tunnels, ticks, events),
        ticks[0] == tick_sum(tunnels[0]),
        ticks[0] + events.len() <= u64::MAX,
    ensures
        ticks.last() == tick_sum(tunnels.last()),
        ticks[0] <= ticks.last() <= ticks[0] + events.len(),
        forall|i: int|
            0 <= i < tunnels.last().len() ==> (#[trigger] tunnels.last()[i]).tick_count
                <= ticks.last(),
    decreases events.len(),
{
    if events.len() > 0 {
        let n = events.len() - 1;
        let before = tunnels.drop_last();
        assert forall|i: int| 0 <= i < n implies {
            &&& can_happen(before[i], #[trigger] events.drop_last()[i])
            &&& before[i + 1] == tunnels_after(before[i], events.drop_last()[i])
            &&& ticks.drop_last()[i + 1] == ticks_after(ticks.drop_last()[i], events.drop_last()[i])
        } by {
            assert(events.drop_last()[i] == events[i]);
        }
        law_ticks_add_up(before, ticks.drop_last(), events.drop_last());
        let event = events[n];
        let last = tunnels[n];
        assert(can_happen(last, event));
        match event {
            TickEvent::Made(runtime) => {
                assert(last.push(runtime).drop_last() =~= last);
            },
            TickEvent::Woken(i) => {
                lemma_tick_sum_updated(last, i, woken(last[i]));
            },
            TickEvent::Changed(i, runtime) => {
                lemma_tick_sum_updated(last, i, runtime);
            },
        }
    }
    let all = tunnels.last();
    assert forall|i: int| 0 <= i < all.len() implies (#[trigger] all[i]).tick_count
        <= ticks.last() by {
        lemma_tick_sum_updated(all, i, all[i]);
    }
}

/// The workers of a tunnel that was stopped begin no other round.
pub proof fn law_stopped_workers_end(runtime: RuntimeView)
    requires
        !runtime.running,
    ensures
        tun_round(runtime) is Exited,
        udp_round(runtime) is Exited,
{
}

/// A worker that was woken is counted, and nothing else changes.
pub proof fn law_woken_worker_is_counted(runtime: RuntimeView)
    requires
        runtime.tick_count < 0xffff_ffff_ffff_ffff,
    ensures
        woken(runtime).tick_count == runtime.tick_count + 1,
        woken(runtime) == (RuntimeView { tick_count: woken(runtime).tick_count, ..runtime }),
{
}

/// The workers of a tunnel that is running begin a round by waiting.
pub proof fn law_running_workers_wait(runtime: RuntimeView)
    requires
        runtime.running,
    ensures
        tun_round(runtime) is Polling,
        udp_round(runtime) is Polling,
{
}

/// After data came, the timers are looked at in ten seconds: this deadline comes to those that are
/// pending, of which none is given up that is not later than sixteen others. Where none came,
/// nothing changes.
pub proof fn law_data_is_followed_up(runtime: RuntimeView, now_ms: u64, d: u64)
    requires
        now_ms + 10_000 <= u64::MAX,
    ensures
        dealt_with(runtime, false, now_ms) == runtime,
        ({
            let after = dealt_with(runtime, true, now_ms);
            let wanted = runtime.deadlines.contains(d) || d == now_ms + 10_000;
            &&& after == (RuntimeView { deadlines: after.deadlines, ..runtime })
            &&& after.deadlines.contains(d) ==> wanted
            &&& wanted && !after.deadlines.contains(d) ==> after.deadlines.len() == 16
                && forall|i: int| 0 <= i < 16 ==> #[trigger] after.deadlines[i] < d
        }),
{
    law_timer_is_set_among_others(runtime.deadlines, 10_000, now_ms, d);
}

/// After a datagram was dealt with, what waited is sent until nothing is sent any more, and whether
/// data came is remembered so long.
pub proof fn law_waiting_packets_follow_a_datagram(
    tunn: Tunn,
    before: RuntimeView,
    stage: UdpStage,
    performed: bool,
    now_ms: u64,
    next: UdpStage,
    left: Tunn,
    after: RuntimeView,
)
    requires
        acted(tunn, before, stage, performed, now_ms, next, left, after),
    ensures
        stage matches UdpStage::Acting { action, data_came } ==> (next matches UdpStage::Flushing {
            action: flushed,
            again,
            data_came: remembered,
        } && remembered == data_came && again == (flushed is SendToPeer)),
        stage matches UdpStage::Flushing { action, again: true, data_came } ==> (
        next matches UdpStage::Flushing {
            action: flushed,
            again,
            data_came: remembered,
        } && remembered == data_came && again == (flushed is SendToPeer)),
        stage matches UdpStage::Flushing { action, again: false, data_came } ==> next is Timing
            || next is Polling || next is Exited,
        stage is Timing ==> next is Timing || next is Polling || next is Exited,
        after.peer == before.peer,
        after.mtu == before.mtu,
        after.running == before.running,
        after.tick_count == before.tick_count,
        after.tun_read_packets == before.tun_read_packets,
        after.tun_dropped_packets == before.tun_dropped_packets,
        after.udp_read_packets == before.udp_read_packets,
        after.tun_read_last == before.tun_read_last,
{
}

/// After the last of the packets that waited, the timers are looked after where the first deadline
/// has passed, which leaves with that, and else a round begins, if the tunnel is still running.
pub proof fn law_first_deadline_is_looked_after(
    tunn: Tunn,
    before: RuntimeView,
    now_ms: u64,
    stage: UdpStage,
    left: Tunn,
    after: RuntimeView,
)
    requires
        timers_looked_after(tunn, before, now_ms, stage, left, after),
        forall|i: int, j: int|
            0 <= i < j < before.deadlines.len() ==> before.deadlines[i] < before.deadlines[j],
    ensures
        before.deadlines.len() > 0 && before.deadlines[0] <= now_ms ==> seq![before.deadlines[0]]
            + after.deadlines == before.deadlines,
        before.deadlines.len() > 0 && before.deadlines[0] <= now_ms ==> exists|outcome: TunnOutcome|
            #[trigger]
            timers_updated(tunn, outcome, left) && stage == UdpStage::Timing(
                action_for(outcome, false),
            ),
        before.deadlines.len() == 0 || now_ms < before.deadlines[0] ==> {
            &&& after.deadlines == before.deadlines
            &&& left == tunn
            &&& before.running ==> stage is Polling
            &&& !before.running ==> stage is Exited
        },
        after == (RuntimeView { deadlines: after.deadlines, tunn: after.tunn, ..before }),
{
    law_earliest_deadline_is_served(before.deadlines, now_ms);
}

/// Who waits is woken for the ten seconds after data came exactly when they are over before the
/// first deadline, and not before the last of the packets that waited.
pub proof fn law_data_wakes(runtime: RuntimeView, performed: bool, now_ms: u64)
    requires
        forall|i: int, j: int|
            0 <= i < j < runtime.deadlines.len() ==> runtime.deadlines[i] < runtime.deadlines[j],
        now_ms + 10_000 <= u64::MAX,
    ensures
        ({
            let earlier = runtime.deadlines.len() == 0 || now_ms + 10_000 < runtime.deadlines[0];
            let idle = PacketAction::Idle;
            &&& acting_wakes(
                runtime,
                (UdpStage::Flushing { action: idle, again: false, data_came: true }),
                performed,
                now_ms,
            ) == if earlier { 1nat } else { 0nat }
            &&& acting_wakes(
                runtime,
                (UdpStage::Flushing { action: idle, again: true, data_came: true }),
                performed,
                now_ms,
            ) == 0
            &&& acting_wakes(
                runtime,
                (UdpStage::Flushing { action: idle, again: false, data_came: false }),
                performed,
                now_ms,
            ) == 0
            &&& acting_wakes(
                runtime,
                (UdpStage::Acting { action: idle, data_came: true }),
                performed,
                now_ms,
            ) == 0
        }),
{
    law_earlier_timer_wakes(runtime.deadlines, 10_000, now_ms);
}

/// Whatever a worker has done is noted before it goes on: the action first, then what follows from
/// it.
pub proof fn law_actions_are_noted(
    tunn: Tunn,
    before: RuntimeView,
    stage: UdpStage,
    performed: bool,
    now_ms: u64,
    next: UdpStage,
    left: Tunn,
    after: RuntimeView,
)
    requires
        acted(tunn, before, stage, performed, now_ms, next, left, after),
    ensures
        stage matches UdpStage::Acting { action, data_came } ==> {
            &&& after == (RuntimeView {
                tunn: after.tunn,
                ..before.completed(action, performed, now_ms)
            })
            &&& exists|outcome: TunnOutcome| #[trigger]
                flush(tunn, outcome, left) && next == (UdpStage::Flushing {
                    action: action_for(outcome, true),
                    again: outcome is WriteToNetwork,
                    data_came,
                })
            &&& acting_wakes(before, stage, performed, now_ms) == before.completion_wakes(
                action,
                performed,
                now_ms,
            )
        },
        stage matches UdpStage::Flushing { action, again: true, data_came } ==> {
            &&& after == (RuntimeView {
                tunn: after.tunn,
                ..before.completed(action, performed, now_ms)
            })
            &&& exists|outcome: TunnOutcome| #[trigger]
                flush(tunn, outcome, left) && next == (UdpStage::Flushing {
                    action: action_for(outcome, true),
                    again: outcome is WriteToNetwork,
                    data_came,
                })
            &&& acting_wakes(before, stage, performed, now_ms) == before.completion_wakes(
                action,
                performed,
                now_ms,
            )
        },
        stage matches UdpStage::Flushing { action, again: false, data_came: false } ==> {
            &&& timers_looked_after(
                tunn,
                before.completed(action, performed, now_ms),
                now_ms,
                next,
                left,
                after,
            )
            &&& acting_wakes(before, stage, performed, now_ms) == before.completion_wakes(
                action,
                performed,
                now_ms,
            )
        },
        stage matches UdpStage::Flushing { action, again: false, data_came: true } ==> {
            let noted = before.completed(action, performed, now_ms);
            &&& timers_looked_after(
                tunn,
                dealt_with(noted, true, now_ms),
                now_ms,
                next,
                left,
                after,
            )
            &&& acting_wakes(before, stage, performed, now_ms) == before.completion_wakes(
                action,
                performed,
                now_ms,
            ) + if is_earliest(noted.deadlines, 10_000, now_ms) { 1nat } else { 0nat }
        },
        stage matches UdpStage::Timing(action) ==> {
            &&& timers_looked_after(
                tunn,
                before.timer_completed(action, performed, now_ms),
                now_ms,
                next,
                left,
                after,
            )
            &&& acting_wakes(before, stage, performed, now_ms) == before.timer_completion_wakes(
                action,
                performed,
                now_ms,
            )
        },
        stage is Polling || stage is Receiving || stage is Exited ==> {
            &&& after == before
            &&& left == tunn
            &&& next == udp_round(before)
            &&& acting_wakes(before, stage, performed, now_ms) == 0
        },
{
}

} // verus!
