//! Starting a tunnel, step by step.

use vstd::prelude::*;

use crate::error::TunnelError;
use crate::runtime::{action_for, PacketAction, RuntimeView, TunnelRuntime};
use crate::wireguard::{handshake_start, tunn_counters, TunnOutcome, WG_BUFFER_SIZE};

verus! {

/// A step of starting a tunnel. Each can fail.
#[derive(Clone, Copy, Debug, PartialEq, Eq, Structural)]
pub enum StartStep {
    /// Make the TUN device nonblocking.
    SetTunNonblocking,
    /// Duplicate the descriptor of the TUN device, once to read and once to write.
    DuplicateTun,
    /// Make the reading duplicate nonblocking.
    SetReadNonblocking,
    /// Make the writing duplicate nonblocking.
    SetWriteNonblocking,
    /// Clone the socket to receive from.
    CloneReadSocket,
    /// Clone the socket to send to.
    CloneWriteSocket,
    /// Open the pipe that stops the worker of the TUN device.
    OpenTunStopPipe,
    /// Open the pipe that stops and wakes the worker of the socket.
    OpenUdpStopPipe,
    /// Make that pipe known to those who set timers.
    SetTimerWake,
    /// Spawn the worker of the TUN device.
    SpawnTunWorker,
    /// Spawn the worker of the socket.
    SpawnUdpWorker,
    /// Lock the list of workers.
    LockWorkers,
    /// Lock the list of pipes.
    LockStopWriters,
}

/// What to undo when a step has failed.
#[derive(Clone, Copy, Debug, PartialEq, Eq, Structural)]
pub struct StartCleanup {
    /// Close the descriptor of the TUN device.
    pub close_tun: bool,
    /// Close those duplicates of it that were made.
    pub close_duplicates: bool,
    /// Make the pipe unknown to those who set timers.
    pub clear_timer_wake: bool,
    /// Signal the worker of the TUN device to stop, and wait for it.
    pub stop_tun_worker: bool,
    /// Signal the worker of the socket to stop, and wait for it.
    pub stop_udp_worker: bool,
}

/// What to do when a tunnel is to be started.
#[derive(Clone, Copy, Debug, PartialEq, Eq, Structural)]
pub enum StartDecision {
    /// Report an error.
    Refuse(TunnelError),
    /// Close the descriptor; there is nothing to start.
    AlreadyRunning,
    /// Take the first step.
    Begin(StartStep),
}

/// What to do when a step was taken.
#[derive(Clone, Copy, Debug, PartialEq, Eq, Structural)]
pub enum StartProgress {
    /// Take the next step, and before that close the descriptor of the TUN device where it has been
    /// duplicated.
    Next { step: StartStep, close_tun: bool },
    /// Keep the workers and the pipes; the tunnel is running.
    Started,
    /// Undo what was done, and report the error of the step.
    Failed(StartCleanup),
}

/// The place of a step in the order of steps.
pub open spec fn place(step: StartStep) -> int {
    match step {
        StartStep::SetTunNonblocking => 0,
        StartStep::DuplicateTun => 1,
        StartStep::SetReadNonblocking => 2,
        StartStep::SetWriteNonblocking => 3,
        StartStep::CloneReadSocket => 4,
        StartStep::CloneWriteSocket => 5,
        StartStep::OpenTunStopPipe => 6,
        StartStep::OpenUdpStopPipe => 7,
        StartStep::SetTimerWake => 8,
        StartStep::SpawnTunWorker => 9,
        StartStep::SpawnUdpWorker => 10,
        StartStep::LockWorkers => 11,
        StartStep::LockStopWriters => 12,
    }
}

/// Whether one step has been taken when another one is.
pub open spec fn taken_before(step: StartStep, other: StartStep) -> bool {
    place(step) < place(other)
}

/// What to undo when a step fails: to stop the workers that were spawned, and to take back the pipe
/// that was made known. The descriptor of the TUN device is closed where it could not be used at
/// all, and its duplicates where one of them could not be made.
pub open spec fn cleanup_after(step: StartStep) -> StartCleanup {
    StartCleanup {
        close_tun: step == StartStep::SetTunNonblocking,
        close_duplicates: step == StartStep::DuplicateTun,
        clear_timer_wake: taken_before(StartStep::SetTimerWake, step),
        stop_tun_worker: taken_before(StartStep::SpawnTunWorker, step),
        stop_udp_worker: taken_before(StartStep::SpawnUdpWorker, step),
    }
}

/// Whether `progress` is right for a step that was taken, with success or without.
pub open spec fn follows(step: StartStep, succeeded: bool, progress: StartProgress) -> bool {
    match progress {
        StartProgress::Next { step: next, close_tun } => {
            &&& succeeded
            &&& place(next) == place(step) + 1
            &&& close_tun == (step == StartStep::DuplicateTun)
        },
        StartProgress::Started => succeeded && step == StartStep::LockStopWriters,
        StartProgress::Failed(cleanup) => !succeeded && cleanup == cleanup_after(step),
    }
}

/// Decides whether a tunnel is started on a TUN device, and marks it as running where it is.
pub fn start_tunnel(runtime: &mut TunnelRuntime, tun_fd: i32) -> (decision: StartDecision)
    ensures
        final(runtime).connection() == old(runtime).connection(),
        decision == if tun_fd < 0 {
            StartDecision::Refuse(TunnelError::InvalidTunFd)
        } else if old(runtime)@.running {
            StartDecision::AlreadyRunning
        } else {
            StartDecision::Begin(StartStep::SetTunNonblocking)
        },
        final(runtime)@ == if tun_fd < 0 {
            old(runtime)@
        } else {
            (RuntimeView { running: true, ..old(runtime)@ })
        },
{
    if tun_fd < 0 {
        return StartDecision::Refuse(TunnelError::InvalidTunFd);
    }
    if runtime.mark_running() {
        return StartDecision::AlreadyRunning;
    }
    StartDecision::Begin(StartStep::SetTunNonblocking)
}

/// The step after a step, where there is one.
fn next_step(step: StartStep) -> (next: Option<StartStep>)
    ensures
        match next {
            Some(next) => place(next) == place(step) + 1,
            None => step == StartStep::LockStopWriters,
        },
{
    match step {
        StartStep::SetTunNonblocking => Some(StartStep::DuplicateTun),
        StartStep::DuplicateTun => Some(StartStep::SetReadNonblocking),
        StartStep::SetReadNonblocking => Some(StartStep::SetWriteNonblocking),
        StartStep::SetWriteNonblocking => Some(StartStep::CloneReadSocket),
        StartStep::CloneReadSocket => Some(StartStep::CloneWriteSocket),
        StartStep::CloneWriteSocket => Some(StartStep::OpenTunStopPipe),
        StartStep::OpenTunStopPipe => Some(StartStep::OpenUdpStopPipe),
        StartStep::OpenUdpStopPipe => Some(StartStep::SetTimerWake),
        StartStep::SetTimerWake => Some(StartStep::SpawnTunWorker),
        StartStep::SpawnTunWorker => Some(StartStep::SpawnUdpWorker),
        StartStep::SpawnUdpWorker => Some(StartStep::LockWorkers),
        StartStep::LockWorkers => Some(StartStep::LockStopWriters),
        StartStep::LockStopWriters => None,
    }
}

/// What to undo when a step has failed.
fn cleanup(step: StartStep) -> (cleanup: StartCleanup)
    ensures
        cleanup == cleanup_after(step),
{
    let udp_worker: bool = match step {
        StartStep::LockWorkers | StartStep::LockStopWriters => true,
        _ => false,
    };
    let tun_worker: bool = udp_worker || step == StartStep::SpawnUdpWorker;
    let timer_wake: bool = tun_worker || step == StartStep::SpawnTunWorker;
    StartCleanup {
        close_tun: step == StartStep::SetTunNonblocking,
        close_duplicates: step == StartStep::DuplicateTun,
        clear_timer_wake: timer_wake,
        stop_tun_worker: tun_worker,
        stop_udp_worker: udp_worker,
    }
}

/// Decides what comes after a step. A tunnel whose start fails is not running.
pub fn start_step_taken(runtime: &mut TunnelRuntime, step: StartStep, succeeded: bool) -> (progress:
    StartProgress)
    ensures
        final(runtime).connection() == old(runtime).connection(),
        follows(step, succeeded, progress),
        final(runtime)@ == if succeeded {
            old(runtime)@
        } else {
            (RuntimeView { running: false, ..old(runtime)@ })
        },
{
    if !succeeded {
        runtime.stop();
        return StartProgress::Failed(cleanup(step));
    }
    match next_step(step) {
        Some(next) => StartProgress::Next {
            step: next,
            close_tun: step == StartStep::DuplicateTun,
        },
        None => StartProgress::Started,
    }
}

/// Begins the traffic of a tunnel that was started: sets a timer for the persistent keepalive, and
/// asks for the first handshake. Tells whether who waits for the earliest deadline must be woken.
pub fn begin_traffic(runtime: &mut TunnelRuntime, now_ms: u64, out: &mut [u8]) -> (begun: (
    PacketAction,
    bool,
))
    requires
        WG_BUFFER_SIZE <= old(out)@.len(),
    ensures
        final(runtime)@ == old(runtime)@.keepalive_set(now_ms).handshake_begun(false),
        tunn_counters(final(runtime).connection()) == tunn_counters(old(runtime).connection()),
        final(out)@.len() == old(out)@.len(),
        exists|outcome: TunnOutcome| #[trigger]
            handshake_start(old(runtime)@.tunn, false, outcome) && begun.0 == action_for(
                outcome,
                false,
            ),
        begun.1 == old(runtime)@.keepalive_is_earliest(now_ms),
{
    let wake: bool = runtime.schedule_persistent_keepalive(now_ms);
    (runtime.send_initial_handshake(out), wake)
}

/// What comes after a step is determined by the step and by whether it succeeded.
pub proof fn law_start_is_determined(
    step: StartStep,
    succeeded: bool,
    one: StartProgress,
    other: StartProgress,
)
    requires
        follows(step, succeeded, one),
        follows(step, succeeded, other),
    ensures
        one == other,
{
}

/// A start comes to an end: each step that succeeds brings it closer, the last one completes it,
/// and one that fails ends it.
pub proof fn law_start_ends(step: StartStep, succeeded: bool, progress: StartProgress)
    requires
        follows(step, succeeded, progress),
    ensures
        progress is Failed <==> !succeeded,
        progress is Started <==> succeeded && place(step) == 12,
        progress matches StartProgress::Next { step: next, .. } ==> place(step) < place(next) <= 12,
{
}

/// A failed start stops every worker that was spawned before the failure, and leaves none of them
/// a pipe that is about to be closed.
pub proof fn law_failed_start_leaves_no_worker(step: StartStep)
    ensures
        cleanup_after(step).stop_tun_worker <==> taken_before(StartStep::SpawnTunWorker, step),
        cleanup_after(step).stop_udp_worker <==> taken_before(StartStep::SpawnUdpWorker, step),
        cleanup_after(step).stop_udp_worker ==> cleanup_after(step).stop_tun_worker,
        cleanup_after(step).stop_tun_worker ==> cleanup_after(step).clear_timer_wake,
        cleanup_after(step).clear_timer_wake ==> taken_before(StartStep::SetTimerWake, step),
{
}

/// The order of the steps of a start: each that succeeds is followed by the next, and after the
/// last the tunnel is started. The descriptor of the TUN device is closed when its duplicates were
/// made.
pub proof fn law_order_of_the_steps(step: StartStep, progress: StartProgress)
    requires
        follows(step, true, progress),
    ensures
        match progress {
            StartProgress::Next { step: next, close_tun } => match step {
                StartStep::SetTunNonblocking => next == StartStep::DuplicateTun && !close_tun,
                StartStep::DuplicateTun => next == StartStep::SetReadNonblocking && close_tun,
                StartStep::SetReadNonblocking => next == StartStep::SetWriteNonblocking
                    && !close_tun,
                StartStep::SetWriteNonblocking => next == StartStep::CloneReadSocket && !close_tun,
                StartStep::CloneReadSocket => next == StartStep::CloneWriteSocket && !close_tun,
                StartStep::CloneWriteSocket => next == StartStep::OpenTunStopPipe && !close_tun,
                StartStep::OpenTunStopPipe => next == StartStep::OpenUdpStopPipe && !close_tun,
                StartStep::OpenUdpStopPipe => next == StartStep::SetTimerWake && !close_tun,
                StartStep::SetTimerWake => next == StartStep::SpawnTunWorker && !close_tun,
                StartStep::SpawnTunWorker => next == StartStep::SpawnUdpWorker && !close_tun,
                StartStep::SpawnUdpWorker => next == StartStep::LockWorkers && !close_tun,
                StartStep::LockWorkers => next == StartStep::LockStopWriters && !close_tun,
                StartStep::LockStopWriters => false,
            },
            StartProgress::Started => step == StartStep::LockStopWriters,
            StartProgress::Failed(_) => false,
        },
{
}

/// What a failed start undoes: workers are stopped where they had been spawned, the pipe is taken
/// back where it had been made known, and descriptors are closed where the very first steps fail.
pub proof fn law_what_a_failed_start_undoes(step: StartStep, progress: StartProgress)
    requires
        follows(step, false, progress),
    ensures
        progress matches StartProgress::Failed(cleanup) && {
            let workers_locked = step == StartStep::LockWorkers || step
                == StartStep::LockStopWriters;
            &&& cleanup.close_tun == (step == StartStep::SetTunNonblocking)
            &&& cleanup.close_duplicates == (step == StartStep::DuplicateTun)
            &&& cleanup.stop_udp_worker == workers_locked
            &&& cleanup.stop_tun_worker == (workers_locked || step == StartStep::SpawnUdpWorker)
            &&& cleanup.clear_timer_wake == (workers_locked || step == StartStep::SpawnUdpWorker
                || step == StartStep::SpawnTunWorker)
        },
{
}

} // verus!
