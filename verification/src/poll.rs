//! What the results of system calls on file descriptors mean.

use vstd::prelude::*;

verus! {

/// Why a system call failed.
#[derive(Clone, Copy, Debug, PartialEq, Eq, Structural)]
pub enum SystemFault {
    /// It would have had to wait.
    WouldBlock,
    /// A signal came in between.
    Interrupted,
    /// Anything else.
    Other,
}

/// Whether a fault passes, so that the call can be tried once more.
pub fn is_retry(fault: SystemFault) -> (retry: bool)
    ensures
        retry == (fault != SystemFault::Other),
{
    match fault {
        SystemFault::WouldBlock | SystemFault::Interrupted => true,
        SystemFault::Other => false,
    }
}

/// What a worker waited for and got.
#[derive(Clone, Copy, Debug, PartialEq, Eq, Structural)]
pub enum PollOutcome {
    /// There is something to read.
    Ready,
    /// The worker was told to stop, or woken.
    Stopped,
    /// The time is up.
    TimedOut,
}

/// The bits of `poll` on this machine.
#[derive(Clone, Copy, Debug, PartialEq, Eq, Structural)]
pub struct PollMasks {
    /// There is something to read.
    pub readable: i16,
    /// An error, the other end is closed, or the descriptor is not open.
    pub broken: i16,
}

/// What is to be made of a `poll`.
#[derive(Clone, Copy, Debug, PartialEq, Eq, Structural)]
pub enum PollReport {
    /// It failed: report the error of the system.
    Failed,
    /// The descriptor is broken: report an input/output error.
    Broken,
    /// It gave an outcome. Where `drain` says so, the descriptor that stops the worker is to be
    /// read empty.
    Got { outcome: PollOutcome, drain: bool },
}

/// Whether events have a bit of a mask.
pub open spec fn meets(events: i16, mask: i16) -> bool {
    events & mask != 0
}

/// What is to be made of a `poll` of a descriptor beside the one that stops the worker. To be
/// stopped comes before anything to read, and anything to read before an error.
pub open spec fn poll_report(
    result: i32,
    events: i16,
    stop_events: i16,
    masks: PollMasks,
) -> PollReport {
    if result < 0 {
        PollReport::Failed
    } else if result == 0 {
        PollReport::Got { outcome: PollOutcome::TimedOut, drain: false }
    } else if meets(stop_events, masks.readable | masks.broken) {
        PollReport::Got { outcome: PollOutcome::Stopped, drain: true }
    } else if meets(events, masks.readable) {
        PollReport::Got { outcome: PollOutcome::Ready, drain: false }
    } else if meets(events, masks.broken) {
        PollReport::Broken
    } else {
        PollReport::Got { outcome: PollOutcome::Stopped, drain: false }
    }
}

/// Decides what is to be made of a `poll`, given what it returned and the events of the two
/// descriptors.
pub fn poll_readable_or_stop(
    result: i32,
    events: i16,
    stop_events: i16,
    masks: PollMasks,
) -> (report: PollReport)
    ensures
        report == poll_report(result, events, stop_events, masks),
{
    if result < 0 {
        return PollReport::Failed;
    }
    if result == 0 {
        return PollReport::Got { outcome: PollOutcome::TimedOut, drain: false };
    }
    if stop_events & (masks.readable | masks.broken) != 0 {
        return PollReport::Got { outcome: PollOutcome::Stopped, drain: true };
    }
    if events & masks.readable != 0 {
        return PollReport::Got { outcome: PollOutcome::Ready, drain: false };
    }
    if events & masks.broken != 0 {
        return PollReport::Broken;
    }
    PollReport::Got { outcome: PollOutcome::Stopped, drain: false }
}

/// Where there is something to do besides, a worker that is told to stop is told so.
pub proof fn law_stop_comes_first(
    result: i32,
    events: i16,
    other_events: i16,
    stop_events: i16,
    masks: PollMasks,
)
    requires
        result > 0,
        meets(stop_events, masks.readable | masks.broken),
    ensures
        poll_report(result, events, stop_events, masks) == poll_report(
            result,
            other_events,
            stop_events,
            masks,
        ),
        poll_report(result, events, stop_events, masks) == (PollReport::Got {
            outcome: PollOutcome::Stopped,
            drain: true,
        }),
{
}

/// How many bytes a `read` gave, where it did not fail.
pub fn read_fd(result: isize) -> (size: Option<usize>)
    ensures
        size == if result < 0 {
            None
        } else {
            Some(result as usize)
        },
{
    if result < 0 {
        None
    } else {
        Some(result as usize)
    }
}

/// How to go on after a `write`.
#[derive(Clone, Copy, Debug, PartialEq, Eq, Structural)]
pub enum WriteStep {
    /// All is written.
    Done,
    /// Write what comes after the first so many bytes.
    Continue(usize),
    /// Wait a little and try once more.
    Wait,
    /// Report the error of the system.
    Failed,
}

/// How to write `len` bytes, once `written` of them are.
pub open spec fn rest_to_write(len: nat, written: int) -> WriteStep {
    if written == len {
        WriteStep::Done
    } else {
        WriteStep::Continue(written as usize)
    }
}

/// Decides how to begin writing `len` bytes.
pub fn begin_write(len: usize) -> (step: WriteStep)
    ensures
        step == rest_to_write(len as nat, 0),
        step == if len == 0 {
            WriteStep::Done
        } else {
            WriteStep::Continue(0)
        },
{
    if len == 0 {
        WriteStep::Done
    } else {
        WriteStep::Continue(0)
    }
}

/// Decides how to go on writing `len` bytes, given how many of them were written before and what
/// `write` returned. An error that passes is waited out.
pub fn write_all_fd(len: usize, written: usize, result: isize, retry: bool) -> (step: WriteStep)
    requires
        written + result <= len,
    ensures
        step == if result >= 0 {
            rest_to_write(len as nat, written + result)
        } else if retry {
            WriteStep::Wait
        } else {
            WriteStep::Failed
        },
        result >= 0 && written + result == len ==> step is Done,
        result >= 0 && written + result < len ==> (step matches WriteStep::Continue(total) && total
            == written + result),
{
    if result < 0 {
        if retry {
            return WriteStep::Wait;
        }
        return WriteStep::Failed;
    }
    let total: usize = written + result as usize;
    if total == len {
        WriteStep::Done
    } else {
        WriteStep::Continue(total)
    }
}

/// How to go on after a `read` that is to empty a descriptor.
#[derive(Clone, Copy, Debug, PartialEq, Eq, Structural)]
pub enum DrainStep {
    /// Read once more.
    Continue,
    /// It is empty.
    Done,
    /// Report the error of the system.
    Failed,
}

/// Decides how to go on emptying a descriptor, given what `read` returned. It is empty where there
/// is nothing to read for now.
pub fn drain_fd(result: isize, retry: bool) -> (step: DrainStep)
    ensures
        step == if result > 0 {
            DrainStep::Continue
        } else if result == 0 || retry {
            DrainStep::Done
        } else {
            DrainStep::Failed
        },
{
    if result > 0 {
        return DrainStep::Continue;
    }
    if result == 0 {
        return DrainStep::Done;
    }
    if retry {
        return DrainStep::Done;
    }
    DrainStep::Failed
}

/// Whether a signal reached its worker, given what `write` returned. One that finds no room is not
/// needed: another one is on its way.
pub fn write_stop_signal(result: isize, retry: bool) -> (signalled: bool)
    ensures
        signalled == (result >= 0 || retry),
{
    result >= 0 || retry
}

/// The flags of a descriptor with those of a mask set or cleared.
pub open spec fn flags_with(flags: i32, mask: i32, set: bool) -> i32 {
    if set {
        flags | mask
    } else {
        flags & !mask
    }
}

/// Sets or clears the flags of a mask that make a descriptor nonblocking.
pub fn set_nonblocking(flags: i32, mask: i32, nonblocking: bool) -> (next: i32)
    ensures
        next == flags_with(flags, mask, nonblocking),
{
    if nonblocking {
        flags | mask
    } else {
        flags & !mask
    }
}

/// The flags of a mask become what they are set to, and all others stay what they were.
pub proof fn law_only_the_mask_changes(flags: i32, mask: i32, set: bool)
    ensures
        flags_with(flags, mask, set) & mask == if set {
            mask
        } else {
            0
        },
        flags_with(flags, mask, set) & !mask == flags & !mask,
        flags_with(flags_with(flags, mask, set), mask, set) == flags_with(flags, mask, set),
{
    assert((flags | mask) & mask == mask) by (bit_vector);
    assert((flags & !mask) & mask == 0) by (bit_vector);
    assert((flags | mask) & !mask == flags & !mask) by (bit_vector);
    assert((flags & !mask) & !mask == flags & !mask) by (bit_vector);
    assert((flags | mask) | mask == flags | mask) by (bit_vector);
}

/// What a `poll` means, by what it returned and by the bits of the events.
pub proof fn law_polls_by_their_bits(result: i32, events: i16, stop_events: i16, masks: PollMasks)
    ensures
        ({
            let report = poll_report(result, events, stop_events, masks);
            let stop = stop_events & masks.readable != 0 || stop_events & masks.broken != 0;
            &&& report is Failed <==> result < 0
            &&& report == (PollReport::Got { outcome: PollOutcome::TimedOut, drain: false })
                <==> result == 0
            &&& report == (PollReport::Got { outcome: PollOutcome::Stopped, drain: true })
                <==> result > 0 && stop
            &&& report == (PollReport::Got { outcome: PollOutcome::Ready, drain: false })
                <==> result > 0 && !stop && events & masks.readable != 0
            &&& report is Broken <==> result > 0 && !stop && events & masks.readable == 0 && events
                & masks.broken != 0
            &&& report == (PollReport::Got { outcome: PollOutcome::Stopped, drain: false })
                <==> result > 0 && !stop && events & masks.readable == 0 && events & masks.broken
                == 0
        }),
{
    let readable = masks.readable;
    let broken = masks.broken;
    assert(stop_events & (readable | broken) != 0 <==> stop_events & readable != 0 || stop_events
        & broken != 0) by (bit_vector);
}

/// Writing goes on behind what is written until all is.
pub proof fn law_writing_goes_on_until_done(len: nat, written: int)
    requires
        0 <= written <= len <= usize::MAX,
    ensures
        rest_to_write(len, written) is Done <==> written == len,
        written < len ==> (rest_to_write(len, written) matches WriteStep::Continue(behind) && behind
            == written),
{
}

} // verus!
