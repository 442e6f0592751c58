//! The wall clock in milliseconds.

use std::time::{Duration, SystemTime, SystemTimeError, UNIX_EPOCH};

use vstd::prelude::*;

verus! {

/// A moment of the wall clock.
#[verifier::external_type_specification]
#[verifier::external_body]
pub struct ExSystemTime(SystemTime);

/// Says that a moment lies before another one.
#[verifier::external_type_specification]
#[verifier::external_body]
pub struct ExSystemTimeError(SystemTimeError);

/// `SystemTime::now`: the current moment. Nothing is claimed of it.
pub assume_specification[ SystemTime::now ]() -> SystemTime;

/// The whole milliseconds of a duration.
pub uninterp spec fn whole_millis(duration: Duration) -> u128;

/// `Duration::as_millis`: the whole milliseconds of a duration.
pub assume_specification[ Duration::as_millis ](duration: &Duration) -> (millis: u128)
    ensures
        millis == whole_millis(*duration),
;

/// How long after the beginning of 1970 a moment lies, where it lies after it.
pub uninterp spec fn unix_time(moment: SystemTime) -> Option<Duration>;

/// The time from the beginning of 1970 to a moment.
///
/// Calls `SystemTime::duration_since` with `UNIX_EPOCH`, which fails where the moment lies before
/// it.
#[verifier::external_body]
fn since_unix_epoch(moment: SystemTime) -> (duration: Result<Duration, SystemTimeError>)
    ensures
        match duration {
            Ok(duration) => unix_time(moment) == Some(duration),
            Err(_) => unix_time(moment) is None,
        },
{
    moment.duration_since(UNIX_EPOCH)
}

/// A number of milliseconds in 64 bits: the number itself, or the largest that there is.
pub open spec fn saturated(millis: u128) -> u64 {
    if millis > u64::MAX {
        u64::MAX
    } else {
        millis as u64
    }
}

/// Brings a number of milliseconds into 64 bits. No time at all counts as zero.
pub fn clamp_millis(millis: Option<u128>) -> (clamped: u64)
    ensures
        clamped == match millis {
            Some(millis) => saturated(millis),
            None => 0,
        },
{
    match millis {
        Some(millis) => {
            if millis > 0xffff_ffff_ffff_ffff {
                0xffff_ffff_ffff_ffff
            } else {
                millis as u64
            }
        },
        None => 0,
    }
}

/// The milliseconds from the beginning of 1970 to a moment. A moment before it counts as zero.
pub open spec fn unix_millis(moment: SystemTime) -> u64 {
    match unix_time(moment) {
        Some(duration) => saturated(whole_millis(duration)),
        None => 0,
    }
}

/// Counts the milliseconds from the beginning of 1970 to a moment. A moment before it counts as
/// zero.
pub fn millis_at(moment: SystemTime) -> (millis: u64)
    ensures
        millis == unix_millis(moment),
{
    match since_unix_epoch(moment) {
        Ok(duration) => clamp_millis(Some(duration.as_millis())),
        Err(_) => clamp_millis(None),
    }
}

/// Reads the wall clock, in milliseconds since the beginning of 1970. Whatever moment the clock
/// gives, the result is what [`millis_at`] makes of it.
pub fn now_millis() -> (millis: u64)
    ensures
        exists|moment: SystemTime| millis == #[trigger] unix_millis(moment),
{
    millis_at(SystemTime::now())
}

/// How long ago something happened at `now_ms`: not known where it never did, which is written as
/// a zero moment, and no time at all where the clock has been set back.
pub open spec fn elapsed_since(timestamp_ms: u64, now_ms: u64) -> Option<u64> {
    if timestamp_ms == 0 {
        None
    } else if now_ms < timestamp_ms {
        Some(0)
    } else {
        Some((now_ms - timestamp_ms) as u64)
    }
}

/// Counts the milliseconds since a moment.
pub fn elapsed_millis_since(timestamp_ms: u64, now_ms: u64) -> (elapsed: Option<u64>)
    ensures
        elapsed == elapsed_since(timestamp_ms, now_ms),
{
    if timestamp_ms == 0 {
        return None;
    }
    if now_ms < timestamp_ms {
        return Some(0);
    }
    Some(now_ms - timestamp_ms)
}

/// The milliseconds of a moment are all of its whole milliseconds, as far as 64 bits hold them.
pub proof fn law_millis_are_kept(millis: u128, moment: SystemTime)
    ensures
        millis <= 0xffff_ffff_ffff_ffff ==> saturated(millis) == millis,
        millis > 0xffff_ffff_ffff_ffff ==> saturated(millis) == 0xffff_ffff_ffff_ffff,
        unix_time(moment) is None ==> unix_millis(moment) == 0,
        unix_time(moment) matches Some(duration) ==> (whole_millis(duration)
            <= 0xffff_ffff_ffff_ffff ==> unix_millis(moment) == whole_millis(duration)),
{
}

/// From a moment to a later one passes what lies between them; before the first moment nothing has
/// passed, and where there was none nothing is known.
pub proof fn law_elapsed_time_lies_between(timestamp_ms: u64, now_ms: u64)
    ensures
        timestamp_ms == 0 <==> elapsed_since(timestamp_ms, now_ms) is None,
        elapsed_since(timestamp_ms, now_ms) matches Some(elapsed) ==> if timestamp_ms <= now_ms {
            timestamp_ms + elapsed == now_ms
        } else {
            elapsed == 0
        },
{
}

} // verus!
