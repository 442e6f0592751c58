use std::time::{Duration, SystemTime, UNIX_EPOCH};

use wg_boringtun::clock::{clamp_millis, elapsed_millis_since, millis_at, now_millis};
use wg_boringtun::error::TunnelError;
use wg_boringtun::poll::{
    begin_write, drain_fd, is_retry, poll_readable_or_stop, read_fd, set_nonblocking, write_all_fd,
    write_stop_signal, DrainStep, PollMasks, PollOutcome, PollReport, SystemFault, WriteStep,
};
use wg_boringtun::registry::{handle_key, stop_tunnel, TunnelRegistry};
use wg_boringtun::text::{
    append_decimal, append_hexadecimal, begins_with, has_char, join,
};
use wg_boringtun::timer::{compact_deadlines, TimerState};

#[test]
fn deadlines_are_compacted() {
    let mut deadlines = vec![5, 3, 5, 1, 3];
    compact_deadlines(&mut deadlines);
    assert_eq!(deadlines, vec![1, 3, 5]);
    let mut deadlines: Vec<u64> = (0..40).rev().collect();
    compact_deadlines(&mut deadlines);
    assert_eq!(deadlines, (0..16).collect::<Vec<u64>>());
    compact_deadlines(&mut deadlines);
    assert_eq!(deadlines.len(), 16);
    let mut deadlines = Vec::new();
    compact_deadlines(&mut deadlines);
    assert!(deadlines.is_empty());
}

#[test]
fn earliest_timer_wakes_and_is_waited_for() {
    let mut state = TimerState::new();
    assert_eq!(state.next_timer_timeout_ms(1_000), -1);
    assert!(state.schedule_timer_after(10_000, 1_000));
    assert_eq!(state.next_timer_timeout_ms(1_000), 10_000);
    assert!(!state.schedule_timer_after(15_000, 1_000));
    assert!(!state.schedule_timer_after(10_000, 1_000));
    assert!(state.schedule_timer_after(5_000, 1_000));
    assert_eq!(state.deadlines(), &vec![6_000, 11_000, 16_000]);
    assert_eq!(state.next_timer_timeout_ms(1_000), 5_000);
    assert_eq!(state.next_timer_timeout_ms(6_000), 0);
    assert_eq!(state.next_timer_timeout_ms(7_000), 0);
}

#[test]
fn timers_do_not_go_off_at_once() {
    let mut state = TimerState::new();
    assert!(state.schedule_timer_after(0, 100));
    assert_eq!(state.deadlines(), &vec![600]);
    assert!(!state.take_due_timer(599));
    assert!(state.take_due_timer(600));
    assert!(!state.take_due_timer(600));
}

#[test]
fn due_timers_are_taken_one_by_one() {
    let mut state = TimerState::new();
    state.schedule_timer_after(1_000, 0);
    state.schedule_timer_after(2_000, 0);
    state.schedule_timer_after(3_000, 0);
    assert!(state.take_due_timer(2_500));
    assert!(state.take_due_timer(2_500));
    assert!(!state.take_due_timer(2_500));
    assert_eq!(state.deadlines(), &vec![3_000]);
}

#[test]
fn far_deadlines_stay_in_range() {
    let mut state = TimerState::new();
    assert!(state.schedule_timer_after(u64::MAX, 5));
    assert_eq!(state.deadlines(), &vec![u64::MAX]);
    assert_eq!(state.next_timer_timeout_ms(5), i32::MAX);
    assert_eq!(state.next_timer_timeout_ms(u64::MAX), 0);
}

#[test]
fn only_the_earliest_timers_are_kept() {
    let mut state = TimerState::new();
    for index in 0..20u64 {
        state.schedule_timer_after(40_000 - 1_000 * index, 0);
    }
    assert_eq!(state.deadlines().len(), 16);
    assert_eq!(state.deadlines()[0], 21_000);
    assert_eq!(state.deadlines()[15], 36_000);
}

#[test]
fn milliseconds_are_brought_into_range() {
    assert_eq!(clamp_millis(None), 0);
    assert_eq!(clamp_millis(Some(12)), 12);
    assert_eq!(clamp_millis(Some(u128::from(u64::MAX))), u64::MAX);
    assert_eq!(clamp_millis(Some(u128::from(u64::MAX) + 1)), u64::MAX);
}

#[test]
fn moments_are_counted_in_milliseconds() {
    assert_eq!(millis_at(UNIX_EPOCH), 0);
    assert_eq!(millis_at(UNIX_EPOCH + Duration::from_micros(1_234_567)), 1_234);
    assert_eq!(millis_at(UNIX_EPOCH - Duration::from_secs(1)), 0);
}

#[test]
fn clock_is_read() {
    let before = match SystemTime::now().duration_since(UNIX_EPOCH) {
        Ok(duration) => duration.as_millis() as u64,
        Err(_) => 0,
    };
    let now = now_millis();
    assert!(before <= now);
    assert!(now < before + 60_000);
}

#[test]
fn elapsed_time_is_counted() {
    assert_eq!(elapsed_millis_since(0, 5_000), None);
    assert_eq!(elapsed_millis_since(2_000, 5_500), Some(3_500));
    assert_eq!(elapsed_millis_since(5_000, 5_000), Some(0));
    assert_eq!(elapsed_millis_since(6_000, 5_000), Some(0));
}

#[test]
fn handles_are_checked() {
    assert_eq!(handle_key(1), Ok(1));
    assert_eq!(handle_key(i32::MAX), Ok(0x7fff_ffff));
    assert_eq!(handle_key(0), Err(TunnelError::InvalidHandle));
    assert_eq!(handle_key(-1), Err(TunnelError::InvalidHandle));
}

#[test]
fn tunnels_are_found_by_their_handles() {
    let mut registry = TunnelRegistry::new();
    assert_eq!(registry.enter("one"), Ok(1));
    assert_eq!(registry.enter("two"), Ok(2));
    assert_eq!(registry.get_runtime(1), Ok(&"one"));
    assert_eq!(registry.get_runtime(2), Ok(&"two"));
    assert_eq!(registry.get_runtime(3), Err(TunnelError::UnknownHandle));
    assert_eq!(registry.get_runtime(0), Err(TunnelError::InvalidHandle));
}

#[test]
fn stopped_tunnels_are_unknown_and_handles_are_not_reused() {
    let mut registry = TunnelRegistry::new();
    assert_eq!(registry.enter(10), Ok(1));
    assert_eq!(registry.enter(20), Ok(2));
    assert_eq!(stop_tunnel(&mut registry, 1), Ok(Some(10)));
    assert_eq!(registry.get_runtime(1), Err(TunnelError::UnknownHandle));
    assert_eq!(registry.get_runtime(2), Ok(&20));
    assert_eq!(stop_tunnel(&mut registry, 1), Ok(None));
    assert_eq!(stop_tunnel(&mut registry, -5), Err(TunnelError::InvalidHandle));
    assert_eq!(registry.enter(30), Ok(3));
}

#[test]
fn texts_are_put_together() {
    let mut text = String::new();
    append_decimal(&mut text, 0);
    append_decimal(&mut text, u64::MAX);
    text.push(' ');
    append_hexadecimal(&mut text, 0);
    append_hexadecimal(&mut text, 0xbeef);
    assert_eq!(text, "018446744073709551615 0beef");
    assert_eq!(join(&vec!["a".to_string(), "b".to_string(), "c".to_string()], ", "), "a, b, c");
    assert_eq!(join(&Vec::new(), ", "), "");
    assert!(has_char("h\u{e9}llo", '\u{e9}'));
    assert!(!has_char("hello", 'x'));
    assert!(begins_with("[::1]", '['));
    assert!(!begins_with("", '['));
}

fn masks() -> PollMasks {
    PollMasks {
        readable: libc::POLLIN,
        broken: libc::POLLERR | libc::POLLHUP | libc::POLLNVAL,
    }
}

#[test]
fn polls_are_read() {
    let got = |outcome, drain| PollReport::Got { outcome, drain };
    let both = libc::POLLIN | libc::POLLHUP;
    assert_eq!(poll_readable_or_stop(-1, both, both, masks()), PollReport::Failed);
    assert_eq!(poll_readable_or_stop(0, 0, 0, masks()), got(PollOutcome::TimedOut, false));
    assert_eq!(
        poll_readable_or_stop(2, libc::POLLIN, libc::POLLIN, masks()),
        got(PollOutcome::Stopped, true)
    );
    assert_eq!(
        poll_readable_or_stop(1, 0, libc::POLLNVAL, masks()),
        got(PollOutcome::Stopped, true)
    );
    assert_eq!(poll_readable_or_stop(1, both, 0, masks()), got(PollOutcome::Ready, false));
    assert_eq!(poll_readable_or_stop(1, libc::POLLERR, 0, masks()), PollReport::Broken);
    assert_eq!(
        poll_readable_or_stop(1, libc::POLLOUT, libc::POLLOUT, masks()),
        got(PollOutcome::Stopped, false)
    );
}

#[test]
fn faults_that_pass_are_known() {
    assert!(is_retry(SystemFault::WouldBlock));
    assert!(is_retry(SystemFault::Interrupted));
    assert!(!is_retry(SystemFault::Other));
}

#[test]
fn reads_and_signals_are_read() {
    assert_eq!(read_fd(-1), None);
    assert_eq!(read_fd(0), Some(0));
    assert_eq!(read_fd(1500), Some(1500));
    assert!(write_stop_signal(1, false));
    assert!(write_stop_signal(-1, true));
    assert!(!write_stop_signal(-1, false));
    assert_eq!(drain_fd(64, false), DrainStep::Continue);
    assert_eq!(drain_fd(0, false), DrainStep::Done);
    assert_eq!(drain_fd(-1, true), DrainStep::Done);
    assert_eq!(drain_fd(-1, false), DrainStep::Failed);
}

#[test]
fn writes_go_on_until_all_is_written() {
    assert_eq!(begin_write(0), WriteStep::Done);
    assert_eq!(begin_write(10), WriteStep::Continue(0));
    assert_eq!(write_all_fd(10, 0, 4, false), WriteStep::Continue(4));
    assert_eq!(write_all_fd(10, 4, -1, true), WriteStep::Wait);
    assert_eq!(write_all_fd(10, 4, -1, false), WriteStep::Failed);
    assert_eq!(write_all_fd(10, 4, 0, false), WriteStep::Continue(4));
    assert_eq!(write_all_fd(10, 4, 6, true), WriteStep::Done);
}

#[test]
fn only_the_nonblocking_flag_changes() {
    let flags = libc::O_RDWR | libc::O_APPEND;
    let set = set_nonblocking(flags, libc::O_NONBLOCK, true);
    assert_eq!(set, flags | libc::O_NONBLOCK);
    assert_eq!(set_nonblocking(set, libc::O_NONBLOCK, true), set);
    assert_eq!(set_nonblocking(set, libc::O_NONBLOCK, false), flags);
}
