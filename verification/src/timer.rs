//! The deadlines at which a tunnel looks after its timers.

use vstd::prelude::*;

verus! {

/// How many deadlines are kept.
pub const MAX_DEADLINES: usize = 16;

/// No timer is set to go off sooner than this.
pub const MIN_TIMER_DELAY_MS: u64 = 500;

/// Each number is larger than the one before it.
pub open spec fn increasing(numbers: Seq<u64>) -> bool {
    forall|i: int, j: int| 0 <= i < j < numbers.len() ==> numbers[i] < numbers[j]
}

/// `after` lists, in increasing order and without repetition, the smallest of the numbers in
/// `before`: all of them where there are no more than the limit, else as many as the limit allows.
pub open spec fn is_compaction(before: Seq<u64>, after: Seq<u64>) -> bool {
    &&& increasing(after)
    &&& after.len() <= MAX_DEADLINES
    &&& forall|i: int| 0 <= i < after.len() ==> before.contains(#[trigger] after[i])
    &&& forall|i: int|
        0 <= i < before.len() ==> after.contains(#[trigger] before[i]) || after.len()
            == MAX_DEADLINES && after.last() < before[i]
}

/// The compaction of a sequence of deadlines.
pub open spec fn compacted(before: Seq<u64>) -> Seq<u64> {
    choose|after: Seq<u64>| is_compaction(before, after)
}

/// When a timer goes off that is set at `now_ms` for `delay_ms` later.
pub open spec fn deadline_after(now_ms: u64, delay_ms: u64) -> u64 {
    let delay: int = if delay_ms < MIN_TIMER_DELAY_MS {
        MIN_TIMER_DELAY_MS as int
    } else {
        delay_ms as int
    };
    if now_ms + delay > u64::MAX {
        u64::MAX
    } else {
        (now_ms + delay) as u64
    }
}

/// How long to wait at `now_ms` for the earliest of the deadlines: not at all where it has passed,
/// and forever, which is written as -1, where there is none.
pub open spec fn timeout_ms(deadlines: Seq<u64>, now_ms: u64) -> int {
    if deadlines.len() == 0 {
        -1
    } else if deadlines[0] <= now_ms {
        0
    } else if deadlines[0] - now_ms > i32::MAX {
        i32::MAX as int
    } else {
        deadlines[0] - now_ms
    }
}

/// Whether a deadline has passed at `now_ms`.
pub open spec fn any_due(deadlines: Seq<u64>, now_ms: u64) -> bool {
    exists|i: int| 0 <= i < deadlines.len() && #[trigger] deadlines[i] <= now_ms
}

/// Where the elements of an increasing sequence all occur in another one, the n-th of them occurs
/// there at the n-th place or later.
proof fn lemma_places(few: Seq<u64>, many: Seq<u64>, n: int) -> (place: int)
    requires
        increasing(few),
        increasing(many),
        forall|i: int| 0 <= i < few.len() ==> many.contains(#[trigger] few[i]),
        0 <= n < few.len(),
    ensures
        n <= place < many.len(),
        many[place] == few[n],
    decreases n,
{
    assert(many.contains(few[n]));
    let place = choose|p: int| 0 <= p < many.len() && many[p] == few[n];
    if n > 0 {
        let earlier = lemma_places(few, many, n - 1);
        if place <= earlier {
            if place < earlier {
                assert(many[place] < many[earlier]);
            }
            assert(few[n - 1] < few[n]);
            assert(false);
        }
    }
    place
}

/// Each element of one compaction of a sequence occurs in every other.
proof fn lemma_compaction_contains(before: Seq<u64>, one: Seq<u64>, other: Seq<u64>, n: int)
    requires
        is_compaction(before, one),
        is_compaction(before, other),
        0 <= n < one.len(),
    ensures
        other.contains(one[n]),
{
    if !other.contains(one[n]) {
        assert(before.contains(one[n]));
        let at = choose|p: int| 0 <= p < before.len() && before[p] == one[n];
        assert(other.len() == MAX_DEADLINES && other.last() < before[at]);
        assert forall|j: int| 0 <= j < other.len() implies one.contains(#[trigger] other[j]) by {
            assert(before.contains(other[j]));
            let from = choose|p: int| 0 <= p < before.len() && before[p] == other[j];
            if !one.contains(other[j]) {
                assert(one.last() < before[from]);
                if j < other.len() - 1 {
                    assert(other[j] < other[other.len() - 1]);
                }
                if n < one.len() - 1 {
                    assert(one[n] < one[one.len() - 1]);
                }
                assert(false);
            }
        }
        let last = lemma_places(other, one, other.len() - 1);
        if n <= last {
            if n < last {
                assert(one[n] < one[last]);
            }
            assert(false);
        }
    }
}

/// A sequence of deadlines has only one compaction.
pub proof fn law_compaction_is_unique(before: Seq<u64>, one: Seq<u64>, other: Seq<u64>)
    requires
        is_compaction(before, one),
        is_compaction(before, other),
    ensures
        one == other,
{
    assert forall|n: int| 0 <= n < one.len() implies other.contains(#[trigger] one[n]) by {
        lemma_compaction_contains(before, one, other, n);
    }
    assert forall|n: int| 0 <= n < other.len() implies one.contains(#[trigger] other[n]) by {
        lemma_compaction_contains(before, other, one, n);
    }
    if one.len() > 0 {
        let place = lemma_places(one, other, one.len() - 1);
    }
    if other.len() > 0 {
        let place = lemma_places(other, one, other.len() - 1);
    }
    assert forall|n: int| 0 <= n < one.len() implies one[n] == other[n] by {
        let there = lemma_places(one, other, n);
        let here = lemma_places(other, one, n);
        if n < there {
            assert(other[n] < other[there]);
        }
        if n < here {
            assert(one[n] < one[here]);
        }
    }
    assert(one =~= other);
}

/// Deadlines that are in order, without repetition and no more than the limit are their own
/// compaction.
pub proof fn law_compaction_keeps_compact(deadlines: Seq<u64>)
    requires
        increasing(deadlines),
        deadlines.len() <= MAX_DEADLINES,
    ensures
        is_compaction(deadlines, deadlines),
{
    assert forall|i: int| 0 <= i < deadlines.len() implies deadlines.contains(
        #[trigger] deadlines[i],
    ) by {}
}

/// `index` is the place of `deadline` among sorted numbers.
spec fn is_place(sorted: Seq<u64>, index: int, deadline: u64) -> bool {
    &&& 0 <= index <= sorted.len()
    &&& forall|i: int| 0 <= i < index ==> sorted[i] < deadline
    &&& index < sorted.len() ==> deadline <= sorted[index]
}

/// Sorted numbers with one more put in at its place, cut off at the limit.
spec fn grown(sorted: Seq<u64>, index: int, deadline: u64) -> Seq<u64> {
    if index < sorted.len() && sorted[index] == deadline {
        sorted
    } else if index >= MAX_DEADLINES {
        sorted
    } else if sorted.len() >= MAX_DEADLINES {
        sorted.insert(index, deadline).drop_last()
    } else {
        sorted.insert(index, deadline)
    }
}

/// A compaction with one more number in it is the compaction of the longer sequence.
proof fn lemma_compaction_grows(seen: Seq<u64>, sorted: Seq<u64>, index: int, deadline: u64)
    requires
        is_compaction(seen, sorted),
        is_place(sorted, index, deadline),
    ensures
        is_compaction(seen.push(deadline), grown(sorted, index, deadline)),
{
    let more = seen.push(deadline);
    assert(more[seen.len() as int] == deadline);
    assert forall|x: u64| seen.contains(x) implies more.contains(x) by {
        let p = choose|p: int| 0 <= p < seen.len() && seen[p] == x;
        assert(more[p] == x);
    }
    if (index < sorted.len() && sorted[index] == deadline) || index >= MAX_DEADLINES {
        assert forall|i: int| 0 <= i < more.len() implies sorted.contains(#[trigger] more[i])
            || sorted.len() == MAX_DEADLINES && sorted.last() < more[i] by {
            if i < seen.len() {
                assert(more[i] == seen[i]);
            }
        }
    } else {
        let full = sorted.insert(index, deadline);
        assert forall|i: int, j: int| 0 <= i < j < full.len() implies full[i] < full[j] by {
            if i < index {
                if j > index {
                    assert(full[j] == sorted[j - 1]);
                }
            } else if i == index {
                assert(full[j] == sorted[j - 1]);
                if index < j - 1 {
                    assert(sorted[index] < sorted[j - 1]);
                }
            } else {
                assert(full[i] == sorted[i - 1]);
                assert(full[j] == sorted[j - 1]);
            }
        }
        assert forall|i: int| 0 <= i < full.len() implies more.contains(#[trigger] full[i]) by {
            if i < index {
                assert(seen.contains(sorted[i]));
            } else if i > index {
                assert(full[i] == sorted[i - 1]);
                assert(seen.contains(sorted[i - 1]));
            }
        }
        assert(full[index] == deadline);
        assert forall|i: int| 0 <= i < more.len() implies full.contains(#[trigger] more[i])
            || sorted.len() == MAX_DEADLINES && sorted.last() < more[i] by {
            if i < seen.len() {
                assert(more[i] == seen[i]);
                if sorted.contains(seen[i]) {
                    let p = choose|p: int| 0 <= p < sorted.len() && sorted[p] == seen[i];
                    if p < index {
                        assert(full[p] == seen[i]);
                    } else {
                        assert(full[p + 1] == seen[i]);
                    }
                }
            } else {
                assert(full.contains(deadline));
            }
        }
        if full.len() > MAX_DEADLINES {
            let kept = full.drop_last();
            assert(full.last() == sorted.last());
            assert(full[full.len() - 2] < full[full.len() - 1]);
            assert forall|i: int| 0 <= i < kept.len() implies more.contains(#[trigger] kept[i]) by {
                assert(kept[i] == full[i]);
            }
            assert forall|i: int| 0 <= i < more.len() implies kept.contains(#[trigger] more[i])
                || kept.len() == MAX_DEADLINES && kept.last() < more[i] by {
                if full.contains(more[i]) {
                    let p = choose|p: int| 0 <= p < full.len() && full[p] == more[i];
                    if p < kept.len() {
                        assert(kept[p] == more[i]);
                    }
                }
            }
        }
    }
}

/// Every number has a place among sorted numbers.
proof fn lemma_place_exists(sorted: Seq<u64>, deadline: u64, from: int) -> (index: int)
    requires
        0 <= from <= sorted.len(),
        forall|i: int| 0 <= i < from ==> sorted[i] < deadline,
    ensures
        is_place(sorted, index, deadline),
    decreases sorted.len() - from,
{
    if from < sorted.len() && sorted[from] < deadline {
        lemma_place_exists(sorted, deadline, from + 1)
    } else {
        from
    }
}

/// Every sequence of deadlines has a compaction.
proof fn lemma_compaction_exists(before: Seq<u64>)
    ensures
        is_compaction(before, compacted(before)),
    decreases before.len(),
{
    if before.len() == 0 {
        assert(is_compaction(before, Seq::empty()));
    } else {
        lemma_compaction_exists(before.drop_last());
        let rest = compacted(before.drop_last());
        let index = lemma_place_exists(rest, before.last(), 0);
        lemma_compaction_grows(before.drop_last(), rest, index, before.last());
        assert(before.drop_last().push(before.last()) == before);
    }
}

/// Puts one more number into a compaction.
fn insert_deadline(sorted: &mut Vec<u64>, deadline: u64, Ghost(seen): Ghost<Seq<u64>>)
    requires
        is_compaction(seen, old(sorted)@),
    ensures
        is_compaction(seen.push(deadline), final(sorted)@),
{
    let mut index: usize = 0;
    while index < sorted.len() && sorted[index] < deadline
        invariant
            index <= sorted@.len(),
            sorted@ == old(sorted)@,
            forall|i: int| 0 <= i < index ==> sorted@[i] < deadline,
        decreases sorted@.len() - index,
    {
        index = index + 1;
    }
    proof {
        lemma_compaction_grows(seen, sorted@, index as int, deadline);
    }
    if index < sorted.len() && sorted[index] == deadline {
        return;
    }
    if index >= MAX_DEADLINES {
        return;
    }
    sorted.insert(index, deadline);
    if sorted.len() > MAX_DEADLINES {
        let _latest = sorted.pop();
    }
}

/// Sorts deadlines, drops repeated ones, and keeps the earliest of them.
pub fn compact_deadlines(deadlines: &mut Vec<u64>)
    ensures
        is_compaction(old(deadlines)@, final(deadlines)@),
        final(deadlines)@ == compacted(old(deadlines)@),
{
    let mut sorted: Vec<u64> = Vec::new();
    let mut index: usize = 0;
    while index < deadlines.len()
        invariant
            index <= deadlines@.len(),
            deadlines@ == old(deadlines)@,
            is_compaction(deadlines@.take(index as int), sorted@),
        decreases deadlines@.len() - index,
    {
        insert_deadline(&mut sorted, deadlines[index], Ghost(deadlines@.take(index as int)));
        assert(deadlines@.take(index + 1) == deadlines@.take(index as int).push(
            deadlines@[index as int],
        ));
        index = index + 1;
    }
    assert(deadlines@.take(index as int) == deadlines@);
    proof {
        law_compaction_is_unique(deadlines@, sorted@, compacted(deadlines@));
    }
    *deadlines = sorted;
}

/// The deadlines after a timer was set.
pub open spec fn with_timer(deadlines: Seq<u64>, delay_ms: u64, now_ms: u64) -> Seq<u64> {
    compacted(deadlines.push(deadline_after(now_ms, delay_ms)))
}

/// Whether a timer goes off before all the deadlines.
pub open spec fn is_earliest(deadlines: Seq<u64>, delay_ms: u64, now_ms: u64) -> bool {
    forall|i: int|
        0 <= i < deadlines.len() ==> deadline_after(now_ms, delay_ms) < #[trigger] deadlines[i]
}

/// The deadlines without the earliest, where it has passed.
pub open spec fn without_due(deadlines: Seq<u64>, now_ms: u64) -> Seq<u64> {
    if any_due(deadlines, now_ms) {
        deadlines.drop_first()
    } else {
        deadlines
    }
}

/// A deadline that comes to none is the only one.
proof fn lemma_lone_deadline(none: Seq<u64>, deadline: u64)
    requires
        none.len() == 0,
    ensures
        compacted(none.push(deadline)) == seq![deadline],
{
    let one = seq![deadline];
    assert(none.push(deadline) =~= one);
    assert(one.contains(one[0]));
    assert(is_compaction(one, one));
    lemma_compaction_exists(one);
    law_compaction_is_unique(one, one, compacted(one));
}

/// The pending deadlines of a tunnel: in order, without repetition and no more than the limit.
pub struct TimerState {
    deadlines_ms: Vec<u64>,
}

impl View for TimerState {
    type V = Seq<u64>;

    closed spec fn view(&self) -> Seq<u64> {
        self.deadlines_ms@
    }
}

impl TimerState {
    #[verifier::type_invariant]
    spec fn wf(&self) -> bool {
        increasing(self.deadlines_ms@) && self.deadlines_ms@.len() <= MAX_DEADLINES
    }

    /// No deadlines.
    pub fn new() -> (state: TimerState)
        ensures
            state@ == Seq::<u64>::empty(),
    {
        TimerState { deadlines_ms: Vec::new() }
    }

    /// The pending deadlines, earliest first.
    pub fn deadlines(&self) -> (deadlines: &Vec<u64>)
        ensures
            deadlines@ == self@,
            increasing(self@),
            self@.len() <= MAX_DEADLINES,
    {
        proof {
            use_type_invariant(self);
        }
        &self.deadlines_ms
    }

    /// Sets a timer, and tells whether it goes off before all others: who waits for the earliest
    /// deadline must then be woken.
    pub fn schedule_timer_after(&mut self, delay_ms: u64, now_ms: u64) -> (wake_earlier: bool)
        ensures
            final(self)@ == with_timer(old(self)@, delay_ms, now_ms),
            wake_earlier == is_earliest(old(self)@, delay_ms, now_ms),
            old(self)@.len() == 0 && delay_ms >= 500 && now_ms + delay_ms <= u64::MAX
                ==> final(self)@ == seq![(now_ms + delay_ms) as u64],
            old(self)@.len() == 0 && delay_ms < 500 && now_ms + 500 <= u64::MAX ==> final(self)@
                == seq![(now_ms + 500) as u64],
            old(self)@.len() == 0 ==> wake_earlier,
    {
        proof {
            use_type_invariant(&*self);
        }
        let delay: u64 = if delay_ms < MIN_TIMER_DELAY_MS {
            MIN_TIMER_DELAY_MS
        } else {
            delay_ms
        };
        let deadline: u64 = now_ms.saturating_add(delay);
        let wake_earlier: bool = self.deadlines_ms.is_empty() || deadline < self.deadlines_ms[0];
        let mut deadlines: Vec<u64> = Vec::new();
        std::mem::swap(&mut deadlines, &mut self.deadlines_ms);
        deadlines.push(deadline);
        compact_deadlines(&mut deadlines);
        self.deadlines_ms = deadlines;
        proof {
            if old(self)@.len() == 0 {
                lemma_lone_deadline(old(self)@, deadline);
            }
        }
        wake_earlier
    }

    /// How long to wait for the earliest deadline, as `poll` takes it.
    pub fn next_timer_timeout_ms(&self, now_ms: u64) -> (timeout: i32)
        ensures
            timeout == timeout_ms(self@, now_ms),
            increasing(self@),
            self@.len() <= MAX_DEADLINES,
    {
        proof {
            use_type_invariant(self);
        }
        if self.deadlines_ms.is_empty() {
            return -1;
        }
        let deadline: u64 = self.deadlines_ms[0];
        if deadline <= now_ms {
            0
        } else {
            let delay: u64 = deadline - now_ms;
            if delay > 0x7fff_ffff {
                0x7fff_ffff
            } else {
                delay as i32
            }
        }
    }

    /// Removes the earliest deadline where it has passed, and tells whether one had.
    pub fn take_due_timer(&mut self, now_ms: u64) -> (due: bool)
        ensures
            due == any_due(old(self)@, now_ms),
            final(self)@ == without_due(old(self)@, now_ms),
    {
        proof {
            use_type_invariant(&*self);
        }
        if self.deadlines_ms.is_empty() {
            return false;
        }
        if self.deadlines_ms[0] <= now_ms {
            assert(any_due(old(self)@, now_ms));
            let mut deadlines: Vec<u64> = Vec::new();
            std::mem::swap(&mut deadlines, &mut self.deadlines_ms);
            let _passed: u64 = deadlines.remove(0);
            self.deadlines_ms = deadlines;
            return true;
        }
        false
    }
}

/// A wait never lasts beyond a timer that was just set, nor longer than before it was set.
pub proof fn law_timer_is_waited_for(deadlines: Seq<u64>, delay_ms: u64, now_ms: u64)
    requires
        increasing(deadlines),
    ensures
        0 <= timeout_ms(with_timer(deadlines, delay_ms, now_ms), now_ms),
        timeout_ms(with_timer(deadlines, delay_ms, now_ms), now_ms) <= deadline_after(
            now_ms,
            delay_ms,
        ) - now_ms,
        deadlines.len() > 0 ==> timeout_ms(with_timer(deadlines, delay_ms, now_ms), now_ms)
            <= timeout_ms(deadlines, now_ms),
{
    let deadline = deadline_after(now_ms, delay_ms);
    let more = deadlines.push(deadline);
    lemma_compaction_exists(more);
    assert(more[deadlines.len() as int] == deadline);
    lemma_first_is_least(more, compacted(more), deadlines.len() as int);
    if deadlines.len() > 0 {
        assert(more[0] == deadlines[0]);
        lemma_first_is_least(more, compacted(more), 0);
    }
}

/// A compaction begins with the smallest number.
proof fn lemma_first_is_least(before: Seq<u64>, after: Seq<u64>, n: int)
    requires
        is_compaction(before, after),
        0 <= n < before.len(),
    ensures
        after.len() > 0,
        after[0] <= before[n],
{
    if after.contains(before[n]) {
        let p = choose|p: int| 0 <= p < after.len() && after[p] == before[n];
        if p > 0 {
            assert(after[0] < after[p]);
        }
    } else {
        assert(after[0] <= after[after.len() - 1]);
    }
}

/// Who waits for the earliest deadline is told to wake exactly when a new timer changes what the
/// earliest deadline is.
pub proof fn law_wake_means_new_earliest(deadlines: Seq<u64>, delay_ms: u64, now_ms: u64)
    requires
        increasing(deadlines),
    ensures
        with_timer(deadlines, delay_ms, now_ms).len() > 0,
        is_earliest(deadlines, delay_ms, now_ms) ==> with_timer(deadlines, delay_ms, now_ms)[0]
            == deadline_after(now_ms, delay_ms),
        !is_earliest(deadlines, delay_ms, now_ms) ==> deadlines.len() > 0 && with_timer(
            deadlines,
            delay_ms,
            now_ms,
        )[0] == deadlines[0],
{
    let deadline = deadline_after(now_ms, delay_ms);
    let more = deadlines.push(deadline);
    let after = compacted(more);
    lemma_compaction_exists(more);
    assert(more[deadlines.len() as int] == deadline);
    lemma_first_is_least(more, after, deadlines.len() as int);
    assert(more.contains(after[0]));
    let p = choose|p: int| 0 <= p < more.len() && more[p] == after[0];
    if is_earliest(deadlines, delay_ms, now_ms) {
        if p < deadlines.len() {
            assert(more[p] == deadlines[p]);
        }
    } else {
        let q = choose|q: int| 0 <= q < deadlines.len() && !(deadline < #[trigger] deadlines[q]);
        if q > 0 {
            assert(deadlines[0] < deadlines[q]);
        }
        assert(more[0] == deadlines[0]);
        lemma_first_is_least(more, after, 0);
        if p < deadlines.len() {
            assert(more[p] == deadlines[p]);
            if p > 0 {
                assert(deadlines[0] < deadlines[p]);
            }
        }
    }
}

/// Setting a timer keeps the deadlines in order, without repetition and within the limit, and loses
/// none of them but where there are more than the limit.
pub proof fn law_timers_are_kept(deadlines: Seq<u64>, delay_ms: u64, now_ms: u64)
    ensures
        is_compaction(
            deadlines.push(deadline_after(now_ms, delay_ms)),
            with_timer(deadlines, delay_ms, now_ms),
        ),
{
    lemma_compaction_exists(deadlines.push(deadline_after(now_ms, delay_ms)));
}

/// There is nothing to wait for exactly when a deadline has passed.
pub proof fn law_no_wait_iff_due(deadlines: Seq<u64>, now_ms: u64)
    requires
        increasing(deadlines),
    ensures
        timeout_ms(deadlines, now_ms) == 0 <==> any_due(deadlines, now_ms),
{
    if any_due(deadlines, now_ms) {
        let i = choose|i: int| 0 <= i < deadlines.len() && #[trigger] deadlines[i] <= now_ms;
        if i > 0 {
            assert(deadlines[0] < deadlines[i]);
        }
    }
    if timeout_ms(deadlines, now_ms) == 0 {
        assert(deadlines[0] <= now_ms);
    }
}

/// The deadlines that have passed.
pub open spec fn due(deadlines: Seq<u64>, now_ms: u64) -> Set<u64> {
    deadlines.to_set().filter(|deadline: u64| deadline <= now_ms)
}

/// Setting a timer changes nothing about which deadlines have passed: the new one has not, and none
/// of those that have is given up for it. Only at the very last moment of the clock a new timer
/// goes off at once.
pub proof fn law_new_timer_keeps_what_is_due(deadlines: Seq<u64>, delay_ms: u64, now_ms: u64)
    requires
        increasing(deadlines),
        deadlines.len() <= MAX_DEADLINES,
        now_ms < u64::MAX,
    ensures
        due(with_timer(deadlines, delay_ms, now_ms), now_ms) == due(deadlines, now_ms),
        increasing(with_timer(deadlines, delay_ms, now_ms)),
        with_timer(deadlines, delay_ms, now_ms).len() <= MAX_DEADLINES,
{
    let deadline = deadline_after(now_ms, delay_ms);
    let more = deadlines.push(deadline);
    let after = with_timer(deadlines, delay_ms, now_ms);
    law_timers_are_kept(deadlines, delay_ms, now_ms);
    assert forall|d: u64| due(after, now_ms).contains(d) implies due(deadlines, now_ms).contains(
        d,
    ) by {
        let i = choose|i: int| 0 <= i < after.len() && after[i] == d;
        assert(more.contains(after[i]));
        let j = choose|j: int| 0 <= j < more.len() && more[j] == d;
        assert(deadlines[j] == d);
    }
    assert forall|d: u64| due(deadlines, now_ms).contains(d) implies due(after, now_ms).contains(
        d,
    ) by {
        let j = choose|j: int| 0 <= j < deadlines.len() && deadlines[j] == d;
        assert(more[j] == d);
        if !after.contains(d) {
            let longer = after.push(d);
            assert forall|i: int| 0 <= i < longer.len() implies deadlines.contains(
                #[trigger] longer[i],
            ) by {
                if i < after.len() {
                    assert(longer[i] == after[i]);
                    assert(more.contains(after[i]));
                    if i < after.len() - 1 {
                        assert(after[i] < after[after.len() - 1]);
                    }
                    let p = choose|p: int| 0 <= p < more.len() && more[p] == after[i];
                    assert(deadlines[p] == after[i]);
                } else {
                    assert(deadlines[j] == longer[i]);
                }
            }
            assert forall|i: int, k: int| 0 <= i < k < longer.len() implies longer[i]
                < longer[k] by {
                if k == after.len() && i < after.len() - 1 {
                    assert(after[i] < after[after.len() - 1]);
                }
            }
            let place = lemma_places(longer, deadlines, longer.len() - 1);
            assert(false);
        }
    }
    assert(due(after, now_ms) =~= due(deadlines, now_ms));
}

/// A timer goes off when its delay is over: no sooner and no later, but for delays below half a
/// second, which last half a second, and for moments that the clock cannot show.
pub proof fn law_timer_goes_off_after_its_delay(delay_ms: u64, now_ms: u64)
    ensures
        delay_ms >= 500 && now_ms + delay_ms <= u64::MAX ==> deadline_after(now_ms, delay_ms)
            == now_ms + delay_ms,
        delay_ms < 500 && now_ms + 500 <= u64::MAX ==> deadline_after(now_ms, delay_ms) == now_ms
            + 500,
        now_ms + delay_ms > u64::MAX || now_ms + 500 > u64::MAX ==> deadline_after(now_ms, delay_ms)
            == u64::MAX,
{
}

/// Of the deadlines, sixteen at most are pending: in order, each once, none that was not set, and
/// none left out but those that are later than sixteen others.
pub proof fn law_sixteen_earliest_are_pending(before: Seq<u64>)
    ensures
        ({
            let after = compacted(before);
            &&& after.len() <= 16
            &&& forall|i: int, j: int| 0 <= i < j < after.len() ==> after[i] < after[j]
            &&& forall|d: u64| after.contains(d) ==> before.contains(d)
            &&& forall|d: u64| #[trigger]
                before.contains(d) && !after.contains(d) ==> after.len() == 16 && forall|i: int|
                    0 <= i < 16 ==> #[trigger] after[i] < d
        }),
{
    lemma_compaction_exists(before);
    let after = compacted(before);
    assert forall|d: u64| after.contains(d) implies before.contains(d) by {
        let i = choose|i: int| 0 <= i < after.len() && after[i] == d;
        assert(before.contains(after[i]));
    }
    assert forall|d: u64| #[trigger] before.contains(d) && !after.contains(d) implies after.len()
        == 16 && forall|i: int| 0 <= i < 16 ==> #[trigger] after[i] < d by {
        let j = choose|j: int| 0 <= j < before.len() && before[j] == d;
        assert(after.contains(before[j]) || after.last() < before[j]);
        assert forall|i: int| 0 <= i < 16 implies #[trigger] after[i] < d by {
            if i < 15 {
                assert(after[i] < after[15]);
            }
        }
    }
}

/// A timer that is set while none is pending is all that is pending, and the wait for it lasts for
/// its delay, or for as long as a wait can last.
pub proof fn law_lone_timer_is_waited_for(delay_ms: u64, now_ms: u64)
    requires
        500 <= delay_ms,
        now_ms + delay_ms <= u64::MAX,
    ensures
        with_timer(Seq::empty(), delay_ms, now_ms) == seq![(now_ms + delay_ms) as u64],
        delay_ms <= 0x7fff_ffff ==> timeout_ms(with_timer(Seq::empty(), delay_ms, now_ms), now_ms)
            == delay_ms,
        delay_ms > 0x7fff_ffff ==> timeout_ms(with_timer(Seq::empty(), delay_ms, now_ms), now_ms)
            == 0x7fff_ffff,
{
    lemma_lone_deadline(Seq::empty(), (now_ms + delay_ms) as u64);
}

/// No more distinct numbers occur in a sequence than it is long.
proof fn lemma_distinct_fit(few: Seq<u64>, many: Seq<u64>)
    requires
        few.no_duplicates(),
        forall|i: int| 0 <= i < few.len() ==> many.contains(#[trigger] few[i]),
    ensures
        few.len() <= many.len(),
{
    few.unique_seq_to_set();
    many.lemma_cardinality_of_set();
    assert forall|d: u64| few.to_set().contains(d) implies many.to_set().contains(d) by {
        let i = choose|i: int| 0 <= i < few.len() && few[i] == d;
        assert(many.contains(few[i]));
    }
    vstd::set_lib::lemma_len_subset(few.to_set(), many.to_set());
}

/// A timer joins those that are pending: where there is room, they and its deadline are pending
/// afterwards, and nothing else.
pub proof fn law_timer_joins_the_others(deadlines: Seq<u64>, delay_ms: u64, now_ms: u64, d: u64)
    requires
        deadlines.len() < 16,
        500 <= delay_ms,
        now_ms + delay_ms <= u64::MAX,
    ensures
        with_timer(deadlines, delay_ms, now_ms).contains(d) <==> deadlines.contains(d) || d
            == now_ms + delay_ms,
{
    let deadline = (now_ms + delay_ms) as u64;
    let more = deadlines.push(deadline);
    let after = with_timer(deadlines, delay_ms, now_ms);
    law_sixteen_earliest_are_pending(more);
    assert(more[deadlines.len() as int] == deadline);
    if deadlines.contains(d) {
        let j = choose|j: int| 0 <= j < deadlines.len() && deadlines[j] == d;
        assert(more[j] == d);
    }
    if more.contains(d) && !after.contains(d) {
        let longer = after.push(d);
        assert forall|i: int| 0 <= i < longer.len() implies more.contains(#[trigger] longer[i]) by {
            if i < after.len() {
                assert(longer[i] == after[i]);
                assert(after.contains(after[i]));
            }
        }
        lemma_distinct_fit(longer, more);
        assert(false);
    }
    if more.contains(d) {
        let j = choose|j: int| 0 <= j < more.len() && more[j] == d;
        if j < deadlines.len() {
            assert(deadlines[j] == d);
        }
    }
}

/// How long to wait: forever where nothing is pending, not at all where the first deadline has
/// passed, and else until then, or for as long as a wait can last.
pub proof fn law_wait_ends_with_the_first_deadline(deadlines: Seq<u64>, now_ms: u64)
    ensures
        deadlines.len() == 0 ==> timeout_ms(deadlines, now_ms) == -1,
        deadlines.len() > 0 && deadlines[0] <= now_ms ==> timeout_ms(deadlines, now_ms) == 0,
        deadlines.len() > 0 && now_ms < deadlines[0] && deadlines[0] - now_ms <= 0x7fff_ffff
            ==> now_ms + timeout_ms(deadlines, now_ms) == deadlines[0],
        deadlines.len() > 0 && deadlines[0] - now_ms > 0x7fff_ffff ==> timeout_ms(deadlines, now_ms)
            == 0x7fff_ffff,
{
}

/// A timer is served exactly when the first deadline has passed, and serving it takes the first
/// deadline away and no other.
pub proof fn law_earliest_deadline_is_served(deadlines: Seq<u64>, now_ms: u64)
    requires
        forall|i: int, j: int| 0 <= i < j < deadlines.len() ==> deadlines[i] < deadlines[j],
    ensures
        any_due(deadlines, now_ms) <==> deadlines.len() > 0 && deadlines[0] <= now_ms,
        deadlines.len() > 0 && deadlines[0] <= now_ms ==> seq![deadlines[0]] + without_due(
            deadlines,
            now_ms,
        ) == deadlines,
        deadlines.len() == 0 || now_ms < deadlines[0] ==> without_due(deadlines, now_ms)
            == deadlines,
{
    if any_due(deadlines, now_ms) {
        let i = choose|i: int| 0 <= i < deadlines.len() && #[trigger] deadlines[i] <= now_ms;
        if i > 0 {
            assert(deadlines[0] < deadlines[i]);
        }
        assert(seq![deadlines[0]] + without_due(deadlines, now_ms) =~= deadlines);
    }
    if deadlines.len() > 0 && deadlines[0] <= now_ms {
        assert(any_due(deadlines, now_ms));
    }
}

/// A new timer wakes who waits exactly when it goes off before the first deadline, or alone.
pub proof fn law_earlier_timer_wakes(deadlines: Seq<u64>, delay_ms: u64, now_ms: u64)
    requires
        forall|i: int, j: int| 0 <= i < j < deadlines.len() ==> deadlines[i] < deadlines[j],
        500 <= delay_ms,
        now_ms + delay_ms <= u64::MAX,
    ensures
        is_earliest(deadlines, delay_ms, now_ms) <==> deadlines.len() == 0 || now_ms + delay_ms
            < deadlines[0],
{
    if deadlines.len() > 0 && now_ms + delay_ms < deadlines[0] {
        assert forall|i: int| 0 <= i < deadlines.len() implies deadline_after(now_ms, delay_ms)
            < #[trigger] deadlines[i] by {
            if i > 0 {
                assert(deadlines[0] < deadlines[i]);
            }
        }
    }
}

/// A timer that is set while others are pending: what is pending afterwards was pending before or
/// is its deadline, and of those none is given up that is not later than sixteen others.
pub proof fn law_timer_is_set_among_others(deadlines: Seq<u64>, delay_ms: u64, now_ms: u64, d: u64)
    requires
        500 <= delay_ms,
        now_ms + delay_ms <= u64::MAX,
    ensures
        ({
            let after = with_timer(deadlines, delay_ms, now_ms);
            &&& after.contains(d) ==> deadlines.contains(d) || d == now_ms + delay_ms
            &&& (deadlines.contains(d) || d == now_ms + delay_ms) && !after.contains(d)
                ==> after.len() == 16 && forall|i: int| 0 <= i < 16 ==> #[trigger] after[i] < d
        }),
{
    let deadline = (now_ms + delay_ms) as u64;
    lemma_pushed(deadlines, deadline, d);
    law_sixteen_earliest_are_pending(deadlines.push(deadline));
}

/// What a sequence contains after one more number came to it.
proof fn lemma_pushed(numbers: Seq<u64>, number: u64, d: u64)
    ensures
        numbers.push(number).contains(d) <==> numbers.contains(d) || d == number,
{
    let more = numbers.push(number);
    assert(more[numbers.len() as int] == number);
    if numbers.contains(d) {
        let j = choose|j: int| 0 <= j < numbers.len() && numbers[j] == d;
        assert(more[j] == d);
    }
    if more.contains(d) {
        let j = choose|j: int| 0 <= j < more.len() && more[j] == d;
        if j < numbers.len() {
            assert(numbers[j] == d);
        }
    }
}

/// Two timers that are set one after the other: what is pending afterwards was pending before or is
/// one of their deadlines, and of those none is given up that is not later than sixteen others.
pub proof fn law_two_timers_are_set(
    deadlines: Seq<u64>,
    one_ms: u64,
    other_ms: u64,
    now_ms: u64,
    d: u64,
)
    requires
        500 <= one_ms,
        500 <= other_ms,
        now_ms + one_ms <= u64::MAX,
        now_ms + other_ms <= u64::MAX,
    ensures
        ({
            let after = with_timer(with_timer(deadlines, one_ms, now_ms), other_ms, now_ms);
            let wanted = deadlines.contains(d) || d == now_ms + one_ms || d == now_ms + other_ms;
            &&& after.contains(d) ==> wanted
            &&& wanted && !after.contains(d) ==> after.len() == 16 && forall|i: int|
                0 <= i < 16 ==> #[trigger] after[i] < d
        }),
{
    let other = (now_ms + other_ms) as u64;
    let between = with_timer(deadlines, one_ms, now_ms);
    let after = with_timer(between, other_ms, now_ms);
    law_timer_is_set_among_others(deadlines, one_ms, now_ms, d);
    law_timer_is_set_among_others(between, other_ms, now_ms, d);
    law_sixteen_earliest_are_pending(deadlines.push((now_ms + one_ms) as u64));
    law_sixteen_earliest_are_pending(between.push(other));
    let wanted = deadlines.contains(d) || d == now_ms + one_ms || d == now_ms + other_ms;
    if wanted && !after.contains(d) && !between.contains(d) && d != other {
        assert forall|m: u64| between.contains(m) implies m < d by {
            let j = choose|j: int| 0 <= j < between.len() && between[j] == m;
            assert(between[j] < d);
        }
        assert(after.len() == 16) by {
            if after.len() < 16 {
                assert forall|i: int| 0 <= i < between.len() implies after.contains(
                    #[trigger] between[i],
                ) by {
                    assert(between.contains(between[i]));
                    lemma_pushed(between, other, between[i]);
                }
                lemma_distinct_fit(between, after);
            }
        }
        assert forall|i: int| 0 <= i < 16 implies #[trigger] after[i] < d by {
            assert(after.contains(after[i]));
            lemma_pushed(between, other, after[i]);
            if after[i] == other && other > d {
                let both = between.push(other);
                assert forall|j: int| 0 <= j < both.len() implies after.contains(
                    #[trigger] both[j],
                ) by {
                    if j < between.len() {
                        assert(between.contains(between[j]));
                        lemma_pushed(between, other, between[j]);
                        if !after.contains(between[j]) {
                            assert(after[i] < between[j]);
                        }
                    }
                }
                assert forall|j: int, k: int|
                    0 <= j < both.len() && 0 <= k < both.len() && j != k implies both[j]
                    != both[k] by {
                    if j < between.len() {
                        assert(between.contains(between[j]));
                    }
                    if k < between.len() {
                        assert(between.contains(between[k]));
                    }
                }
                lemma_distinct_fit(both, after);
                assert(false);
            }
        }
    }
}

/// A timer that is set behind another one goes off first exactly when it goes off before that one
/// and before the first deadline.
pub proof fn law_second_timer_wakes(
    deadlines: Seq<u64>,
    one_ms: u64,
    other_ms: u64,
    now_ms: u64,
)
    requires
        forall|i: int, j: int| 0 <= i < j < deadlines.len() ==> deadlines[i] < deadlines[j],
        500 <= one_ms,
        500 <= other_ms,
        now_ms + one_ms <= u64::MAX,
        now_ms + other_ms <= u64::MAX,
    ensures
        is_earliest(with_timer(deadlines, one_ms, now_ms), other_ms, now_ms) <==> other_ms < one_ms
            && (deadlines.len() == 0 || now_ms + other_ms < deadlines[0]),
{
    let after = with_timer(deadlines, one_ms, now_ms);
    let one = (now_ms + one_ms) as u64;
    law_sixteen_earliest_are_pending(deadlines.push(one));
    if is_earliest(after, other_ms, now_ms) {
        law_timer_is_set_among_others(deadlines, one_ms, now_ms, one);
        if after.contains(one) {
            let i = choose|i: int| 0 <= i < after.len() && after[i] == one;
            assert(deadline_after(now_ms, other_ms) < after[i]);
        } else {
            assert(deadline_after(now_ms, other_ms) < after[0]);
        }
        if deadlines.len() > 0 {
            let first = deadlines[0];
            assert(deadlines.contains(first));
            law_timer_is_set_among_others(deadlines, one_ms, now_ms, first);
            if after.contains(first) {
                let i = choose|i: int| 0 <= i < after.len() && after[i] == first;
                assert(deadline_after(now_ms, other_ms) < after[i]);
            } else {
                assert(deadline_after(now_ms, other_ms) < after[0]);
            }
        }
    }
    if other_ms < one_ms && (deadlines.len() == 0 || now_ms + other_ms < deadlines[0]) {
        assert forall|i: int| 0 <= i < after.len() implies deadline_after(now_ms, other_ms)
            < #[trigger] after[i] by {
            assert(after.contains(after[i]));
            law_timer_is_set_among_others(deadlines, one_ms, now_ms, after[i]);
            if deadlines.contains(after[i]) {
                let j = choose|j: int| 0 <= j < deadlines.len() && deadlines[j] == after[i];
                if j > 0 {
                    assert(deadlines[0] < deadlines[j]);
                }
            }
        }
    }
}

/// A timer can be set at any time and for any delay: for half a second at least, and at the latest
/// for the last moment that the clock can show. What is pending afterwards was pending before or is
/// its deadline, and of those none is given up that is not later than sixteen others.
pub proof fn law_timer_is_set_at_any_time(deadlines: Seq<u64>, delay_ms: u64, now_ms: u64, d: u64)
    ensures
        ({
            let after = with_timer(deadlines, delay_ms, now_ms);
            let wait: int = if delay_ms < 500 { 500 } else { delay_ms as int };
            let deadline: int = if now_ms + wait > 0xffff_ffff_ffff_ffff {
                0xffff_ffff_ffff_ffff
            } else {
                now_ms + wait
            };
            &&& after.contains(d) ==> deadlines.contains(d) || d == deadline
            &&& (deadlines.contains(d) || d == deadline) && !after.contains(d) ==> after.len() == 16
                && forall|i: int| 0 <= i < 16 ==> #[trigger] after[i] < d
            &&& after.len() <= 16
            &&& forall|i: int, j: int| 0 <= i < j < after.len() ==> after[i] < after[j]
            &&& is_earliest(deadlines, delay_ms, now_ms) <==> forall|i: int|
                0 <= i < deadlines.len() ==> deadline < #[trigger] deadlines[i]
        }),
{
    let deadline = deadline_after(now_ms, delay_ms);
    lemma_pushed(deadlines, deadline, d);
    law_sixteen_earliest_are_pending(deadlines.push(deadline));
}

} // verus!
