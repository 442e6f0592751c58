//! The workers of a tunnel that is running, the pipes that stop them, and how they are stopped.

use vstd::prelude::*;

verus! {

/// The workers of a tunnel, and what reaches them.
pub struct Crew<W, P> {
    workers: Vec<W>,
    stop_writers: Vec<P>,
    timer_wake: Option<i32>,
}

/// The contents of a [`Crew`].
#[verifier::ext_equal]
pub ghost struct CrewView<W, P> {
    /// The workers, in the order in which they came.
    pub workers: Seq<W>,
    /// The ends of the pipes that stop them.
    pub stop_writers: Seq<P>,
    /// The descriptor that wakes who waits for the earliest deadline.
    pub timer_wake: Option<i32>,
}

impl<W, P> View for Crew<W, P> {
    type V = CrewView<W, P>;

    closed spec fn view(&self) -> CrewView<W, P> {
        CrewView {
            workers: self.workers@,
            stop_writers: self.stop_writers@,
            timer_wake: self.timer_wake,
        }
    }
}

/// A crew of nobody.
pub open spec fn nobody<W, P>() -> CrewView<W, P> {
    CrewView { workers: Seq::empty(), stop_writers: Seq::empty(), timer_wake: None }
}

impl<W, P> Crew<W, P> {
    /// A crew of nobody.
    pub fn new() -> (crew: Crew<W, P>)
        ensures
            crew@ == nobody::<W, P>(),
    {
        Crew { workers: Vec::new(), stop_writers: Vec::new(), timer_wake: None }
    }

    /// Takes on the two workers of a tunnel, and the ends of the pipes that stop them.
    pub fn enlist(&mut self, tun_stop_write: P, udp_stop_write: P, tun_worker: W, udp_worker: W)
        ensures
            final(self)@ == (CrewView {
                workers: old(self)@.workers.push(tun_worker).push(udp_worker),
                stop_writers: old(self)@.stop_writers.push(tun_stop_write).push(udp_stop_write),
                ..old(self)@
            }),
    {
        self.stop_writers.push(tun_stop_write);
        self.stop_writers.push(udp_stop_write);
        self.workers.push(tun_worker);
        self.workers.push(udp_worker);
    }

    /// Makes known which descriptor wakes who waits for the earliest deadline, or that none does.
    pub fn set_timer_wake(&mut self, fd: Option<i32>)
        ensures
            final(self)@ == (CrewView { timer_wake: fd, ..old(self)@ }),
    {
        self.timer_wake = fd;
    }

    /// The descriptor that wakes who waits for the earliest deadline.
    pub fn timer_wake(&self) -> (fd: Option<i32>)
        ensures
            fd == self@.timer_wake,
    {
        self.timer_wake
    }

    /// The end of a pipe that stops a worker.
    pub fn stop_writer(&self, index: usize) -> (writer: &P)
        requires
            index < self@.stop_writers.len(),
        ensures
            *writer == self@.stop_writers[index as int],
    {
        &self.stop_writers[index]
    }
}

/// A step of stopping a crew.
pub enum StopStep<W> {
    /// Write a signal into a pipe.
    Signal(usize),
    /// Wait for a worker to end.
    Join(W),
    /// Nothing: all are stopped.
    Done,
}

/// The next step of stopping a crew, when `signalled` pipes have got their signal: the other pipes
/// get theirs, and all the workers are waited for, the one that came last first.
pub open spec fn stop_step<W, P>(crew: CrewView<W, P>, signalled: nat) -> StopStep<W> {
    if signalled < crew.stop_writers.len() {
        StopStep::Signal(signalled as usize)
    } else if crew.workers.len() > 0 {
        StopStep::Join(crew.workers.last())
    } else {
        StopStep::Done
    }
}

/// A crew after the next step of stopping it. Once all workers have ended, the pipes are closed.
pub open spec fn after_stop_step<W, P>(crew: CrewView<W, P>, signalled: nat) -> CrewView<W, P> {
    match stop_step(crew, signalled) {
        StopStep::Signal(_) => crew,
        StopStep::Join(_) => CrewView { workers: crew.workers.drop_last(), ..crew },
        StopStep::Done => nobody(),
    }
}

/// Takes the next step of stopping a crew, when `signalled` pipes have got their signal.
pub fn next_stop_step<W, P>(crew: &mut Crew<W, P>, signalled: usize) -> (step: StopStep<W>)
    ensures
        step == stop_step(old(crew)@, signalled as nat),
        final(crew)@ == after_stop_step(old(crew)@, signalled as nat),
{
    if signalled < crew.stop_writers.len() {
        return StopStep::Signal(signalled);
    }
    match crew.workers.pop() {
        Some(worker) => StopStep::Join(worker),
        None => {
            crew.stop_writers.clear();
            crew.timer_wake = None;
            StopStep::Done
        },
    }
}

/// What happens while a crew is stopped.
pub ghost enum StopEvent<W, P> {
    /// A pipe gets its signal.
    Signalled(P),
    /// A worker is waited for.
    Joined(W),
}

/// How many steps of stopping a crew are left.
pub open spec fn steps_left<W, P>(crew: CrewView<W, P>, signalled: nat) -> nat {
    if signalled < crew.stop_writers.len() {
        (crew.workers.len() + crew.stop_writers.len() - signalled) as nat
    } else {
        crew.workers.len()
    }
}

/// What happens while a crew is stopped, step by step, and what is left of it.
pub open spec fn stop_run<W, P>(crew: CrewView<W, P>, signalled: nat) -> (
    Seq<StopEvent<W, P>>,
    CrewView<W, P>,
)
    decreases steps_left(crew, signalled),
{
    let after = after_stop_step(crew, signalled);
    match stop_step(crew, signalled) {
        StopStep::Signal(_) => {
            let rest = stop_run(after, signalled + 1);
            (seq![StopEvent::Signalled(crew.stop_writers[signalled as int])] + rest.0, rest.1)
        },
        StopStep::Join(worker) => {
            let rest = stop_run(after, signalled);
            (seq![StopEvent::Joined(worker)] + rest.0, rest.1)
        },
        StopStep::Done => (Seq::empty(), after),
    }
}

/// That each of some pipes gets its signal, in turn.
pub open spec fn all_signalled<W, P>(stop_writers: Seq<P>) -> Seq<StopEvent<W, P>> {
    Seq::new(stop_writers.len(), |i: int| StopEvent::Signalled(stop_writers[i]))
}

/// That each of some workers is waited for, from the last to the first.
pub open spec fn all_joined<W, P>(workers: Seq<W>) -> Seq<StopEvent<W, P>> {
    Seq::new(workers.len(), |i: int| StopEvent::Joined(workers[workers.len() - 1 - i]))
}

/// What is left to happen while a crew is stopped.
proof fn lemma_stop_run<W, P>(crew: CrewView<W, P>, signalled: nat)
    requires
        signalled <= crew.stop_writers.len(),
    ensures
        stop_run(crew, signalled).0 == all_signalled::<W, P>(
            crew.stop_writers.skip(signalled as int),
        ) + all_joined(crew.workers),
        stop_run(crew, signalled).1 == nobody::<W, P>(),
    decreases steps_left(crew, signalled),
{
    let events = stop_run(crew, signalled).0;
    let writers = crew.stop_writers.skip(signalled as int);
    let expected = all_signalled::<W, P>(writers) + all_joined(crew.workers);
    if signalled < crew.stop_writers.len() {
        lemma_stop_run(crew, signalled + 1);
        let rest = crew.stop_writers.skip((signalled + 1) as int);
        assert(events =~= expected) by {
            assert(rest =~= writers.skip(1));
            assert(all_signalled::<W, P>(writers) =~= seq![
                StopEvent::<W, P>::Signalled(writers[0]),
            ] + all_signalled::<W, P>(rest));
        }
    } else if crew.workers.len() > 0 {
        let left = CrewView { workers: crew.workers.drop_last(), ..crew };
        lemma_stop_run(left, signalled);
        assert(all_joined::<W, P>(crew.workers) =~= seq![
            StopEvent::<W, P>::Joined(crew.workers.last()),
        ] + all_joined::<W, P>(left.workers));
        assert(events =~= expected);
    } else {
        assert(events =~= expected);
    }
}

/// Stopping a crew lets no worker go on: every pipe gets one signal, and only then every worker is
/// waited for. In the end nobody is left, no pipe is open and no descriptor wakes anybody.
pub proof fn law_stop_reaches_everyone<W, P>(crew: CrewView<W, P>)
    ensures
        stop_run(crew, 0).0 == all_signalled::<W, P>(crew.stop_writers) + all_joined(crew.workers),
        stop_run(crew, 0).1 == nobody::<W, P>(),
{
    lemma_stop_run(crew, 0);
    assert(crew.stop_writers.skip(0) =~= crew.stop_writers);
}

/// Stopping a crew a second time does nothing.
pub proof fn law_second_stop_does_nothing<W, P>(crew: CrewView<W, P>)
    ensures
        stop_run(stop_run(crew, 0).1, 0) == (Seq::<StopEvent<W, P>>::empty(), stop_run(crew, 0).1),
{
    law_stop_reaches_everyone(crew);
    law_stop_reaches_everyone(nobody::<W, P>());
    assert(stop_run(nobody::<W, P>(), 0).0 =~= Seq::empty());
}

/// Stopping a crew step by step: the pipes get their signals in their order, the workers are waited
/// for from the last to the first, and at the end all is taken away.
pub proof fn law_stop_steps<W, P>(crew: CrewView<W, P>, signalled: nat)
    requires
        crew.stop_writers.len() <= usize::MAX,
    ensures
        ({
            let step = stop_step(crew, signalled);
            let after = after_stop_step(crew, signalled);
            let all_signalled = signalled >= crew.stop_writers.len();
            let last = crew.workers[crew.workers.len() - 1];
            &&& !all_signalled ==> {
                &&& step matches StopStep::Signal(index) && index == signalled
                &&& after == crew
            }
            &&& all_signalled && crew.workers.len() > 0 ==> {
                &&& step == StopStep::<W>::Join(last)
                &&& after.workers.push(last) == crew.workers
                &&& after.stop_writers == crew.stop_writers
                &&& after.timer_wake == crew.timer_wake
            }
            &&& all_signalled && crew.workers.len() == 0 ==> {
                &&& step is Done
                &&& after.workers.len() == 0
                &&& after.stop_writers.len() == 0
                &&& after.timer_wake is None
            }
        }),
{
    if signalled >= crew.stop_writers.len() && crew.workers.len() > 0 {
        assert(crew.workers.drop_last().push(crew.workers.last()) =~= crew.workers);
    }
}

/// Of what happens while a crew is stopped, the first events are the signals to its pipes, each in
/// its place, and all the others are that its workers are waited for, from the last to the first.
pub proof fn law_stop_events_in_order<W, P>(crew: CrewView<W, P>, i: int)
    ensures
        stop_run(crew, 0).0.len() == crew.stop_writers.len() + crew.workers.len(),
        0 <= i < crew.stop_writers.len() ==> stop_run(crew, 0).0[i] == StopEvent::<W, P>::Signalled(
            crew.stop_writers[i],
        ),
        0 <= i < crew.workers.len() ==> stop_run(crew, 0).0[crew.stop_writers.len() + i]
            == StopEvent::<W, P>::Joined(crew.workers[crew.workers.len() - 1 - i]),
        stop_run(crew, 0).1.workers.len() == 0,
        stop_run(crew, 0).1.stop_writers.len() == 0,
        stop_run(crew, 0).1.timer_wake is None,
{
    law_stop_reaches_everyone(crew);
}

/// In a crew of nobody there is nobody, no pipe and no descriptor.
pub proof fn law_nobody_is_there<W, P>()
    ensures
        nobody::<W, P>().workers.len() == 0,
        nobody::<W, P>().stop_writers.len() == 0,
        nobody::<W, P>().timer_wake is None,
{
}

} // verus!
