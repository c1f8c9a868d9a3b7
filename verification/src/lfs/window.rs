//! Running many tasks with a bound on how many run at once.
//!
//! A [`Window`] decides; its caller acts. The caller asks for the next
//! step, starts the task it is told to start or waits for one to end, and
//! hands each outcome back with the number of its task. Tasks end in any
//! order; the outcomes come out in the order of the tasks.

use vstd::prelude::*;

verus! {

/// How many of the slots hold an outcome.
pub open spec fn landed_count<T>(slots: Seq<Option<T>>) -> nat
    decreases slots.len(),
{
    if slots.len() == 0 {
        0
    } else if slots.last() is Some {
        landed_count(slots.drop_last()) + 1
    } else {
        landed_count(slots.drop_last())
    }
}

/// The state of a window as contracts see it: how many tasks may run at
/// once, how many were started, and the outcome of each task that ended.
/// Tasks are started from the last to the first.
pub struct WindowView<T> {
    pub budget: nat,
    pub started: nat,
    pub slots: Seq<Option<T>>,
}

/// What the caller of a window is to do next.
pub enum Step<T> {
    /// Start the task with this number.
    Start(usize),
    /// Wait until a running task ends, and hand its outcome back.
    Wait,
    /// Nothing is left to do: here are the outcomes, in the order of the
    /// tasks.
    Done(Vec<T>),
}

impl<T> WindowView<T> {
    /// How many tasks there are.
    pub open spec fn total(self) -> nat {
        self.slots.len()
    }

    /// How many tasks are running.
    pub open spec fn in_flight(self) -> int {
        self.started - landed_count(self.slots)
    }

    /// Whether task `index` is running: it was started and has not ended.
    pub open spec fn flying(self, index: int) -> bool {
        self.total() - self.started <= index < self.total() && self.slots[index] is None
    }

    /// Whether another task can be started now.
    pub open spec fn can_start(self) -> bool {
        self.started < self.total() && self.in_flight() < self.budget
    }

    /// Whether every task was started and has ended.
    pub open spec fn finished(self) -> bool {
        self.started == self.total() && self.in_flight() == 0
    }

    /// The states that a window can be in: never more tasks run than the
    /// budget allows, and only a task that was started has an outcome.
    pub open spec fn wf(self) -> bool {
        &&& self.started <= self.total()
        &&& 0 <= self.in_flight() <= self.budget
        &&& forall|i: int| 0 <= i < self.total() - self.started ==> self.slots[i] is None
    }

    /// The state after the next task was started.
    pub open spec fn start(self) -> Self {
        WindowView { started: self.started + 1, ..self }
    }

    /// The state after `outcome` was handed back for task `index`: it is
    /// kept where that task is running, and dropped where it is not.
    pub open spec fn land(self, index: int, outcome: T) -> Self {
        if self.flying(index) {
            WindowView { slots: self.slots.update(index, Some(outcome)), ..self }
        } else {
            self
        }
    }

    /// The state after the outcomes were handed out: no task is left.
    pub open spec fn drained(self) -> Self {
        WindowView { started: 0, slots: Seq::empty(), ..self }
    }

    /// The outcomes in the order of the tasks.
    pub open spec fn outcomes(self) -> Seq<T> {
        Seq::new(self.slots.len(), |i: int| self.slots[i]->Some_0)
    }
}

/// A window over a run of tasks.
pub struct Window<T> {
    budget: usize,
    started: usize,
    landed: usize,
    slots: Vec<Option<T>>,
}

impl<T> View for Window<T> {
    type V = WindowView<T>;

    closed spec fn view(&self) -> WindowView<T> {
        WindowView { budget: self.budget as nat, started: self.started as nat, slots: self.slots@ }
    }
}

/// Slots that are known to be empty hold no outcome: no more outcomes are
/// held than there are other slots.
pub proof fn landed_count_bound<T>(slots: Seq<Option<T>>, free: int)
    requires
        0 <= free <= slots.len(),
        forall|i: int| 0 <= i < free ==> slots[i] is None,
    ensures
        landed_count(slots) <= slots.len() - free,
    decreases slots.len(),
{
    if slots.len() > free {
        landed_count_bound(slots.drop_last(), free);
    } else if slots.len() > 0 {
        landed_count_bound(slots.drop_last(), free - 1);
    }
}

/// One more empty slot, one outcome fewer at most.
pub proof fn landed_count_gap<T>(slots: Seq<Option<T>>, free: int, gap: int)
    requires
        0 <= free <= gap < slots.len(),
        forall|i: int| 0 <= i < free ==> slots[i] is None,
        slots[gap] is None,
    ensures
        landed_count(slots) < slots.len() - free,
    decreases slots.len(),
{
    if gap == slots.len() - 1 {
        landed_count_bound(slots.drop_last(), free);
    } else {
        landed_count_gap(slots.drop_last(), free, gap);
    }
}

/// An outcome put into an empty slot is one outcome more.
pub proof fn landed_count_update<T>(slots: Seq<Option<T>>, index: int, outcome: T)
    requires
        0 <= index < slots.len(),
        slots[index] is None,
    ensures
        landed_count(slots.update(index, Some(outcome))) == landed_count(slots) + 1,
    decreases slots.len(),
{
    let after = slots.update(index, Some(outcome));
    if index == slots.len() - 1 {
        assert(after.drop_last() =~= slots.drop_last());
    } else {
        landed_count_update(slots.drop_last(), index, outcome);
        assert(after.drop_last() =~= slots.drop_last().update(index, Some(outcome)));
    }
}

/// Where as many outcomes are held as there are slots, every slot holds
/// one.
pub proof fn landed_count_full<T>(slots: Seq<Option<T>>)
    requires
        landed_count(slots) >= slots.len(),
    ensures
        forall|i: int| 0 <= i < slots.len() ==> (#[trigger] slots[i]) is Some,
    decreases slots.len(),
{
    if slots.len() > 0 {
        landed_count_bound(slots.drop_last(), 0);
        landed_count_full(slots.drop_last());
        assert forall|i: int| 0 <= i < slots.len() implies (#[trigger] slots[i]) is Some by {
            if i < slots.len() - 1 {
                assert(slots.drop_last()[i] is Some);
            }
        }
    }
}

impl<T> Window<T> {
    /// What holds of every window, whatever was done with it.
    pub closed spec fn wf(&self) -> bool {
        &&& self@.wf()
        &&& self.landed == landed_count(self.slots@)
    }

    /// A window over `total` tasks, of which up to `budget` run at once.
    /// With a budget of zero no task ever starts, and a window over one task
    /// or more is never done.
    pub fn new(total: usize, budget: usize) -> (window: Self)
        ensures
            window.wf(),
            window@ == (WindowView::<T> {
                budget: budget as nat,
                started: 0,
                slots: Seq::new(total as nat, |i: int| None::<T>),
            }),
            window@.in_flight() == 0,
    {
        let mut slots: Vec<Option<T>> = Vec::new();
        let mut i: usize = 0;
        while i < total
            invariant
                i <= total,
                slots@ =~= Seq::new(i as nat, |i: int| None::<T>),
                landed_count(slots@) == 0,
            decreases total - i,
        {
            let ghost before = slots@;
            slots.push(None);
            assert(slots@.drop_last() =~= before);
            i += 1;
        }
        Window { budget, started: 0, landed: 0, slots }
    }

    /// How many tasks are running.
    pub fn in_flight(&self) -> (count: usize)
        requires
            self.wf(),
        ensures
            count == self@.in_flight(),
            count <= self@.budget,
    {
        self.started - self.landed
    }

    /// What to do next. A task is started while one is left and a slot is
    /// free. When every task has ended, all is done and the outcomes are
    /// handed out, the one of the first task first. Else the caller waits.
    pub fn step(&mut self) -> (step: Step<T>)
        requires
            old(self).wf(),
        ensures
            final(self).wf(),
            match step {
                Step::Start(index) => {
                    &&& old(self)@.can_start()
                    &&& index == old(self)@.total() - old(self)@.started - 1
                    &&& final(self)@ == old(self)@.start()
                    &&& final(self)@.flying(index as int)
                    &&& final(self)@.in_flight() == old(self)@.in_flight() + 1
                },
                Step::Wait => {
                    &&& !old(self)@.can_start()
                    &&& !old(self)@.finished()
                    &&& final(self)@ == old(self)@
                },
                Step::Done(outcomes) => {
                    &&& old(self)@.finished()
                    &&& outcomes@ == old(self)@.outcomes()
                    &&& final(self)@ == old(self)@.drained()
                    &&& forall|i: int|
                        0 <= i < old(self)@.total() ==> (#[trigger] old(self)@.slots[i]) is Some
                },
            },
    {
        let total = self.slots.len();
        if self.started < total && self.started - self.landed < self.budget {
            self.started += 1;
            let index = total - self.started;
            proof {
                landed_count_gap(self.slots@, total - self.started, index as int);
            }
            return Step::Start(index);
        }
        if self.started < total || self.started > self.landed {
            return Step::Wait;
        }
        proof {
            landed_count_bound(self.slots@, total - self.started);
            landed_count_full(self.slots@);
        }
        let ghost given = self.slots@;
        let mut slots: Vec<Option<T>> = Vec::new();
        core::mem::swap(&mut self.slots, &mut slots);
        self.started = 0;
        self.landed = 0;
        let mut outcomes: Vec<T> = Vec::new();
        for slot in it: slots.into_iter()
            invariant
                it.seq() == given,
                forall|i: int| 0 <= i < given.len() ==> (#[trigger] given[i]) is Some,
                outcomes@ =~= Seq::new(it.index() as nat, |i: int| given[i]->Some_0),
        {
            match slot {
                Some(outcome) => {
                    outcomes.push(outcome);
                },
                None => {},
            }
        }
        Step::Done(outcomes)
    }

    /// Takes the outcome of task `index`. It is kept where that task is
    /// running; one for a task that was not started, or that has ended
    /// before, is dropped, and the answer is `false`.
    pub fn land(&mut self, index: usize, outcome: T) -> (kept: bool)
        requires
            old(self).wf(),
        ensures
            final(self).wf(),
            kept == old(self)@.flying(index as int),
            final(self)@ == old(self)@.land(index as int, outcome),
            final(self)@.in_flight() == old(self)@.in_flight() - if kept {
                1int
            } else {
                0int
            },
    {
        let total = self.slots.len();
        if index >= total || index < total - self.started {
            return false;
        }
        if self.slots[index].is_some() {
            return false;
        }
        proof {
            landed_count_gap(self.slots@, total - self.started, index as int);
            landed_count_update(self.slots@, index as int, outcome);
        }
        self.slots[index] = Some(outcome);
        self.landed += 1;
        true
    }
}

/// What can happen to a window between two looks at it.
pub enum Event<T> {
    /// The caller asked for a step, and a task was started where one could
    /// be.
    Asked,
    /// A task ended, and its outcome was handed back.
    Ended(int, T),
}

impl<T> WindowView<T> {
    /// The state after one event.
    pub open spec fn react(self, event: Event<T>) -> Self {
        match event {
            Event::Asked => if self.can_start() {
                self.start()
            } else {
                self
            },
            Event::Ended(index, outcome) => self.land(index, outcome),
        }
    }

    /// The state after a run of events.
    pub open spec fn after(self, events: Seq<Event<T>>) -> Self
        decreases events.len(),
    {
        if events.len() == 0 {
            self
        } else {
            self.after(events.drop_last()).react(events.last())
        }
    }
}

/// However tasks are started and in whatever order they end, a window stays
/// in order: never more tasks run than its budget allows.
pub proof fn budget_is_kept<T>(window: WindowView<T>, events: Seq<Event<T>>)
    requires
        window.wf(),
    ensures
        window.after(events).wf(),
        window.after(events).in_flight() <= window.budget,
        window.after(events).budget == window.budget,
        window.after(events).total() == window.total(),
    decreases events.len(),
{
    if events.len() > 0 {
        budget_is_kept(window, events.drop_last());
        let before = window.after(events.drop_last());
        match events.last() {
            Event::Asked => {
                if before.can_start() {
                    landed_count_gap(
                        before.slots,
                        before.total() - before.started - 1,
                        before.total() - before.started - 1,
                    );
                }
            },
            Event::Ended(index, outcome) => {
                if before.flying(index) {
                    landed_count_gap(before.slots, before.total() - before.started, index);
                    landed_count_update(before.slots, index, outcome);
                }
            },
        }
    }
}

/// The outcome of a task stands at the place of that task, and stays there:
/// once it is kept, nothing that happens later moves or replaces it. So
/// what a window hands out when all is done is in the order of the tasks,
/// in whatever order they ended.
pub proof fn outcome_stays_in_place<T>(
    window: WindowView<T>,
    index: int,
    outcome: T,
    events: Seq<Event<T>>,
)
    requires
        window.wf(),
        window.flying(index),
    ensures
        window.land(index, outcome).after(events).slots[index] == Some(outcome),
        window.land(index, outcome).after(events).total() == window.total(),
    decreases events.len(),
{
    let landed = window.land(index, outcome);
    assert(0 <= index < window.slots.len());
    assert(landed.slots.len() == window.slots.len());
    landed_count_gap(window.slots, window.total() - window.started, index);
    landed_count_update(window.slots, index, outcome);
    if events.len() > 0 {
        outcome_stays_in_place(window, index, outcome, events.drop_last());
        budget_is_kept(landed, events.drop_last());
        let before = landed.after(events.drop_last());
        assert(landed.after(events) == before.react(events.last()));
        match events.last() {
            Event::Asked => {},
            Event::Ended(other, later) => {
                if before.flying(other) {
                    assert(other != index);
                    assert(0 <= other < before.slots.len());
                    assert(before.slots.len() == window.slots.len());
                    assert(before.slots.update(other, Some(later))[index] == before.slots[index]);
                }
            },
        }
    } else {
        assert(landed.after(events) == landed);
        assert(landed.slots[index] == Some(outcome));
    }
}

} // verus!
