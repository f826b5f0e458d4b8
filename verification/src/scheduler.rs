//! The task-graph scheduler's accounting. Work units are counted by two
//! monotone counters: `scheduled`, stepped before a unit becomes eligible
//! to run, and `completed`, stepped when a unit retires. `scheduled` is
//! seeded to one before the root unit exists, so no observer sees a
//! `0 == 0` window before any work is registered. The run is quiescent
//! exactly when the counters meet; the ordering discipline — a unit's
//! children are all registered before the unit itself retires — is what
//! makes that test sound, and the trace lemmas below state it.

use vstd::prelude::*;

verus! {

/// The two run counters. `completed` never passes `scheduled`.
pub struct Counters {
    scheduled: u64,
    completed: u64,
}

impl Counters {
    /// Units registered so far, the seed counted.
    pub closed spec fn scheduled(&self) -> int {
        self.scheduled as int
    }

    /// Units retired so far.
    pub closed spec fn completed(&self) -> int {
        self.completed as int
    }

    /// Units registered and not yet retired: queued or executing.
    pub open spec fn pending(&self) -> int {
        self.scheduled() - self.completed()
    }

    /// The counters never cross.
    pub open spec fn wf(&self) -> bool {
        0 <= self.completed() <= self.scheduled()
    }

    /// Nothing is left queued or executing.
    pub open spec fn is_quiescent(&self) -> bool {
        self.completed() == self.scheduled()
    }

    /// Fresh counters, seeded for the root unit that is about to exist.
    pub fn new() -> (r: Counters)
        ensures
            r.wf(),
            r.scheduled() == 1,
            r.completed() == 0,
    {
        Counters { scheduled: 1, completed: 0 }
    }

    /// Registers one unit, before it is made eligible to run. Only a unit
    /// in flight registers new ones, so the count stays truthful.
    pub fn submit(&mut self)
        requires
            old(self).wf(),
            old(self).scheduled() < u64::MAX,
        ensures
            final(self).wf(),
            final(self).scheduled() == old(self).scheduled() + 1,
            final(self).completed() == old(self).completed(),
            !final(self).is_quiescent(),
    {
        self.scheduled = self.scheduled + 1;
    }

    /// Retires one unit, after any children it spawned were registered.
    /// A unit must be in flight for one to retire.
    pub fn complete(&mut self)
        requires
            old(self).wf(),
            old(self).pending() > 0,
        ensures
            final(self).wf(),
            final(self).scheduled() == old(self).scheduled(),
            final(self).completed() == old(self).completed() + 1,
            final(self).pending() == old(self).pending() - 1,
    {
        self.completed = self.completed + 1;
    }

    /// Whether the counters have met: nothing queued, nothing executing.
    pub fn quiescent(&self) -> (r: bool)
        ensures
            r == self.is_quiescent(),
    {
        self.completed == self.scheduled
    }

    /// How many units are registered and not yet retired.
    pub fn in_flight(&self) -> (r: u64)
        requires
            self.wf(),
        ensures
            r as int == self.pending(),
    {
        self.scheduled - self.completed
    }

    /// The counter values, for a progress observer.
    pub fn totals(&self) -> (r: (u64, u64))
        ensures
            r.0 as int == self.scheduled(),
            r.1 as int == self.completed(),
    {
        (self.scheduled, self.completed)
    }
}

/// One step of a run, as an observer of the counters sees it.
pub enum SchedEvent {
    /// A unit in flight registered one new unit.
    Submit,
    /// A unit in flight retired.
    Retire,
}

/// Units in flight after a trace of events, the seed counted: the seed,
/// plus one per registration, minus one per retirement.
pub open spec fn pending_after(t: Seq<SchedEvent>) -> int
    decreases t.len(),
{
    if t.len() == 0 {
        1
    } else {
        match t.last() {
            SchedEvent::Submit => pending_after(t.drop_last()) + 1,
            SchedEvent::Retire => pending_after(t.drop_last()) - 1,
        }
    }
}

/// A well-formed run: every event is the act of a unit in flight (the seed
/// at first), so each event happens only while something is pending. This
/// is the §ordering discipline seen from the counters: a parent registers
/// its children while it is itself still counted in flight, and retires
/// only afterwards.
pub open spec fn trace_wf(t: Seq<SchedEvent>) -> bool {
    forall|i: int| 0 <= i < t.len() ==> pending_after(#[trigger] t.take(i)) > 0
}

/// Quiescence is never signaled early: at any point of a well-formed run
/// with events still to come, a unit is queued or executing, and the
/// counters do not read as quiescent there.
pub proof fn lemma_no_false_quiescence(t: Seq<SchedEvent>, i: int)
    requires
        trace_wf(t),
        0 <= i < t.len(),
    ensures
        pending_after(t.take(i)) > 0,
{
}

/// How many events of a trace are retirements.
pub open spec fn count_retired(t: Seq<SchedEvent>) -> int
    decreases t.len(),
{
    if t.len() == 0 {
        0
    } else {
        count_retired(t.drop_last()) + if t.last() is Retire {
            1int
        } else {
            0int
        }
    }
}

/// How many events of a trace are registrations.
pub open spec fn count_submitted(t: Seq<SchedEvent>) -> int
    decreases t.len(),
{
    if t.len() == 0 {
        0
    } else {
        count_submitted(t.drop_last()) + if t.last() is Submit {
            1int
        } else {
            0int
        }
    }
}

/// The pending count is exactly the seed plus registrations minus
/// retirements — that is, what the `scheduled` counter minus the
/// `completed` counter reads after a run that followed the trace.
pub proof fn lemma_pending_counts(t: Seq<SchedEvent>)
    ensures
        pending_after(t) == 1 + count_submitted(t) - count_retired(t),
    decreases t.len(),
{
    if t.len() > 0 {
        lemma_pending_counts(t.drop_last());
    }
}

/// Quiescence is always eventually signaled for a finite run: once every
/// registered unit (the seed counted) has retired, the counters meet.
pub proof fn lemma_quiescence_reached(t: Seq<SchedEvent>)
    requires
        count_retired(t) == 1 + count_submitted(t),
    ensures
        pending_after(t) == 0,
{
    lemma_pending_counts(t);
}

/// Quiescence is stable: a well-formed run cannot move past a point where
/// nothing is pending, so the first quiescent observation is final.
pub proof fn lemma_quiescence_stable(t: Seq<SchedEvent>, i: int)
    requires
        trace_wf(t),
        0 <= i <= t.len(),
        pending_after(t.take(i)) == 0,
    ensures
        i == t.len(),
{
    if i < t.len() {
        lemma_no_false_quiescence(t, i);
    }
}

} // verus!
