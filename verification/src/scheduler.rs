//! The eviction scheduler: when the store is swept.
//!
//! The store is swept at a fixed interval for as long as the process
//! serves.  The scheduler keeps the time of the next sweep and decides, each
//! time it is asked, whether to wait, to sweep or to stop.  Whoever runs it
//! does the waiting and the sweeping.

use crate::store::{clip, swept, LimiterStore, SweepReport};
use vstd::prelude::*;

verus! {

/// What the scheduler asks for.
#[derive(Debug, Clone, Copy, PartialEq, Eq, Structural)]
pub enum Step {
    /// Nothing is due: wait this many nanoseconds and ask again.
    Wait(u64),
    /// A sweep is due: sweep the store and ask again.
    Sweep,
    /// The scheduler was stopped: sweep no more.
    Stop,
}

/// The state of the scheduler: the nanoseconds between two sweeps, the time
/// at which the next one is due, and whether it was stopped.
pub struct SchedulerModel {
    pub interval: nat,
    pub due: nat,
    pub stopped: bool,
}

/// The time `interval` after `now`, or the end of time if that is earlier.
pub open spec fn later(now: nat, interval: nat) -> nat {
    if now + interval <= u64::MAX {
        now + interval
    } else {
        u64::MAX as nat
    }
}

impl SchedulerModel {
    /// What the scheduler asks for at `now`.
    pub open spec fn step(self, now: nat) -> Step {
        if self.stopped {
            Step::Stop
        } else if now >= self.due {
            Step::Sweep
        } else {
            Step::Wait((self.due - now) as u64)
        }
    }

    /// The scheduler after it was asked at `now`: if it asked for a sweep,
    /// the next one is due an interval after `now`.
    pub open spec fn after_poll(self, now: nat) -> SchedulerModel {
        if !self.stopped && now >= self.due {
            SchedulerModel { due: later(now, self.interval), ..self }
        } else {
            self
        }
    }
}

/// Decides when the store is swept.
#[derive(Debug)]
pub struct EvictionScheduler {
    interval_nanos: u64,
    due: u64,
    stopped: bool,
}

impl View for EvictionScheduler {
    type V = SchedulerModel;

    closed spec fn view(&self) -> SchedulerModel {
        SchedulerModel {
            interval: self.interval_nanos as nat,
            due: self.due as nat,
            stopped: self.stopped,
        }
    }
}

impl EvictionScheduler {
    /// A scheduler started at `now` that asks for a sweep every
    /// `interval_nanos` nanoseconds, for the first time one interval after
    /// `now`.  There is no scheduler with an interval of zero.
    pub fn new(interval_nanos: u64, now: u64) -> (r: Option<EvictionScheduler>)
        ensures
            match r {
                Some(s) => interval_nanos > 0 && s@ == (SchedulerModel {
                    interval: interval_nanos as nat,
                    due: later(now as nat, interval_nanos as nat),
                    stopped: false,
                }),
                None => interval_nanos == 0,
            },
    {
        if interval_nanos == 0 {
            None
        } else {
            Some(
                EvictionScheduler {
                    interval_nanos,
                    due: now.saturating_add(interval_nanos),
                    stopped: false,
                },
            )
        }
    }

    /// Asks the scheduler what to do at `now`.
    pub fn poll(&mut self, now: u64) -> (step: Step)
        ensures
            step == old(self)@.step(now as nat),
            final(self)@ == old(self)@.after_poll(now as nat),
    {
        if self.stopped {
            Step::Stop
        } else if now >= self.due {
            self.due = now.saturating_add(self.interval_nanos);
            Step::Sweep
        } else {
            Step::Wait(self.due - now)
        }
    }

    /// Stops the scheduler: from now on it asks for no sweep.
    pub fn stop(&mut self)
        ensures
            final(self)@ == (SchedulerModel { stopped: true, ..old(self)@ }),
    {
        self.stopped = true;
    }

    /// Whether the scheduler was stopped.
    pub fn is_stopped(&self) -> (b: bool)
        ensures
            b == self@.stopped,
    {
        self.stopped
    }

    /// Asks the scheduler what to do at `now` and does it, as far as it is
    /// a sweep: the store is swept if and only if a sweep is due, and is
    /// left as it is otherwise.
    pub fn tick(&mut self, store: &mut LimiterStore, now: u64) -> (r: (Step, Option<SweepReport>))
        requires
            old(store).wf(),
            old(store).tokens_in_range(),
        ensures
            r.0 == old(self)@.step(now as nat),
            final(self)@ == old(self)@.after_poll(now as nat),
            final(store).wf(),
            final(store).tokens_in_range(),
            final(store).quota_model() == old(store).quota_model(),
            final(store).idle_threshold() == old(store).idle_threshold(),
            final(store).shard_total() == old(store).shard_total(),
            r.0 == Step::Sweep ==> final(store)@ == swept(
                old(store)@,
                now as nat,
                old(store).idle_threshold(),
            ),
            r.0 != Step::Sweep ==> final(store)@ == old(store)@,
            r.1 is Some <==> r.0 == Step::Sweep,
            r.1 matches Some(report) ==> report.size == clip(old(store)@.len() as int)
                && report.evicted == clip(old(store)@.len() - final(store)@.len()),
    {
        let step = self.poll(now);
        match step {
            Step::Sweep => {
                let report = store.sweep(now);
                (step, Some(report))
            },
            _ => (step, None),
        }
    }
}

/// Two sweeps lie at least an interval apart: after a sweep at `now`, a
/// scheduler that is asked again before an interval has passed asks to
/// wait, for what is left of the interval.
pub proof fn lemma_sweeps_keep_their_distance(s: SchedulerModel, now: nat, again: nat)
    requires
        s.step(now) == Step::Sweep,
        now <= again < now + s.interval,
        now + s.interval <= u64::MAX,
    ensures
        s.after_poll(now).step(again) == Step::Wait((now + s.interval - again) as u64),
{
}

/// A stopped scheduler stays stopped: it asks to stop whenever it is asked,
/// and being asked changes nothing.
pub proof fn lemma_stopped_stays_stopped(s: SchedulerModel, now: nat)
    requires
        s.stopped,
    ensures
        s.step(now) == Step::Stop,
        s.after_poll(now) == s,
{
}

} // verus!
