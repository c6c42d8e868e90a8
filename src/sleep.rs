use vstd::prelude::*;

use crate::arith::sat_u64;
use crate::gate::Gate;
use crate::sequence::{ChainModel, GatedSequence};

verus! {

/// Where a fixed-delay gate is re-armed after it fired: one duration past
/// the instant it was scheduled to fire, not past the instant it was seen to
/// have fired, so that lateness does not pile up.
pub open spec fn rearm(scheduled: u64, dur: u64) -> u64 {
    sat_u64(scheduled + dur) as u64
}

/// Computes the next deadline of a fixed-delay gate from the deadline it
/// last fired at.
pub fn next_deadline(scheduled: u64, dur: u64) -> (r: u64)
    ensures
        r == rearm(scheduled, dur),
{
    scheduled.saturating_add(dur)
}

/// A gate that opens a fixed duration after it last opened (or after it was
/// made), measured between scheduled instants.
#[derive(Clone, Copy, Debug)]
pub struct SleepDelay {
    /// The duration between two openings, in nanoseconds.
    pub dur: u64,
    /// The instant at which this gate opens next.
    pub deadline: u64,
}

impl SleepDelay {
    /// Whether a poll at `now` finds this gate open.
    pub open spec fn ready_at(self, now: u64) -> bool {
        now >= self.deadline
    }

    /// This gate as it is after a poll at `now`.
    pub open spec fn after_poll(self, now: u64) -> SleepDelay {
        if self.ready_at(now) {
            SleepDelay { dur: self.dur, deadline: rearm(self.deadline, self.dur) }
        } else {
            self
        }
    }

    /// A gate armed at `now` to open `dur` later.
    pub fn new(dur: u64, now: u64) -> (r: Self)
        ensures
            r.dur == dur,
            r.deadline == rearm(now, dur),
    {
        SleepDelay { dur, deadline: next_deadline(now, dur) }
    }

    /// Polls this gate at `now`. When it is open, it is re-armed one duration
    /// past its scheduled deadline and `true` is returned; otherwise it is
    /// left as it is and the caller should wait until `deadline`.
    pub fn poll(&mut self, now: u64) -> (ready: bool)
        ensures
            ready == old(self).ready_at(now),
            *final(self) == old(self).after_poll(now),
    {
        if now >= self.deadline {
            self.deadline = next_deadline(self.deadline, self.dur);
            true
        } else {
            false
        }
    }
}

/// This gate as it is after polls at each instant of `times`, in order.
pub open spec fn after_polls(g: SleepDelay, times: Seq<u64>) -> SleepDelay
    decreases times.len(),
{
    if times.len() == 0 {
        g
    } else {
        after_polls(g.after_poll(times[0]), times.drop_first())
    }
}

/// Whether each poll at the instants of `times`, in order, finds this gate
/// open.
pub open spec fn opens_at_each(g: SleepDelay, times: Seq<u64>) -> bool
    decreases times.len(),
{
    if times.len() == 0 {
        true
    } else {
        g.ready_at(times[0]) && opens_at_each(g.after_poll(times[0]), times.drop_first())
    }
}

/// Once this gate opened at `t`, it opens again only at instants one duration
/// or more past the deadline it opened at; so when it opened on time, the
/// next opening comes at least `dur` after `t`.
pub proof fn lemma_pacing(g: SleepDelay, t: u64, t2: u64)
    requires
        g.ready_at(t),
        g.after_poll(t).ready_at(t2),
        g.deadline + g.dur <= u64::MAX,
    ensures
        t2 >= g.deadline + g.dur,
        t == g.deadline ==> t2 - t >= g.dur,
{
}

/// After this gate opened `k` times, its deadline is `k` durations past the
/// first one, whatever the instants at which it was polled: lateness of the
/// consumer does not accumulate into the schedule.
pub proof fn lemma_no_drift(g: SleepDelay, times: Seq<u64>)
    requires
        opens_at_each(g, times),
    ensures
        after_polls(g, times) == (SleepDelay {
            dur: g.dur,
            deadline: sat_u64(g.deadline + times.len() * g.dur) as u64,
        }),
    decreases times.len(),
{
    if times.len() > 0 {
        let h = g.after_poll(times[0]);
        lemma_no_drift(h, times.drop_first());
        let k = times.len() as int;
        let d = g.dur as int;
        assert((k - 1) * d + d == k * d) by (nonlinear_arith);
        assert(k * d >= d) by (nonlinear_arith)
            requires
                k >= 1,
                d >= 0,
        ;
    }
}

/// Adds a full wait of a fixed duration between the items of a sequence.
pub trait SleepDelayed: Sized {
    /// The state of the sequence that is being wrapped.
    spec fn chain(&self) -> ChainModel;

    /// Waits `dur` between two items, counted from `now`.
    fn sleep_delayed(self, dur: u64, now: u64) -> (r: GatedSequence)
        requires
            self.chain().wf(),
        ensures
            r@.wf(),
            r@ == self.chain().wrapped(
                Gate::Sleep(SleepDelay { dur, deadline: rearm(now, dur) }),
            ),
    ;
}

impl SleepDelayed for GatedSequence {
    open spec fn chain(&self) -> ChainModel {
        self@
    }

    fn sleep_delayed(self, dur: u64, now: u64) -> (r: GatedSequence) {
        self.with_gate(Gate::Sleep(SleepDelay::new(dur, now)))
    }
}

} // verus!
