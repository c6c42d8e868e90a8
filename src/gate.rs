use vstd::prelude::*;

use crate::counted::Counted;
use crate::interval::IntervalDelay;
use crate::sleep::SleepDelay;

verus! {

/// What a poll of a gate reports.
#[derive(Clone, Copy, Debug, PartialEq, Eq, Structural)]
pub enum Signal {
    /// Not open yet: poll again at the given instant.
    Wait(u64),
    /// Open: the sequence may ask its inner sequence for an item.
    Proceed,
    /// The sequence is to end.
    Stop,
}

/// One of the three gate policies.
#[derive(Clone, Copy, Debug)]
pub enum Gate {
    Sleep(SleepDelay),
    Interval(IntervalDelay),
    Count(Counted),
}

impl Gate {
    pub open spec fn wf(self) -> bool {
        match self {
            Gate::Interval(g) => g.wf(),
            _ => true,
        }
    }

    /// What a poll at `now` reports.
    pub open spec fn signal(self, now: u64) -> Signal {
        match self {
            Gate::Sleep(g) => if g.ready_at(now) {
                Signal::Proceed
            } else {
                Signal::Wait(g.deadline)
            },
            Gate::Interval(g) => if g.ready_at(now) {
                Signal::Proceed
            } else {
                Signal::Wait(g.next_tick)
            },
            Gate::Count(c) => if c.exhausted() {
                Signal::Stop
            } else {
                Signal::Proceed
            },
        }
    }

    /// This gate as it is after a poll at `now`.
    pub open spec fn after_poll(self, now: u64) -> Gate {
        match self {
            Gate::Sleep(g) => Gate::Sleep(g.after_poll(now)),
            Gate::Interval(g) => Gate::Interval(g.after_poll(now)),
            Gate::Count(c) => Gate::Count(c.after_poll()),
        }
    }

    /// Polls this gate at `now`.
    pub fn poll(&mut self, now: u64) -> (s: Signal)
        requires
            old(self).wf(),
        ensures
            final(self).wf(),
            s == old(self).signal(now),
            *final(self) == old(self).after_poll(now),
    {
        match self {
            Gate::Sleep(g) => {
                let deadline = g.deadline;
                if g.poll(now) {
                    Signal::Proceed
                } else {
                    Signal::Wait(deadline)
                }
            },
            Gate::Interval(g) => {
                let next_tick = g.next_tick;
                if g.poll(now) {
                    Signal::Proceed
                } else {
                    Signal::Wait(next_tick)
                }
            },
            Gate::Count(c) => {
                if c.poll() {
                    Signal::Stop
                } else {
                    Signal::Proceed
                }
            },
        }
    }
}

} // verus!
