//! Combinators that put a gate in front of a lazily produced sequence:
//! a fixed delay, a periodic interval, or a bound on the number of items.
//!
//! Time is measured as a count of nanoseconds from an origin chosen by the
//! caller. The gates and the gated sequence are state machines: the caller
//! performs the waiting and the polling of the inner sequence, and hands the
//! outcomes back.
mod arith;
pub mod counted;

pub use counted::Counted;
pub mod interval;
pub mod sleep;

pub use interval::{IntervalDelay, IntervalDelayed};
pub use sleep::{SleepDelay, SleepDelayed};
pub mod gate;

pub use gate::{Gate, Signal};
pub mod sequence;

pub use sequence::{ChainModel, GatedSequence, Step};

use vstd::prelude::*;

use crate::sleep::rearm;

verus! {

/// Combinators that limit or slow down a gated sequence.
pub trait ThrottledStreamExt: Sized {
    /// The state of the sequence that is being wrapped.
    spec fn chain(&self) -> ChainModel;

    /// Ends the sequence after at most `count` items.
    fn max(self, count: usize) -> (r: GatedSequence)
        requires
            self.chain().wf(),
        ensures
            r@.wf(),
            r@ == self.chain().wrapped(Gate::Count(Counted { count, polled: 0 })),
    ;

    /// Waits `dur` between two items, counted from `now`.
    fn sleep(self, dur: u64, now: u64) -> (r: GatedSequence)
        requires
            self.chain().wf(),
        ensures
            r@.wf(),
            r@ == self.chain().wrapped(
                Gate::Sleep(SleepDelay { dur, deadline: rearm(now, dur) }),
            ),
    ;
}

impl ThrottledStreamExt for GatedSequence {
    open spec fn chain(&self) -> ChainModel {
        self@
    }

    fn max(self, count: usize) -> (r: GatedSequence) {
        self.with_gate(Gate::Count(Counted::new(count)))
    }

    fn sleep(self, dur: u64, now: u64) -> (r: GatedSequence) {
        self.with_gate(Gate::Sleep(SleepDelay::new(dur, now)))
    }
}

} // verus!
