use vstd::prelude::*;

use crate::arith::sat_usize;

verus! {

/// A gate that opens at once on every activation and signals a stop once it
/// has been activated more than `count` times.
#[derive(Clone, Copy, Debug)]
pub struct Counted {
    /// The largest number of activations that are let through.
    pub count: usize,
    /// How many times this gate has been activated, clamped to the largest
    /// `usize`: once past `count` the exact number no longer matters.
    pub polled: usize,
}

impl Counted {
    /// Whether the next activation signals a stop.
    pub open spec fn exhausted(self) -> bool {
        self.polled >= self.count
    }

    /// This gate as it is after one more activation.
    pub open spec fn after_poll(self) -> Counted {
        Counted { count: self.count, polled: sat_usize(self.polled + 1) as usize }
    }

    pub fn new(count: usize) -> (r: Self)
        ensures
            r.count == count,
            r.polled == 0,
    {
        Counted { count, polled: 0 }
    }

    /// Activates this gate. Returns `true` (stop) when this activation is
    /// past the `count`-th, `false` (proceed) otherwise.
    pub fn poll(&mut self) -> (stop: bool)
        ensures
            stop == old(self).exhausted(),
            *final(self) == old(self).after_poll(),
    {
        let stop = self.polled >= self.count;
        self.polled = self.polled.saturating_add(1);
        stop
    }
}

} // verus!
