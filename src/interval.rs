use vstd::prelude::*;

use crate::arith::sat_u64;
use crate::gate::Gate;
use crate::sequence::{ChainModel, GatedSequence};

verus! {

/// The first tick of the schedule `next + k * period` (k >= 1) that lies
/// past `now`, given `now >= next`.
pub open spec fn tick_after(next: u64, period: u64, now: u64) -> u64 {
    sat_u64(next + ((now - next) / (period as int)) * period + period) as u64
}

/// A gate that opens on the ticks of a fixed schedule, `start + k * period`.
/// A poll that comes after several ticks went by opens it once, and the next
/// opening is the first tick still to come.
#[derive(Clone, Copy, Debug)]
pub struct IntervalDelay {
    /// The spacing of the ticks, in nanoseconds.
    pub period: u64,
    /// The next tick at which this gate opens.
    pub next_tick: u64,
}

impl IntervalDelay {
    pub open spec fn wf(self) -> bool {
        self.period > 0
    }

    /// Whether a poll at `now` finds this gate open.
    pub open spec fn ready_at(self, now: u64) -> bool {
        now >= self.next_tick
    }

    /// This gate as it is after a poll at `now`.
    pub open spec fn after_poll(self, now: u64) -> IntervalDelay {
        if self.ready_at(now) {
            IntervalDelay {
                period: self.period,
                next_tick: tick_after(self.next_tick, self.period, now),
            }
        } else {
            self
        }
    }

    /// A schedule that starts at `now`: the first tick is at once.
    pub fn new(period: u64, now: u64) -> (r: Self)
        requires
            period > 0,
        ensures
            r.wf(),
            r.period == period,
            r.next_tick == now,
    {
        IntervalDelay { period, next_tick: now }
    }

    /// Polls this gate at `now`. When a tick has come, the ticks that went by
    /// are coalesced into this one opening, this gate moves on to the first
    /// tick past `now`, and `true` is returned; otherwise the caller should
    /// wait until `next_tick`.
    pub fn poll(&mut self, now: u64) -> (ready: bool)
        requires
            old(self).wf(),
        ensures
            final(self).wf(),
            ready == old(self).ready_at(now),
            *final(self) == old(self).after_poll(now),
    {
        if now >= self.next_tick {
            let skipped: u64 = (now - self.next_tick) / self.period;
            proof {
                let d = (now - self.next_tick) as int;
                let p = self.period as int;
                vstd::arithmetic::div_mod::lemma_fundamental_div_mod(d, p);
                vstd::arithmetic::div_mod::lemma_mod_pos_bound(d, p);
                assert(skipped * p <= d) by (nonlinear_arith)
                    requires
                        skipped * p + d % p == d,
                        d % p >= 0,
                ;
            }
            let last: u64 = self.next_tick + skipped * self.period;
            self.next_tick = last.saturating_add(self.period);
            true
        } else {
            false
        }
    }
}

/// A poll at `now`, however many ticks went by before it, opens this gate
/// once. This gate then stays closed up to the first tick of the same
/// schedule past `now`, which is at most one period away.
pub proof fn lemma_coalesce(g: IntervalDelay, now: u64)
    requires
        g.wf(),
        now >= g.next_tick,
        now + g.period <= u64::MAX,
    ensures
        g.ready_at(now),
        !g.after_poll(now).ready_at(now),
        now < g.after_poll(now).next_tick <= now + g.period,
        (g.after_poll(now).next_tick - g.next_tick) % (g.period as int) == 0,
{
    let d = (now - g.next_tick) as int;
    let p = g.period as int;
    let q = d / p;
    vstd::arithmetic::div_mod::lemma_fundamental_div_mod(d, p);
    vstd::arithmetic::div_mod::lemma_mod_pos_bound(d, p);
    assert(q * p + p == (q + 1) * p) by (nonlinear_arith);
    vstd::arithmetic::div_mod::lemma_mod_multiples_basic(q + 1, p);
}

/// Lets the items of a sequence out no more often than once a period, on a
/// schedule that starts at `now`.
pub trait IntervalDelayed: Sized {
    /// The state of the sequence that is being wrapped.
    spec fn chain(&self) -> ChainModel;

    fn interval_delayed(self, dur: u64, now: u64) -> (r: GatedSequence)
        requires
            self.chain().wf(),
            dur > 0,
        ensures
            r@.wf(),
            r@ == self.chain().wrapped(
                Gate::Interval(IntervalDelay { period: dur, next_tick: now }),
            ),
    ;
}

impl IntervalDelayed for GatedSequence {
    open spec fn chain(&self) -> ChainModel {
        self@
    }

    fn interval_delayed(self, dur: u64, now: u64) -> (r: GatedSequence) {
        self.with_gate(Gate::Interval(IntervalDelay::new(dur, now)))
    }
}

} // verus!
