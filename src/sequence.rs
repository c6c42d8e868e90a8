use vstd::prelude::*;

use crate::counted::Counted;
use crate::gate::{Gate, Signal};

verus! {

/// What the owner of a gated sequence is to do next.
#[derive(Clone, Copy, Debug, PartialEq, Eq, Structural)]
pub enum Step {
    /// A gate is closed: request again at the given instant.
    Wait(u64),
    /// Every gate is open: ask the inner sequence for its next item and hand
    /// the answer to `deliver`.
    PollInner,
    /// The sequence has ended.
    End,
}

/// The state of a gated sequence, as a mathematical value.
pub struct ChainModel {
    /// The gates, in the order in which each request cycle polls them.
    pub gates: Seq<Gate>,
    /// How many gates have opened in the cycle in progress.
    pub stage: nat,
    /// Whether the sequence has ended.
    pub terminated: bool,
}

impl ChainModel {
    pub open spec fn wf(self) -> bool {
        &&& self.stage <= self.gates.len()
        &&& forall|i: int| 0 <= i < self.gates.len() ==> #[trigger] self.gates[i].wf()
    }

    /// Every gate has opened in this cycle: the inner sequence is asked next.
    pub open spec fn awaiting_inner(self) -> bool {
        !self.terminated && self.stage == self.gates.len()
    }

    /// The state and the step that a request at `now` gives: the gates that
    /// are still closed in this cycle are polled in order, up to the first one
    /// that does not open.
    pub open spec fn request(self, now: u64) -> (ChainModel, Step)
        decreases self.gates.len() - self.stage,
    {
        if self.terminated {
            (self, Step::End)
        } else if self.stage >= self.gates.len() {
            (self, Step::PollInner)
        } else {
            let g = self.gates[self.stage as int];
            let polled = ChainModel {
                gates: self.gates.update(self.stage as int, g.after_poll(now)),
                ..self
            };
            match g.signal(now) {
                Signal::Wait(t) => (polled, Step::Wait(t)),
                Signal::Stop => (ChainModel { terminated: true, ..polled }, Step::End),
                Signal::Proceed => ChainModel { stage: self.stage + 1, ..polled }.request(now),
            }
        }
    }

    /// The state after the inner sequence answered: with an item a new cycle
    /// begins, with its end the sequence ends. An ended sequence stays so.
    pub open spec fn deliver(self, has_item: bool) -> ChainModel {
        if self.terminated {
            self
        } else if has_item {
            ChainModel { stage: 0, ..self }
        } else {
            ChainModel { terminated: true, ..self }
        }
    }

    /// The state after `g` was put in front of the gates. In a cycle in
    /// progress, `g` takes part from the next cycle on.
    pub open spec fn wrapped(self, g: Gate) -> ChainModel {
        ChainModel {
            gates: self.gates.insert(0, g),
            stage: if self.stage == 0 { 0 } else { self.stage + 1 },
            terminated: self.terminated,
        }
    }

    /// The items emitted when the sequence is driven over the inner sequence
    /// `items`, which answers at once, with a clock that starts at `now` and
    /// jumps to each instant a gate asks to wait for, for at most `fuel`
    /// requests.
    pub open spec fn drive<T>(self, items: Seq<T>, now: u64, fuel: nat) -> Seq<T>
        decreases fuel,
    {
        if fuel == 0 {
            Seq::empty()
        } else {
            let (next, step) = self.request(now);
            match step {
                Step::End => Seq::empty(),
                Step::Wait(t) => next.drive(items, t, (fuel - 1) as nat),
                Step::PollInner => if items.len() == 0 {
                    Seq::empty()
                } else {
                    seq![items[0]] + next.deliver(true).drive(
                        items.drop_first(),
                        now,
                        (fuel - 1) as nat,
                    )
                },
            }
        }
    }
}

/// A lazily produced sequence behind a chain of gates. Each request cycle
/// polls the gates in order, and asks the inner sequence for an item only
/// once every gate has opened. The owner performs the waits and the polls of
/// the inner sequence.
pub struct GatedSequence {
    gates: Vec<Gate>,
    stage: usize,
    terminated: bool,
}

impl View for GatedSequence {
    type V = ChainModel;

    closed spec fn view(&self) -> ChainModel {
        ChainModel { gates: self.gates@, stage: self.stage as nat, terminated: self.terminated }
    }
}

impl GatedSequence {
    /// A sequence with no gate: it relays the inner sequence as it is.
    pub fn new() -> (r: Self)
        ensures
            r@.wf(),
            r@.gates.len() == 0,
            r@.stage == 0,
            !r@.terminated,
    {
        GatedSequence { gates: Vec::new(), stage: 0, terminated: false }
    }

    /// Puts `g` in front of the gates of this sequence.
    pub fn with_gate(self, g: Gate) -> (r: Self)
        requires
            self@.wf(),
            g.wf(),
        ensures
            r@.wf(),
            r@ == self@.wrapped(g),
    {
        let mut s = self;
        s.gates.insert(0, g);
        if s.stage > 0 {
            assert(s.stage < s.gates.len());
            s.stage = s.stage + 1;
        }
        assert forall|i: int| 0 <= i < s@.gates.len() implies #[trigger] s@.gates[i].wf() by {
            if i > 0 {
                assert(s@.gates[i] == self@.gates[i - 1]);
            }
        }
        s
    }

    /// Requests the next item at `now`.
    pub fn request(&mut self, now: u64) -> (r: Step)
        requires
            old(self)@.wf(),
        ensures
            final(self)@.wf(),
            (final(self)@, r) == old(self)@.request(now),
    {
        if self.terminated {
            return Step::End;
        }
        let ghost start = self@;
        while self.stage < self.gates.len()
            invariant
                self@.wf(),
                !self.terminated,
                self@.request(now) == start.request(now),
                start == old(self)@,
            decreases self.gates.len() - self.stage,
        {
            let ghost before = self@;
            let i = self.stage;
            let mut g = self.gates[i];
            let s = g.poll(now);
            self.gates.set(i, g);
            assert(self@.gates =~= before.gates.update(i as int, before.gates[i as int].after_poll(now)));
            match s {
                Signal::Wait(t) => {
                    assert(before.request(now) == (self@, Step::Wait(t)));
                    return Step::Wait(t);
                },
                Signal::Stop => {
                    self.terminated = true;
                    assert(before.request(now) == (self@, Step::End));
                    return Step::End;
                },
                Signal::Proceed => {
                    self.stage = i + 1;
                },
            }
        }
        Step::PollInner
    }

    /// Hands the inner sequence's answer to the sequence, and returns what
    /// the sequence emits: the item, or `None` at the end. Once ended, the
    /// sequence drops what it is handed and emits nothing.
    pub fn deliver<T>(&mut self, item: Option<T>) -> (r: Option<T>)
        requires
            old(self)@.wf(),
        ensures
            final(self)@.wf(),
            final(self)@ == old(self)@.deliver(item is Some),
            r == if old(self)@.terminated { None } else { item },
    {
        if self.terminated {
            None
        } else {
            match item {
                Some(x) => {
                    self.stage = 0;
                    Some(x)
                },
                None => {
                    self.terminated = true;
                    None
                },
            }
        }
    }

    /// Whether the sequence has ended.
    pub fn is_terminated(&self) -> (r: bool)
        ensures
            r == self@.terminated,
    {
        self.terminated
    }
}

/// A sequence with no gate, in a fresh state.
pub open spec fn bare_chain() -> ChainModel {
    ChainModel { gates: Seq::empty(), stage: 0, terminated: false }
}

/// A sequence behind one count gate that has been activated `polled` times,
/// at the start of a cycle.
pub open spec fn counted_chain(count: usize, polled: usize) -> ChainModel {
    ChainModel {
        gates: seq![Gate::Count(Counted { count, polled })],
        stage: 0,
        terminated: false,
    }
}

proof fn lemma_counted_drive<T>(count: usize, polled: usize, items: Seq<T>, now: u64, fuel: nat)
    requires
        fuel > items.len(),
    ensures
        counted_chain(count, polled).drive(items, now, fuel) == items.take(
            if polled >= count {
                0
            } else if items.len() < count - polled {
                items.len() as int
            } else {
                count - polled
            },
        ),
    decreases items.len(),
{
    let c = counted_chain(count, polled);
    let g = Counted { count, polled };
    let polled_chain = ChainModel {
        gates: c.gates.update(0, Gate::Count(g.after_poll())),
        ..c
    };
    if polled >= count {
        assert(c.request(now) == (ChainModel { terminated: true, ..polled_chain }, Step::End));
        assert(items.take(0) =~= Seq::<T>::empty());
    } else {
        let passed = ChainModel { stage: 1, ..polled_chain };
        assert(c.request(now) == passed.request(now));
        assert(passed.request(now) == (passed, Step::PollInner));
        if items.len() == 0 {
            assert(items.take(0) =~= Seq::<T>::empty());
        } else {
            let next = passed.deliver(true);
            assert(next.gates =~= counted_chain(count, (polled + 1) as usize).gates);
            assert(next == counted_chain(count, (polled + 1) as usize));
            lemma_counted_drive(count, (polled + 1) as usize, items.drop_first(), now, (fuel - 1) as nat);
            let k = if items.len() < count - polled {
                items.len() as int
            } else {
                count - polled
            };
            assert(c.drive(items, now, fuel) == seq![items[0]] + next.drive(
                items.drop_first(),
                now,
                (fuel - 1) as nat,
            ));
            assert(seq![items[0]] + items.drop_first().take(k - 1) =~= items.take(k));
        }
    }
}

/// A count gate of `count` in front of an inner sequence of items lets out
/// exactly the first `min(items.len(), count)` items, in their order, when
/// the sequence is driven for more requests than there are items.
pub proof fn lemma_count_bound<T>(count: usize, items: Seq<T>, now: u64, fuel: nat)
    requires
        fuel > items.len(),
    ensures
        bare_chain().wrapped(Gate::Count(Counted { count, polled: 0 })).drive(items, now, fuel)
            == items.take(if items.len() < count { items.len() as int } else { count as int }),
{
    let w = bare_chain().wrapped(Gate::Count(Counted { count, polled: 0 }));
    assert(w.gates =~= counted_chain(count, 0).gates);
    assert(w == counted_chain(count, 0));
    lemma_counted_drive(count, 0, items, now, fuel);
}

/// When the inner sequence ends before a count gate's bound is reached, the
/// gated sequence ends with it, after every item of the inner sequence and
/// nothing more.
pub proof fn lemma_inner_end_comes_first<T>(count: usize, items: Seq<T>, now: u64, fuel: nat)
    requires
        fuel > items.len(),
        items.len() < count,
    ensures
        bare_chain().wrapped(Gate::Count(Counted { count, polled: 0 })).drive(items, now, fuel)
            == items,
{
    lemma_count_bound(count, items, now, fuel);
    assert(items.take(items.len() as int) =~= items);
}

/// Once a sequence has ended, every further request reports the end and
/// changes nothing, an answer of the inner sequence changes nothing, and
/// driving it emits nothing.
pub proof fn lemma_end_is_absorbing<T>(
    c: ChainModel,
    now: u64,
    has_item: bool,
    items: Seq<T>,
    fuel: nat,
)
    requires
        c.terminated,
    ensures
        c.request(now) == (c, Step::End),
        c.deliver(has_item) == c,
        c.drive(items, now, fuel) == Seq::<T>::empty(),
{
}

} // verus!
