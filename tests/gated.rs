use throttled_stream::sleep::next_deadline;
use throttled_stream::{
    Counted, Gate, GatedSequence, IntervalDelay, IntervalDelayed, Signal, SleepDelay,
    SleepDelayed, Step, ThrottledStreamExt,
};

/// Drives `seq` over `items` with a clock that starts at `start` and jumps to
/// each instant a gate asks to wait for. Returns each emitted item with the
/// instant it was emitted at.
fn drain(seq: &mut GatedSequence, items: Vec<i32>, start: u64) -> Vec<(i32, u64)> {
    let mut now = start;
    let mut inner = items.into_iter();
    let mut out = Vec::new();
    loop {
        match seq.request(now) {
            Step::Wait(t) => now = t,
            Step::End => return out,
            Step::PollInner => match seq.deliver(inner.next()) {
                Some(v) => out.push((v, now)),
                None => return out,
            },
        }
    }
}

fn values(out: &[(i32, u64)]) -> Vec<i32> {
    out.iter().map(|p| p.0).collect()
}

#[test]
fn max() {
    let mut s = GatedSequence::new().max(3);
    let out = drain(&mut s, vec![1, 3, 2, 4, 5], 0);
    assert_eq!(out.len(), 3);
}

#[test]
fn max_three_keeps_order() {
    let mut s = GatedSequence::new().max(3);
    assert_eq!(values(&drain(&mut s, vec![1, 3, 2, 4, 5], 0)), vec![1, 3, 2]);
}

#[test]
fn max_four_keeps_order() {
    let mut s = GatedSequence::new().max(4);
    assert_eq!(values(&drain(&mut s, vec![1, 3, 2, 4, 5], 0)), vec![1, 3, 2, 4]);
}

#[test]
fn empty_inner_ends_at_once() {
    let mut s = GatedSequence::new().max(3);
    assert_eq!(s.request(0), Step::PollInner);
    assert_eq!(s.deliver::<i32>(None), None);
    assert!(s.is_terminated());
    let mut t = GatedSequence::new().interval_delayed(10, 0);
    assert!(drain(&mut t, vec![], 0).is_empty());
}

#[test]
fn max_zero_ends_without_polling_inner() {
    let mut s = GatedSequence::new().max(0);
    assert_eq!(s.request(0), Step::End);
    assert!(s.is_terminated());
}

#[test]
fn inner_end_comes_before_count() {
    let mut s = GatedSequence::new().max(5);
    assert_eq!(values(&drain(&mut s, vec![1, 2], 0)), vec![1, 2]);
    assert!(s.is_terminated());
}

#[test]
fn end_is_absorbing() {
    let mut s = GatedSequence::new().max(1);
    assert_eq!(s.request(0), Step::PollInner);
    assert_eq!(s.deliver(Some(7)), Some(7));
    assert_eq!(s.request(0), Step::End);
    assert_eq!(s.request(100), Step::End);
    assert_eq!(s.deliver(Some(9)), None);
    assert_eq!(s.request(200), Step::End);
}

#[test]
fn inner_end_is_absorbing() {
    let mut s = GatedSequence::new().sleep(10, 0);
    assert_eq!(s.request(10), Step::PollInner);
    assert_eq!(s.deliver::<i32>(None), None);
    assert_eq!(s.request(1000), Step::End);
    assert_eq!(s.deliver(Some(1)), None);
}

#[test]
fn sleep_paces_items() {
    let mut s = GatedSequence::new().sleep(10, 0);
    let out = drain(&mut s, vec![1, 2, 3], 0);
    assert_eq!(out, vec![(1, 10), (2, 20), (3, 30)]);
}

#[test]
fn sleep_delayed_waits_then_proceeds() {
    let mut s = GatedSequence::new().sleep_delayed(5, 100);
    assert_eq!(s.request(100), Step::Wait(105));
    assert_eq!(s.request(104), Step::Wait(105));
    assert_eq!(s.request(105), Step::PollInner);
    assert_eq!(s.deliver(Some(1)), Some(1));
    assert_eq!(s.request(105), Step::Wait(110));
}

#[test]
fn sleep_rearms_from_scheduled_deadline() {
    let mut g = SleepDelay::new(10, 0);
    assert!(g.poll(25));
    assert_eq!(g.deadline, 20);
    assert!(g.poll(25));
    assert_eq!(g.deadline, 30);
    assert!(!g.poll(25));
    assert_eq!(g.deadline, 30);
}

#[test]
fn sleep_no_drift_over_many_items() {
    let mut g = SleepDelay::new(7, 3);
    let mut now: u64 = 3;
    for _ in 0..100 {
        now = g.deadline + 2;
        assert!(g.poll(now));
    }
    assert_eq!(g.deadline, 3 + 101 * 7);
    assert!(now < g.deadline);
}

#[test]
fn next_deadline_values() {
    assert_eq!(next_deadline(20, 10), 30);
    assert_eq!(next_deadline(u64::MAX - 1, 10), u64::MAX);
}

#[test]
fn interval_first_tick_is_at_once() {
    let mut g = IntervalDelay::new(10, 50);
    assert!(g.poll(50));
    assert_eq!(g.next_tick, 60);
    assert!(!g.poll(55));
    assert_eq!(g.next_tick, 60);
}

#[test]
fn interval_coalesces_missed_ticks() {
    let mut g = IntervalDelay::new(10, 0);
    assert!(g.poll(0));
    assert!(g.poll(35));
    assert_eq!(g.next_tick, 40);
    assert!(!g.poll(35));
    assert!(g.poll(40));
    assert_eq!(g.next_tick, 50);
}

#[test]
fn interval_sequence_keeps_schedule() {
    let mut s = GatedSequence::new().interval_delayed(10, 0);
    assert_eq!(s.request(0), Step::PollInner);
    assert_eq!(s.deliver(Some(1)), Some(1));
    assert_eq!(s.request(3), Step::Wait(10));
    assert_eq!(s.request(37), Step::PollInner);
    assert_eq!(s.deliver(Some(2)), Some(2));
    assert_eq!(s.request(37), Step::Wait(40));
}

#[test]
fn counted_gate_signals() {
    let mut c = Counted::new(2);
    assert!(!c.poll());
    assert!(!c.poll());
    assert!(c.poll());
    assert!(c.poll());
    assert_eq!(c.polled, 4);
    let mut full = Counted::new(usize::MAX);
    full.polled = usize::MAX - 1;
    assert!(!full.poll());
    assert!(full.poll());
    assert!(full.poll());
    assert_eq!(full.polled, usize::MAX);
}

#[test]
fn gate_signals() {
    let mut g = Gate::Sleep(SleepDelay::new(10, 0));
    assert!(g.poll(3) == Signal::Wait(10));
    assert!(g.poll(10) == Signal::Proceed);
    let mut c = Gate::Count(Counted::new(0));
    assert!(c.poll(0) == Signal::Stop);
}

#[test]
fn chained_gates_count_and_pace() {
    let mut s = GatedSequence::new().sleep(10, 0).max(2);
    let out = drain(&mut s, vec![1, 3, 2, 4, 5], 0);
    assert_eq!(out, vec![(1, 10), (3, 20)]);
    assert!(s.is_terminated());
}
