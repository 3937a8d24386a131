use std::sync::{Arc, Mutex};
use std::task::{Wake, Waker};

use stream_broadcast::state::StreamBroadcastState;
use stream_broadcast::weak::WeakStreamBroadcast;
use stream_broadcast::{IdCounter, Polled, StreamBroadcast};

struct Idle;

impl Wake for Idle {
    fn wake(self: Arc<Self>) {}
}

fn idle_waker() -> Waker {
    Waker::from(Arc::new(Idle))
}

/// Yields `next`, `next + 1`, ... up to `end`, then reports its end once, and
/// panics if it is asked again after that.
struct Numbers {
    next: u32,
    end: u32,
    done: bool,
    polls: usize,
}

impl Numbers {
    fn new(end: u32) -> Self {
        Numbers { next: 0, end, done: false, polls: 0 }
    }

    fn poll(&mut self) -> Polled<u32> {
        if self.done {
            panic!("Polled multiple times")
        }
        self.polls += 1;
        if self.next < self.end {
            self.next += 1;
            Polled::Item(self.next - 1)
        } else {
            self.done = true;
            Polled::End
        }
    }
}

fn next(
    handle: &mut StreamBroadcast,
    state: &mut StreamBroadcastState<u32>,
    source: &mut Numbers,
) -> Option<(u64, u32)> {
    match handle.poll_next(state, || source.poll(), &idle_waker()) {
        Polled::Item(pair) => Some(pair),
        Polled::End => None,
        Polled::Pending => panic!("the source is always ready"),
    }
}

fn collect(
    handle: &mut StreamBroadcast,
    state: &mut StreamBroadcastState<u32>,
    source: &mut Numbers,
) -> Vec<(u64, u32)> {
    let mut all = Vec::new();
    while let Some(pair) = next(handle, state, source) {
        all.push(pair);
    }
    all
}

#[test]
fn broadcast() {
    let mut ids = IdCounter::new();
    let mut source = Numbers::new(3);
    let (mut broadcast, mut state) = StreamBroadcast::new::<u32>(3, &mut ids);
    let mut broadcast2 = broadcast.clone(&state, &mut ids);

    let all = collect(&mut broadcast, &mut state, &mut source);
    let all2 = collect(&mut broadcast2, &mut state, &mut source);
    assert_eq!(3, all.len());
    assert_eq!(3, all2.len());
    assert_eq!(all, vec![(0, 0), (0, 1), (0, 2)]);
    assert_eq!(all2, vec![(0, 0), (0, 1), (0, 2)]);
    assert_eq!(source.polls, 4);
}

#[test]
fn new_broadcast_ignores_previous() {
    let mut ids = IdCounter::new();
    let mut source = Numbers::new(3);
    let (mut broadcast, mut state) = StreamBroadcast::new::<u32>(3, &mut ids);
    let first = next(&mut broadcast, &mut state, &mut source).expect("Should be here");
    assert_eq!(first, (0, 0));
    let mut broadcast2 = broadcast.clone(&state, &mut ids);
    assert_eq!(broadcast2.pos(), 1);

    let all = collect(&mut broadcast, &mut state, &mut source);
    let all2 = collect(&mut broadcast2, &mut state, &mut source);
    assert_eq!(2, all.len());
    assert_eq!(2, all2.len());
    assert_eq!(all, vec![(0, 1), (0, 2)]);
    assert_eq!(all2, vec![(0, 1), (0, 2)]);
}

#[test]
fn indicates_skipped_entries() {
    let mut ids = IdCounter::new();
    let mut source = Numbers::new(4);
    let (mut broadcast, mut state) = StreamBroadcast::new::<u32>(3, &mut ids);
    let mut broadcast2 = broadcast.clone(&state, &mut ids);
    next(&mut broadcast2, &mut state, &mut source).unwrap();

    assert_eq!(4, collect(&mut broadcast, &mut state, &mut source).len());
    let rest = collect(&mut broadcast2, &mut state, &mut source);
    let mut sum = 0;
    let mut passed = 0;
    for ((offset, x), expected_offset) in rest.iter().zip([0, 0, 0]) {
        assert_eq!(*offset, expected_offset);
        sum += x;
        passed += offset + 1;
    }
    assert_eq!(1 + 2 + 3, sum);
    assert_eq!(rest.len(), 3);
    assert_eq!(passed, 3);
}

#[test]
fn lagging_consumer_is_told_what_it_missed() {
    let mut ids = IdCounter::new();
    let mut source = Numbers::new(4);
    let (mut fast, mut state) = StreamBroadcast::new::<u32>(2, &mut ids);
    let mut slow = fast.clone(&state, &mut ids);
    assert_eq!(next(&mut slow, &mut state, &mut source), Some((0, 0)));

    assert_eq!(4, collect(&mut fast, &mut state, &mut source).len());
    let rest = collect(&mut slow, &mut state, &mut source);
    assert_eq!(rest, vec![(1, 2), (0, 3)]);
    let passed: u64 = rest.iter().map(|(offset, _)| offset + 1).sum();
    assert_eq!(passed, 3);
}

#[test]
fn input_stream_is_never_called_after_first_none() {
    let mut ids = IdCounter::new();
    let mut source = Numbers::new(0);
    let (mut broadcast, mut state) = StreamBroadcast::new::<u32>(3, &mut ids);
    let mut broadcast2 = broadcast.clone(&state, &mut ids);
    assert_eq!(0, collect(&mut broadcast, &mut state, &mut source).len());
    assert_eq!(0, collect(&mut broadcast2, &mut state, &mut source).len());
    assert_eq!(source.polls, 1);
    for _ in 0..3 {
        assert_eq!(next(&mut broadcast, &mut state, &mut source), None);
        assert_eq!(next(&mut broadcast2, &mut state, &mut source), None);
    }
    assert_eq!(source.polls, 1);
    assert_eq!(broadcast.pos(), 1);
    assert_eq!(broadcast2.pos(), 1);
}

#[test]
fn use_with_not_pin() {
    let mut ids = IdCounter::new();
    let mut source = Numbers::new(4);
    let (mut broadcast, mut state) = StreamBroadcast::new::<u32>(3, &mut ids);
    assert_eq!(4, collect(&mut broadcast, &mut state, &mut source).len());
}

#[test]
fn test_parallel() {
    const ITERATIONS: u32 = 50;
    let mut ids = IdCounter::new();
    let mut source = Numbers::new(ITERATIONS);
    let (mut stream1, mut state) = StreamBroadcast::new::<u32>(5, &mut ids);
    let mut stream2 = stream1.clone(&state, &mut ids);

    // The source has an item on every third poll only, so that both consumers
    // wait for it in turn, and neither falls behind by more than it is asked
    // to wait.
    let mut asked = 0;
    let mut seen1 = Vec::new();
    let mut seen2 = Vec::new();
    let mut done1 = false;
    let mut done2 = false;
    let mut turn = 0;
    while !(done1 && done2) {
        let first = turn % 5 < 3;
        let (stream, seen, done) = if first {
            (&mut stream1, &mut seen1, &mut done1)
        } else {
            (&mut stream2, &mut seen2, &mut done2)
        };
        let out = stream.poll_next(
            &mut state,
            || {
                asked += 1;
                if asked % 3 == 0 {
                    source.poll()
                } else {
                    Polled::Pending
                }
            },
            &idle_waker(),
        );
        match out {
            Polled::Item(pair) => seen.push(pair),
            Polled::End => *done = true,
            Polled::Pending => {}
        }
        turn += 1;
    }
    let all: Vec<(u64, u32)> = (0..ITERATIONS).map(|x| (0, x)).collect();
    assert_eq!(seen1.len(), 50);
    assert_eq!(seen2.len(), 50);
    assert_eq!(seen1, all);
    assert_eq!(seen2, all);
    assert_eq!(source.polls, 51);
    assert_eq!(asked, 153);
}

fn weak_next(
    weak: &mut WeakStreamBroadcast,
    shared: &std::sync::Weak<Mutex<StreamBroadcastState<u32>>>,
    source: &mut Numbers,
) -> Option<(u64, u32)> {
    let alive = shared.upgrade();
    let mut guard = alive.as_ref().map(|state| state.lock().unwrap());
    let out = weak.poll_next(guard.as_deref_mut(), || source.poll(), &idle_waker());
    match out {
        Polled::Item(pair) => Some(pair),
        Polled::End => None,
        Polled::Pending => panic!("the source is always ready"),
    }
}

#[test]
fn weak_terminates_when_all_owned_are_destroyed() {
    let mut ids = IdCounter::new();
    let mut source = Numbers::new(5);
    let (stream1, state) = StreamBroadcast::new::<u32>(5, &mut ids);
    let shared1 = Arc::new(Mutex::new(state));
    let stream2 = stream1.clone(&shared1.lock().unwrap(), &mut ids);
    let shared2 = shared1.clone();
    let mut weak = stream1.downgrade(&mut ids);
    let link = Arc::downgrade(&shared1);

    assert_eq!(Some((0, 0)), weak_next(&mut weak, &link, &mut source));
    drop(stream1);
    drop(shared1);
    assert_eq!(Some((0, 1)), weak_next(&mut weak, &link, &mut source));
    drop(stream2);
    drop(shared2);
    assert_eq!(None, weak_next(&mut weak, &link, &mut source));
    assert_eq!(None, weak_next(&mut weak, &link, &mut source));
    assert_eq!(weak.pos(), 2);
    assert_eq!(source.polls, 2);
}
