use rtt_collector::pipeline::{Poller, StepAction};
use rtt_collector::poll::PollState;

#[test]
fn backoff_doubles_from_floor() {
    let mut state = PollState::new(10, 3000);
    assert_eq!(state.on_empty(), 10);
    assert_eq!(state.on_empty(), 20);
    assert_eq!(state.on_empty(), 40);
    assert_eq!(state.on_empty(), 80);
}

#[test]
fn backoff_caps_at_ceiling() {
    let mut state = PollState::new(10, 25);
    assert_eq!(state.on_empty(), 10);
    assert_eq!(state.on_empty(), 20);
    assert_eq!(state.on_empty(), 25);
    assert_eq!(state.on_empty(), 25);
    assert!(state.current >= state.floor);
    assert!(state.current <= state.ceiling);
}

#[test]
fn data_resets_to_floor() {
    let mut state = PollState::new(10, 3000);
    state.on_empty();
    state.on_empty();
    state.on_empty();
    state.on_data();
    assert_eq!(state.current, 10);
    assert_eq!(state.on_empty(), 10);
    assert_eq!(state.on_empty(), 20);
}

#[test]
fn equal_floor_and_ceiling_stays_put() {
    let mut state = PollState::new(500, 500);
    assert_eq!(state.on_empty(), 500);
    assert_eq!(state.on_empty(), 500);
}

#[test]
fn zero_floor_stays_at_zero_until_data() {
    let mut state = PollState::new(0, 8);
    assert_eq!(state.on_empty(), 0);
    assert_eq!(state.on_empty(), 0);
    state.on_data();
    assert_eq!(state.current, 0);
}

#[test]
fn poll_scenario_sleeps_and_flushes() {
    // floor 10 ms, ceiling 3000 ms; empty, empty, empty, data "hi\n",
    // empty, empty: sleeps 10, 20, 40, then no sleep and one line "hi",
    // one flush on the following idle transition, then 10, 20.
    let mut poller = Poller::new(10, 3000);
    let reads: Vec<Vec<u8>> = vec![
        vec![],
        vec![],
        vec![],
        b"hi\n".to_vec(),
        vec![],
        vec![],
    ];
    let mut sleeps: Vec<u64> = Vec::new();
    let mut flushes: Vec<usize> = Vec::new();
    let mut emitted: Vec<String> = Vec::new();
    for (iteration, buf) in reads.iter().enumerate() {
        match poller.step(buf.as_slice()) {
            StepAction::Idle { flush, sleep_millis } => {
                if flush {
                    flushes.push(iteration);
                }
                sleeps.push(sleep_millis);
            }
            StepAction::Emit { lines, decode_warning } => {
                assert!(!decode_warning);
                emitted.extend(lines);
            }
        }
    }
    assert_eq!(sleeps, vec![10, 20, 40, 10, 20]);
    assert_eq!(emitted, vec!["hi".to_string()]);
    assert_eq!(flushes, vec![4]);
}

#[test]
fn reset_forgets_run_length() {
    let mut poller = Poller::new(3, 1000);
    for _ in 0..7 {
        poller.step(&[]);
    }
    poller.step(b"x");
    match poller.step(&[]) {
        StepAction::Idle { flush, sleep_millis } => {
            assert!(flush);
            assert_eq!(sleep_millis, 3);
        }
        StepAction::Emit { .. } => panic!("empty read must be an idle step"),
    }
}
