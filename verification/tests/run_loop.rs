use netflow_generator::cli::{Cli, RunMode, DEFAULT_INTERVAL, DEFAULT_SOURCE_PORT, DEFAULT_THREADS};
use netflow_generator::error::NetflowError;
use netflow_generator::run_loop::{loop_step, LoopAction, LoopState, SLEEP_QUANTUM_MS};

fn cli(once: bool, interval: Option<u64>) -> Cli {
    Cli {
        config: None,
        dest: None,
        output: None,
        verbose: false,
        interval,
        once,
        threads: DEFAULT_THREADS,
        source_port: DEFAULT_SOURCE_PORT,
    }
}

#[test]
fn run_mode_follows_the_options() {
    assert_eq!(cli(true, None).run_mode(), RunMode::Once);
    assert_eq!(cli(false, None).run_mode(), RunMode::Periodic { interval_secs: 2 });
    assert_eq!(cli(false, Some(9)).run_mode(), RunMode::Periodic { interval_secs: 9 });
    assert_eq!(DEFAULT_INTERVAL, 2);
    assert_eq!(DEFAULT_THREADS, 4);
    assert_eq!(DEFAULT_SOURCE_PORT, 2056);
}

#[test]
fn single_shot_ticks_once() {
    let (state, action) = loop_step(RunMode::Once, LoopState::Start, 0, false);
    assert_eq!(action, LoopAction::Tick);
    let (state, action) = loop_step(RunMode::Once, state, 5, false);
    assert_eq!(action, LoopAction::Exit);
    assert_eq!(state, LoopState::Stopped);
    assert_eq!(loop_step(RunMode::Once, state, 6, false).1, LoopAction::Exit);
}

#[test]
fn periodic_run_sleeps_in_quanta_until_the_deadline() {
    let mode = RunMode::Periodic { interval_secs: 1 };
    let mut now = 0u64;
    let mut state = LoopState::Start;
    let mut ticks: Vec<u64> = Vec::new();
    let mut sleeps = 0;
    while now < 3500 {
        let (next, action) = loop_step(mode, state, now, false);
        state = next;
        match action {
            LoopAction::Tick => ticks.push(now),
            LoopAction::Sleep { millis } => {
                assert!(millis > 0 && millis <= SLEEP_QUANTUM_MS);
                now += millis;
                sleeps += 1;
            }
            LoopAction::Exit => panic!("no shutdown was requested"),
        }
    }
    assert_eq!(ticks, vec![0, 1000, 2000, 3000]);
    assert_eq!(sleeps, 35);
}

#[test]
fn last_sleep_is_cut_to_the_deadline() {
    let mode = RunMode::Periodic { interval_secs: 1 };
    let state = LoopState::Sleeping { since_ms: 0 };
    assert_eq!(loop_step(mode, state, 950, false).1, LoopAction::Sleep { millis: 50 });
    assert_eq!(loop_step(mode, state, 999, false).1, LoopAction::Sleep { millis: 1 });
    assert_eq!(loop_step(mode, state, 1000, false).1, LoopAction::Tick);
    assert_eq!(loop_step(mode, state, 100, false).1, LoopAction::Sleep { millis: 100 });
}

#[test]
fn shutdown_is_seen_in_every_state() {
    let mode = RunMode::Periodic { interval_secs: 2 };
    for state in [
        LoopState::Start,
        LoopState::Ticked,
        LoopState::Sleeping { since_ms: 10 },
        LoopState::Stopped,
    ] {
        assert_eq!(loop_step(mode, state, 20, true), (LoopState::Stopped, LoopAction::Exit));
    }
}

#[test]
fn zero_interval_ticks_back_to_back() {
    let mode = RunMode::Periodic { interval_secs: 0 };
    assert_eq!(loop_step(mode, LoopState::Ticked, 7, false), (LoopState::Ticked, LoopAction::Tick));
}

#[test]
fn error_messages_are_kept() {
    let e = NetflowError::generation("no clock");
    assert_eq!(e.message(), "no clock");
    assert!(matches!(e, NetflowError::Generation(_)));
    assert!(matches!(NetflowError::validation("x"), NetflowError::Validation(_)));
    assert!(matches!(NetflowError::configuration("x"), NetflowError::Configuration(_)));
    assert!(matches!(NetflowError::invalid_packet("x"), NetflowError::InvalidPacket(_)));
    assert!(matches!(NetflowError::invalid_destination("x"), NetflowError::InvalidDestination(_)));
    assert_eq!(NetflowError::Io("disk".to_string()).message(), "disk");
}
