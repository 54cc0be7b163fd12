//! The decisions of the main loop: when to tick, how long to sleep, when to stop.
//!
//! The loop itself, with its sleeping and sending, lives outside; it asks
//! [`loop_step`] what to do next, does it, and asks again.

use crate::cli::RunMode;
use vstd::prelude::*;

verus! {

/// The longest sleep between two looks at the shutdown flag, in milliseconds.
pub const SLEEP_QUANTUM_MS: u64 = 100;

/// Where the main loop stands.
#[derive(Debug, Clone, Copy, PartialEq, Eq)]
pub enum LoopState {
    /// Nothing has happened yet.
    Start,
    /// A tick has just been carried out.
    Ticked,
    /// Waiting for the next tick since the given time.
    Sleeping { since_ms: u64 },
    /// The loop has ended.
    Stopped,
}

/// What the main loop does next.
#[derive(Debug, Clone, Copy, PartialEq, Eq)]
pub enum LoopAction {
    /// Build the packets of one tick and send or write them.
    Tick,
    /// Sleep for the given number of milliseconds, then ask again.
    Sleep { millis: u64 },
    /// Close the sinks and leave.
    Exit,
}

/// The tick period of a mode in milliseconds, held to 64 bits.
pub open spec fn interval_ms(mode: RunMode) -> int {
    match mode {
        RunMode::Once => 0,
        RunMode::Periodic { interval_secs } => if interval_secs * 1000 > u64::MAX {
            u64::MAX as int
        } else {
            interval_secs * 1000
        },
    }
}

/// The time that has passed since `since_ms`; none if the clock reads less than then.
pub open spec fn elapsed_ms(since_ms: u64, now_ms: u64) -> int {
    if now_ms >= since_ms {
        now_ms - since_ms
    } else {
        0
    }
}

/// The sleep that is due when `left` milliseconds remain until the next tick: the
/// whole remainder, but at most one quantum.
pub open spec fn sleep_for(left: int) -> LoopAction {
    LoopAction::Sleep {
        millis: if left < SLEEP_QUANTUM_MS {
            left as u64
        } else {
            SLEEP_QUANTUM_MS
        },
    }
}

/// The next state and action of the main loop, at time `now_ms` on a monotonic clock
/// and with the shutdown flag as it stands.
///
/// A single-shot run ticks once and exits. A periodic run exits as soon as it sees the
/// shutdown flag, which it looks at before the first tick, after every tick and after
/// every sleep; otherwise it ticks, then sleeps in quanta until the interval has
/// passed since the tick ended, and ticks again.
pub open spec fn next_step(mode: RunMode, state: LoopState, now_ms: u64, shutdown: bool) -> (
    LoopState,
    LoopAction,
) {
    match state {
        LoopState::Stopped => (LoopState::Stopped, LoopAction::Exit),
        LoopState::Start => if mode is Periodic && shutdown {
            (LoopState::Stopped, LoopAction::Exit)
        } else {
            (LoopState::Ticked, LoopAction::Tick)
        },
        LoopState::Ticked => if mode is Once || shutdown {
            (LoopState::Stopped, LoopAction::Exit)
        } else if interval_ms(mode) == 0 {
            (LoopState::Ticked, LoopAction::Tick)
        } else {
            (LoopState::Sleeping { since_ms: now_ms }, sleep_for(interval_ms(mode)))
        },
        LoopState::Sleeping { since_ms } => if mode is Once || shutdown {
            (LoopState::Stopped, LoopAction::Exit)
        } else if elapsed_ms(since_ms, now_ms) >= interval_ms(mode) {
            (LoopState::Ticked, LoopAction::Tick)
        } else {
            (
                LoopState::Sleeping { since_ms },
                sleep_for(interval_ms(mode) - elapsed_ms(since_ms, now_ms)),
            )
        },
    }
}

/// The sleep that is due when `left` milliseconds remain.
fn sleep_action(left: u64) -> (action: LoopAction)
    ensures
        action == sleep_for(left as int),
{
    if left < SLEEP_QUANTUM_MS {
        LoopAction::Sleep { millis: left }
    } else {
        LoopAction::Sleep { millis: SLEEP_QUANTUM_MS }
    }
}

/// Decides what the main loop does next.
pub fn loop_step(mode: RunMode, state: LoopState, now_ms: u64, shutdown: bool) -> (step: (
    LoopState,
    LoopAction,
))
    ensures
        step == next_step(mode, state, now_ms, shutdown),
        shutdown && mode is Periodic ==> step.1 is Exit,
        step.1 matches LoopAction::Sleep { millis } ==> 0 < millis <= SLEEP_QUANTUM_MS,
        step.1 is Exit <==> step.0 is Stopped,
{
    let interval: u64 = match mode {
        RunMode::Once => 0,
        RunMode::Periodic { interval_secs } => match interval_secs.checked_mul(1000) {
            Some(ms) => ms,
            None => u64::MAX,
        },
    };
    let periodic = match mode {
        RunMode::Once => false,
        RunMode::Periodic { .. } => true,
    };
    match state {
        LoopState::Stopped => (LoopState::Stopped, LoopAction::Exit),
        LoopState::Start => {
            if periodic && shutdown {
                (LoopState::Stopped, LoopAction::Exit)
            } else {
                (LoopState::Ticked, LoopAction::Tick)
            }
        },
        LoopState::Ticked => {
            if !periodic || shutdown {
                (LoopState::Stopped, LoopAction::Exit)
            } else if interval == 0 {
                (LoopState::Ticked, LoopAction::Tick)
            } else {
                (LoopState::Sleeping { since_ms: now_ms }, sleep_action(interval))
            }
        },
        LoopState::Sleeping { since_ms } => {
            if !periodic || shutdown {
                (LoopState::Stopped, LoopAction::Exit)
            } else {
                let elapsed = if now_ms >= since_ms {
                    now_ms - since_ms
                } else {
                    0
                };
                if elapsed >= interval {
                    (LoopState::Ticked, LoopAction::Tick)
                } else {
                    (LoopState::Sleeping { since_ms }, sleep_action(interval - elapsed))
                }
            }
        },
    }
}

} // verus!
