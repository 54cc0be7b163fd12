//! The options of the command line, as plain values.

use vstd::prelude::*;

verus! {

/// The tick period used when none is given, in seconds.
pub const DEFAULT_INTERVAL: u64 = 2;

/// The number of workers used when none is given.
pub const DEFAULT_THREADS: usize = 4;

/// The UDP source port used when none is given.
pub const DEFAULT_SOURCE_PORT: u16 = 2056;

/// The options of one run.
#[derive(Debug, Clone)]
pub struct Cli {
    /// Path of the configuration file; without one the built-in samples are sent.
    pub config: Option<String>,
    /// Destination as `IP:PORT`; it overrides the destination of the configuration.
    pub dest: Option<String>,
    /// Path of a capture file to write instead of sending over UDP.
    pub output: Option<String>,
    /// Whether progress is reported.
    pub verbose: bool,
    /// Tick period in seconds.
    pub interval: Option<u64>,
    /// Whether to run one tick and exit.
    pub once: bool,
    /// Number of workers that build exporter groups.
    pub threads: usize,
    /// UDP source port.
    pub source_port: u16,
}

/// How a run proceeds.
#[derive(Debug, Clone, Copy, PartialEq, Eq)]
pub enum RunMode {
    /// One tick, then exit.
    Once,
    /// A tick every `interval_secs` seconds until shutdown is requested.
    Periodic { interval_secs: u64 },
}

/// The mode that the options ask for: a single tick with `--once`, else periodic ticks
/// with the given interval or the default of two seconds.
pub open spec fn run_mode_of(cli: Cli) -> RunMode {
    if cli.once {
        RunMode::Once
    } else {
        RunMode::Periodic {
            interval_secs: match cli.interval {
                Some(secs) => secs,
                None => DEFAULT_INTERVAL,
            },
        }
    }
}

impl Cli {
    /// The mode that the options ask for.
    pub fn run_mode(&self) -> (mode: RunMode)
        ensures
            mode == run_mode_of(*self),
    {
        if self.once {
            RunMode::Once
        } else {
            match self.interval {
                Some(interval_secs) => RunMode::Periodic { interval_secs },
                None => RunMode::Periodic { interval_secs: DEFAULT_INTERVAL },
            }
        }
    }
}

} // verus!
