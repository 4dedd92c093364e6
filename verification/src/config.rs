//! Resolved startup configuration.
//!
//! Both front doors (command-line flags or a configuration file) are
//! normalized into one value of this shape before any component is built.
//! Validation runs before any hardware is touched: a configuration whose
//! minimum polling rate exceeds its maximum is rejected outright.

use crate::poll::PollState;
use vstd::prelude::*;

verus! {

/// The startup faults that reject a configuration.
#[derive(Clone, Copy, Debug, PartialEq, Eq)]
pub enum ConfigFault {
    /// The minimum polling rate exceeds the maximum.
    MinExceedsMax,
}

/// The resolved configuration, as plain values.
pub struct CollectorConfig {
    /// Target chip name.
    pub chip: String,
    /// Probe selector, `VID:PID` or `VID:PID:Serial`.
    pub probe: String,
    /// Optional path to the firmware debug image.
    pub elf: Option<String>,
    /// Whether to connect to the target under reset.
    pub connect_under_reset: bool,
    /// Shortest sleep between two polls, in milliseconds.
    pub min_poll_rate_millis: u64,
    /// Longest sleep between two polls, in milliseconds.
    pub max_poll_rate_millis: u64,
}

impl CollectorConfig {
    /// A configuration is usable when its polling bounds are ordered.
    pub open spec fn wf(self) -> bool {
        self.min_poll_rate_millis <= self.max_poll_rate_millis
    }

    /// Check the polling bounds: rejected exactly when the minimum exceeds
    /// the maximum. This must run, and fail the process, before any probe
    /// is opened.
    pub fn validate(&self) -> (r: Result<(), ConfigFault>)
        ensures
            r is Ok <==> self.wf(),
            r is Err ==> r == Err::<(), ConfigFault>(ConfigFault::MinExceedsMax),
    {
        if self.min_poll_rate_millis > self.max_poll_rate_millis {
            Err(ConfigFault::MinExceedsMax)
        } else {
            Ok(())
        }
    }

    /// The polling state a validated configuration starts the loop with.
    pub fn initial_poll_state(&self) -> (state: PollState)
        requires
            self.wf(),
        ensures
            state.wf(),
            state.floor == self.min_poll_rate_millis,
            state.ceiling == self.max_poll_rate_millis,
            state.current == self.min_poll_rate_millis,
    {
        PollState::new(self.min_poll_rate_millis, self.max_poll_rate_millis)
    }
}

} // verus!
