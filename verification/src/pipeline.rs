//! The poll-loop step.
//!
//! The caller owns the channel, the clock and the sink; this type decides.
//! Each iteration hands `step` the buffer one read returned, and `step`
//! answers with the action owed: sleep (flushing first on the transition out
//! of the active state), or append the decoded lines with no sleep.

use crate::decode::{decode_buffer_lines, decoded_text, lines_of};
use crate::poll::{next_interval, PollState};
use vstd::prelude::*;
use vstd::utf8::valid_utf8;

verus! {

/// How many bytes one bounded channel read may return at most.
pub const READ_BUFFER_BYTES: usize = 64 * 1024;

/// What one loop iteration tells the caller to do.
pub enum StepAction {
    /// The read was empty: flush the sink first when `flush` says so, then
    /// sleep `sleep_millis` milliseconds before the next read.
    Idle { flush: bool, sleep_millis: u64 },
    /// The read returned data: append these lines to the sink, in this
    /// order, with no sleep. `decode_warning` says the buffer was not valid
    /// text and owes exactly one warning.
    Emit { lines: Vec<String>, decode_warning: bool },
}

/// Drives the adaptive read loop: backoff bookkeeping plus the
/// decode-and-split step.
pub struct Poller {
    /// Backoff state.
    pub state: PollState,
    /// Whether the previous iteration saw data; the sink is flushed on the
    /// next empty read.
    pub active: bool,
}

impl Poller {
    pub open spec fn wf(self) -> bool {
        self.state.wf()
    }

    /// Start idle, at the floor interval.
    pub fn new(floor: u64, ceiling: u64) -> (poller: Poller)
        requires
            floor <= ceiling,
        ensures
            poller.wf(),
            poller.state.floor == floor,
            poller.state.ceiling == ceiling,
            poller.state.current == floor,
            !poller.active,
    {
        Poller { state: PollState::new(floor, ceiling), active: false }
    }

    /// One loop iteration, over the buffer one read returned.
    pub fn step(&mut self, buf: &[u8]) -> (action: StepAction)
        requires
            old(self).wf(),
        ensures
            final(self).wf(),
            final(self).state.floor == old(self).state.floor,
            final(self).state.ceiling == old(self).state.ceiling,
            buf@.len() == 0 ==> ({
                &&& action matches StepAction::Idle { flush, sleep_millis } && flush == old(
                    self,
                ).active && sleep_millis == old(self).state.current
                &&& final(self).state.current == next_interval(
                    old(self).state.current,
                    old(self).state.ceiling,
                )
                &&& !final(self).active
            }),
            buf@.len() > 0 ==> ({
                &&& action matches StepAction::Emit { lines, decode_warning } && lines.deep_view()
                    == lines_of(decoded_text(buf@)) && decode_warning == !valid_utf8(buf@)
                &&& final(self).state.current == old(self).state.floor
                &&& final(self).active
            }),
    {
        if buf.len() == 0 {
            let flush = self.active;
            self.active = false;
            let sleep_millis = self.state.on_empty();
            StepAction::Idle { flush, sleep_millis }
        } else {
            self.active = true;
            self.state.on_data();
            let (lines, decode_warning) = decode_buffer_lines(buf);
            StepAction::Emit { lines, decode_warning }
        }
    }
}

} // verus!
