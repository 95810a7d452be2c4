//! Per-bot update loop (long polling): what to ask for next, and how long to
//! wait after a failure.

use vstd::prelude::*;

verus! {

/// The longest wait after a failure, in seconds.
pub const LONGEST_BACKOFF: u64 = 30;

/// Where the update loop stands.
#[derive(Debug, Clone, Copy, PartialEq, Eq, Structural)]
pub struct PollState {
    /// The first update that has not been seen.
    pub offset: Option<i64>,
    /// How long to wait after the next failure, in seconds.
    pub backoff: u64,
}

impl PollState {
    /// The loop after a batch of updates arrived.
    pub open spec fn after_batch(self) -> PollState {
        PollState { backoff: 1, ..self }
    }

    /// The loop after an update was taken: the one behind it is asked for next.
    pub open spec fn after_update(self, update_id: i64) -> PollState {
        PollState { offset: Some((update_id + 1) as i64), ..self }
    }

    /// The loop after a call failed: the next failure is waited on for twice as long, up to
    /// the longest wait.
    pub open spec fn after_failure(self) -> PollState {
        PollState {
            backoff: if self.backoff * 2 < LONGEST_BACKOFF {
                (self.backoff * 2) as u64
            } else {
                LONGEST_BACKOFF
            },
            ..self
        }
    }

    /// The start of the loop.
    pub fn new() -> (r: PollState)
        ensures
            r == (PollState { offset: None, backoff: 1 }),
    {
        PollState { offset: None, backoff: 1 }
    }

    /// A batch of updates arrived.
    pub fn on_batch(&mut self)
        ensures
            *final(self) == (PollState { backoff: 1, ..*old(self) }),
            *final(self) == old(self).after_batch(),
    {
        self.backoff = 1;
    }

    /// An update of the batch was taken.
    pub fn on_update(&mut self, update_id: i64)
        requires
            update_id < i64::MAX,
        ensures
            *final(self) == (PollState { offset: Some((update_id + 1) as i64), ..*old(self) }),
            *final(self) == old(self).after_update(update_id),
    {
        self.offset = Some(update_id + 1);
    }

    /// The call failed; returns how many seconds to wait.
    pub fn on_failure(&mut self) -> (wait: u64)
        requires
            old(self).backoff <= LONGEST_BACKOFF,
        ensures
            wait == old(self).backoff,
            *final(self) == (PollState {
                backoff: if old(self).backoff * 2 < LONGEST_BACKOFF {
                    (old(self).backoff * 2) as u64
                } else {
                    LONGEST_BACKOFF
                },
                ..*old(self)
            }),
            *final(self) == old(self).after_failure(),
            final(self).backoff <= LONGEST_BACKOFF,
    {
        let wait = self.backoff;
        self.backoff = if wait * 2 < LONGEST_BACKOFF {
            wait * 2
        } else {
            LONGEST_BACKOFF
        };
        wait
    }
}

}
