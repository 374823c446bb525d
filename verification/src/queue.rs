//! Decisions of the queue-consumption loop: the exponential backoff
//! delay, the failure counter, and what a tick does with its messages
//! once every unit of work has been attempted.
//!
//! The loop itself polls the queue, runs the units, deletes messages
//! and sleeps outside this crate; it asks these functions what to do
//! and for how long to wait.

use vstd::prelude::*;
use vstd::arithmetic::power2::pow2;
use vstd::arithmetic::power2::lemma_pow2_unfold;
use vstd::arithmetic::power2::lemma_pow2_strictly_increases;
use vstd::arithmetic::power2::lemma2_to64;

verus! {

/// The minimum time to wait between ticks, in milliseconds.
pub const BASE_LAPSE_MILLIS: u64 = 300;

/// The longest the loop ever sleeps between ticks, in milliseconds.
pub const MAX_SLEEP_MILLIS: u64 = 1200000;

/// The delay after `backoff` successive failures: the base lapse
/// doubled once per failure, capped at the maximum sleep.
pub open spec fn spec_fail_delay(backoff: nat) -> u64 {
    if 300 * pow2(backoff) >= 1200000 {
        1200000u64
    } else {
        (300 * pow2(backoff)) as u64
    }
}

/// The capped exponential backoff delay in milliseconds.
pub fn fail_delay(backoff: u32) -> (r: u64)
    ensures
        r == spec_fail_delay(backoff as nat),
{
    let mut d: u64 = BASE_LAPSE_MILLIS;
    let mut k: u32 = 0;
    proof {
        lemma2_to64();
    }
    while k < backoff && d < MAX_SLEEP_MILLIS
        invariant
            k <= backoff,
            if 300 * pow2(k as nat) >= 1200000 {
                d == 1200000
            } else {
                d == 300 * pow2(k as nat)
            },
            d <= 1200000,
        decreases backoff - k,
    {
        proof {
            lemma_pow2_unfold(k as nat + 1);
        }
        d = if d > MAX_SLEEP_MILLIS / 2 {
            MAX_SLEEP_MILLIS
        } else {
            d * 2
        };
        k = k + 1;
    }
    proof {
        if k < backoff {
            // the cap was reached early and only grows with the exponent
            if (k as nat) < (backoff as nat) {
                lemma_pow2_strictly_increases(k as nat, backoff as nat);
            }
        }
    }
    d
}

/// The running state of the consumption loop: how many successive
/// failures have been seen since the last success.
pub struct ConsumerState {
    pub backoff: u32,
}

impl ConsumerState {
    /// A fresh loop state with no failures recorded.
    pub fn new() -> (r: ConsumerState)
        ensures
            r.backoff == 0,
    {
        ConsumerState { backoff: 0 }
    }

    /// Records a successful tick: the failure count resets, and the
    /// loop waits the base lapse.
    pub fn pass(&mut self) -> (delay: u64)
        ensures
            final(self).backoff == 0,
            delay == BASE_LAPSE_MILLIS,
    {
        self.backoff = 0;
        BASE_LAPSE_MILLIS
    }

    /// Records a failed tick: the loop waits the backoff delay for
    /// the current failure count, which then grows by one (never
    /// overflowing).
    pub fn fail(&mut self) -> (delay: u64)
        ensures
            delay == spec_fail_delay(old(self).backoff as nat),
            final(self).backoff as int == if old(self).backoff == u32::MAX {
                u32::MAX as int
            } else {
                old(self).backoff + 1
            },
    {
        let delay = fail_delay(self.backoff);
        if self.backoff < u32::MAX {
            self.backoff = self.backoff + 1;
        }
        delay
    }
}

/// What a tick does once its units of work have been attempted.
#[derive(Debug, PartialEq, Eq, Structural)]
pub enum TickDecision {
    /// The poll itself failed: back off, touch nothing.
    Backoff,
    /// Finish the tick without deleting any message: either some unit
    /// failed (so the whole message batch is left to be redelivered),
    /// or there was no message at all.
    CompleteWithoutDelete,
    /// Every unit succeeded and messages were received: delete them
    /// all, then finish the tick.
    DeleteThenComplete,
}

/// The decision a tick reaches from its poll outcome, the number of
/// received messages, and whether any unit of work failed.
pub open spec fn spec_decide_tick(
    poll_failed: bool,
    message_count: nat,
    any_unit_failed: bool,
) -> TickDecision {
    if poll_failed {
        TickDecision::Backoff
    } else if any_unit_failed {
        TickDecision::CompleteWithoutDelete
    } else if message_count == 0 {
        TickDecision::CompleteWithoutDelete
    } else {
        TickDecision::DeleteThenComplete
    }
}

/// Decides a tick: a failed poll backs off; a failed unit keeps every
/// message for redelivery but still counts as a completed tick; an
/// empty poll completes at once; otherwise all received messages are
/// deleted in one batch. Messages whose body never produced a unit of
/// work are deleted along with the rest.
pub fn decide_tick(poll_failed: bool, message_count: usize, any_unit_failed: bool) -> (r:
    TickDecision)
    ensures
        r == spec_decide_tick(poll_failed, message_count as nat, any_unit_failed),
{
    if poll_failed {
        TickDecision::Backoff
    } else if any_unit_failed {
        TickDecision::CompleteWithoutDelete
    } else if message_count == 0 {
        TickDecision::CompleteWithoutDelete
    } else {
        TickDecision::DeleteThenComplete
    }
}

/// After the batch delete: a failed delete call backs off; a reply
/// that only names some undeleted messages is not retried and the
/// tick completes.
pub fn decide_after_delete(delete_failed: bool) -> (r: TickDecision)
    ensures
        r == if delete_failed {
            TickDecision::Backoff
        } else {
            TickDecision::CompleteWithoutDelete
        },
{
    if delete_failed {
        TickDecision::Backoff
    } else {
        TickDecision::CompleteWithoutDelete
    }
}

} // verus!
