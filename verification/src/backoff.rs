use vstd::arithmetic::power2::{lemma_pow2_pos, lemma_pow2_unfold, pow2};
use vstd::prelude::*;

use crate::config::{INITIAL_BACKOFF_SECS, MAX_BACKOFF_SECS};

verus! {

/// The delay, in seconds, that follows a delay of `backoff` seconds after a
/// failed connection attempt: twice as long, but never above the maximum.
pub open spec fn next_backoff_spec(backoff: int) -> int {
    if 2 * backoff < MAX_BACKOFF_SECS as int {
        2 * backoff
    } else {
        MAX_BACKOFF_SECS as int
    }
}

/// The delay before the attempt that follows `failures` failed attempts in one
/// reconnection round.
pub open spec fn backoff_after(failures: nat) -> int
    decreases failures,
{
    if failures == 0 {
        INITIAL_BACKOFF_SECS as int
    } else {
        next_backoff_spec(backoff_after((failures - 1) as nat))
    }
}

/// Doubles a reconnection delay and caps it at `MAX_BACKOFF_SECS`.
pub fn next_backoff(backoff: u64) -> (next: u64)
    requires
        backoff <= u64::MAX / 2,
    ensures
        next == next_backoff_spec(backoff as int),
{
    let doubled = backoff * 2;
    if doubled < MAX_BACKOFF_SECS {
        doubled
    } else {
        MAX_BACKOFF_SECS
    }
}

/// Every delay of a reconnection round lies between the initial and the
/// maximum delay.
pub proof fn lemma_backoff_bounds(failures: nat)
    ensures
        INITIAL_BACKOFF_SECS <= backoff_after(failures) <= MAX_BACKOFF_SECS,
    decreases failures,
{
    if failures > 0 {
        lemma_backoff_bounds((failures - 1) as nat);
    }
}

/// After `failures` failed attempts the delay is `2^failures` seconds, capped
/// at `MAX_BACKOFF_SECS`.
pub proof fn lemma_backoff_closed_form(failures: nat)
    ensures
        backoff_after(failures) == if pow2(failures) < MAX_BACKOFF_SECS {
            pow2(failures) as int
        } else {
            MAX_BACKOFF_SECS as int
        },
    decreases failures,
{
    if failures == 0 {
        assert(pow2(0) == 1) by {
            vstd::arithmetic::power2::lemma2_to64();
        }
    } else {
        let prev = (failures - 1) as nat;
        lemma_backoff_closed_form(prev);
        lemma_pow2_unfold(failures);
        lemma_pow2_pos(prev);
    }
}

/// Delays never shrink within a reconnection round.
pub proof fn lemma_backoff_monotone(earlier: nat, later: nat)
    requires
        earlier <= later,
    ensures
        backoff_after(earlier) <= backoff_after(later),
    decreases later - earlier,
{
    if earlier < later {
        let prev = (later - 1) as nat;
        lemma_backoff_monotone(earlier, prev);
        lemma_backoff_bounds(prev);
    }
}

/// From the fifth failed attempt on, the delay stays at the maximum.
pub proof fn lemma_backoff_saturates(failures: nat)
    requires
        failures >= 5,
    ensures
        backoff_after(failures) == MAX_BACKOFF_SECS,
    decreases failures,
{
    if failures == 5 {
        reveal_with_fuel(backoff_after, 6);
    } else {
        lemma_backoff_saturates((failures - 1) as nat);
    }
}

/// The state of one reconnection round: the delay to wait before the next
/// connection attempt, and how many attempts of this round have failed.
pub struct Reconnect {
    backoff: u64,
    failures: Ghost<nat>,
}

impl Reconnect {
    #[verifier::type_invariant]
    spec fn inv(self) -> bool {
        self.backoff == backoff_after(self.failures@)
    }

    /// Number of failed attempts so far in this round.
    pub closed spec fn failures(self) -> nat {
        self.failures@
    }

    /// Starts a reconnection round: nothing has failed yet.
    pub fn start() -> (r: Reconnect)
        ensures
            r.failures() == 0,
    {
        Reconnect { backoff: INITIAL_BACKOFF_SECS, failures: Ghost(0) }
    }

    /// Seconds to wait before the next connection attempt.
    pub fn delay_secs(&self) -> (secs: u64)
        ensures
            secs == backoff_after(self.failures()),
    {
        proof {
            use_type_invariant(self);
        }
        self.backoff
    }

    /// Records the outcome of a connection attempt. Returns whether the round
    /// is over, which it is exactly when the attempt succeeded; a failure
    /// lengthens the next delay.
    pub fn on_attempt(&mut self, succeeded: bool) -> (done: bool)
        ensures
            done == succeeded,
            succeeded ==> final(self).failures() == old(self).failures(),
            !succeeded ==> final(self).failures() == old(self).failures() + 1,
    {
        proof {
            use_type_invariant(&*self);
            lemma_backoff_bounds(self.failures@);
        }
        if succeeded {
            true
        } else {
            let next = next_backoff(self.backoff);
            *self = Reconnect { backoff: next, failures: Ghost(self.failures@ + 1) };
            false
        }
    }
}

} // verus!
