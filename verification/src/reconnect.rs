//! The reconnect strategy: exponential backoff with a cap and a bounded
//! number of attempts.
//!
//! The delay before attempt `n` (counting from zero) is
//! `min(2^n, 300)` seconds: 1, 2, 4, 8, 16, 32, 64, 128, 256, 300.
//! After ten failed attempts no further delay is offered, and any
//! successful connect resets the count.

use vstd::prelude::*;
use vstd::arithmetic::power2::{lemma2_to64, pow2};

verus! {

/// How many consecutive attempts are made before giving up.
pub const RECONNECT_MAX_RETRIES: u32 = 10;

/// The delay cap in seconds.
pub const RECONNECT_MAX_DELAY_SECS: u64 = 300;

/// The delay in seconds before attempt `attempt`.
pub open spec fn spec_backoff_delay(attempt: nat) -> int {
    vstd::math::min(pow2(attempt) as int, RECONNECT_MAX_DELAY_SECS as int)
}

/// The delays form the sequence 1, 2, 4, 8, 16, 32, 64, 128, 256, 300,
/// and stay at the cap from the tenth attempt on.
pub proof fn lemma_backoff_sequence()
    ensures
        spec_backoff_delay(0) == 1,
        spec_backoff_delay(1) == 2,
        spec_backoff_delay(2) == 4,
        spec_backoff_delay(3) == 8,
        spec_backoff_delay(4) == 16,
        spec_backoff_delay(5) == 32,
        spec_backoff_delay(6) == 64,
        spec_backoff_delay(7) == 128,
        spec_backoff_delay(8) == 256,
        forall|n: nat| n >= 9 ==> #[trigger] spec_backoff_delay(n) == 300,
{
    lemma2_to64();
    assert forall|n: nat| n >= 9 implies #[trigger] spec_backoff_delay(n) == 300 by {
        vstd::arithmetic::power2::lemma_pow2_adds((n - 9) as nat, 9);
        vstd::arithmetic::power2::lemma_pow2_pos((n - 9) as nat);
        assert(pow2(n) == pow2((n - 9) as nat) * pow2(9));
        assert(pow2(n) >= pow2(9)) by (nonlinear_arith)
            requires
                pow2(n) == pow2((n - 9) as nat) * pow2(9),
                pow2((n - 9) as nat) >= 1,
        ;
    }
}

/// Counts consecutive failed connection attempts and hands out the
/// next backoff delay.
#[derive(Debug, Clone)]
pub struct ReconnectStrategy {
    pub current_attempt: u32,
}

impl ReconnectStrategy {
    /// A fresh strategy with no failures recorded.
    pub fn new() -> (r: Self)
        ensures
            r.current_attempt == 0,
    {
        ReconnectStrategy { current_attempt: 0 }
    }

    /// Forgets all failures; called after a successful authenticated
    /// connect.
    pub fn reset(&mut self)
        ensures
            final(self).current_attempt == 0,
    {
        self.current_attempt = 0;
    }

    /// The delay in seconds before the next attempt, or `None` when the
    /// attempts are used up. Each call counts one attempt.
    pub fn next_delay(&mut self) -> (r: Option<u64>)
        ensures
            old(self).current_attempt >= RECONNECT_MAX_RETRIES ==> r is None && *final(self)
                == *old(self),
            old(self).current_attempt < RECONNECT_MAX_RETRIES ==> {
                &&& r == Some((spec_backoff_delay(old(self).current_attempt as nat) as u64))
                &&& final(self).current_attempt == old(self).current_attempt + 1
            },
    {
        if self.current_attempt >= RECONNECT_MAX_RETRIES {
            return None;
        }
        let a = self.current_attempt;
        let delay: u64 = if a == 0 { 1 }
        else if a == 1 { 2 }
        else if a == 2 { 4 }
        else if a == 3 { 8 }
        else if a == 4 { 16 }
        else if a == 5 { 32 }
        else if a == 6 { 64 }
        else if a == 7 { 128 }
        else if a == 8 { 256 }
        else { 300 };
        proof {
            lemma_backoff_sequence();
        }
        self.current_attempt = a + 1;
        Some(delay)
    }
}

impl Default for ReconnectStrategy {
    fn default() -> (r: Self)
        ensures
            r.current_attempt == 0,
    {
        ReconnectStrategy { current_attempt: 0 }
    }
}

} // verus!
