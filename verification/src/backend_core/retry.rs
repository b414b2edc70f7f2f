//! Backoff policy used by retry loops.
use vstd::arithmetic::power2;
use vstd::prelude::*;

verus! {

/// Largest exponent that the backoff uses.
pub const MAX_BACKOFF_SHIFT: u32 = 20;

/// Exponential backoff between a base and a maximal delay.
#[derive(Debug, Clone, Copy, PartialEq, Eq, Structural)]
pub struct RetryPolicy {
    base_delay_ms: u64,
    max_delay_ms: u64,
}

/// Delay before attempt `attempt`: the base doubled once per attempt (at most
/// [`MAX_BACKOFF_SHIFT`] times) or the hint if it is larger, and never more
/// than the maximum.
pub open spec fn backoff_delay(base: nat, max: nat, attempt: nat, hint: nat) -> nat {
    let doublings: nat = if attempt <= MAX_BACKOFF_SHIFT { attempt } else { MAX_BACKOFF_SHIFT as nat };
    let calculated: nat = base * power2::pow2(doublings);
    let wanted: nat = if calculated >= hint { calculated } else { hint };
    if wanted <= max { wanted } else { max }
}

/// The hint in milliseconds, or nothing.
pub open spec fn hint_or_zero(hint: Option<u64>) -> nat {
    match hint {
        Some(ms) => ms as nat,
        None => 0,
    }
}

impl RetryPolicy {
    /// Delay of the first attempt.
    pub closed spec fn base(self) -> nat {
        self.base_delay_ms as nat
    }

    /// Upper bound of every delay.
    pub closed spec fn max(self) -> nat {
        self.max_delay_ms as nat
    }

    /// A policy with the given base and maximal delay.
    pub fn new(base_delay_ms: u64, max_delay_ms: u64) -> (policy: Self)
        ensures
            policy.base() == base_delay_ms,
            policy.max() == max_delay_ms,
    {
        RetryPolicy { base_delay_ms, max_delay_ms }
    }

    /// Delay of the first attempt, in milliseconds.
    pub fn base_delay_ms(&self) -> (ms: u64)
        ensures
            ms == self.base(),
    {
        self.base_delay_ms
    }

    /// Upper bound of every delay, in milliseconds.
    pub fn max_delay_ms(&self) -> (ms: u64)
        ensures
            ms == self.max(),
    {
        self.max_delay_ms
    }

    /// Delay in milliseconds before the given attempt.
    pub fn delay_for_attempt(&self, attempt: u32, retry_after_hint_ms: Option<u64>) -> (ms: u64)
        ensures
            ms == backoff_delay(
                self.base(),
                self.max(),
                attempt as nat,
                hint_or_zero(retry_after_hint_ms),
            ),
    {
        let shift: u32 = if attempt <= MAX_BACKOFF_SHIFT { attempt } else { MAX_BACKOFF_SHIFT };
        let multiplier: u64 = power_of_two(shift);
        proof {
            let base = self.base_delay_ms;
            assert(base * multiplier <= 0xffff_ffff_ffff_ffff * 0x10_0000) by (nonlinear_arith)
                requires
                    base <= 0xffff_ffff_ffff_ffff,
                    multiplier <= 0x10_0000,
            ;
        }
        let calculated: u128 = self.base_delay_ms as u128 * multiplier as u128;
        let hinted: u64 = match retry_after_hint_ms {
            Some(ms) => ms,
            None => 0,
        };
        let wanted: u128 = if calculated >= hinted as u128 { calculated } else { hinted as u128 };
        if wanted <= self.max_delay_ms as u128 {
            wanted as u64
        } else {
            self.max_delay_ms
        }
    }
}

fn power_of_two(exponent: u32) -> (power: u64)
    requires
        exponent <= MAX_BACKOFF_SHIFT,
    ensures
        power == power2::pow2(exponent as nat),
        power <= 0x10_0000,
{
    let mut power: u64 = 1;
    let mut done: u32 = 0;
    proof {
        power2::lemma2_to64();
    }
    while done < exponent
        invariant
            done <= exponent <= MAX_BACKOFF_SHIFT,
            power == power2::pow2(done as nat),
            power2::pow2(20) == 0x10_0000,
        decreases exponent - done,
    {
        proof {
            power2::lemma_pow2_strictly_increases(done as nat, 20);
            power2::lemma_pow2_unfold((done + 1) as nat);
        }
        power = power * 2;
        done += 1;
    }
    proof {
        if exponent < 20 {
            power2::lemma_pow2_strictly_increases(exponent as nat, 20);
        }
    }
    power
}

impl Default for RetryPolicy {
    fn default() -> (policy: Self)
        ensures
            policy.base() == 500,
            policy.max() == 30_000,
    {
        RetryPolicy::new(500, 30_000)
    }
}

/// No delay is above the policy's maximum, whatever the hint says.
pub proof fn lemma_delay_never_exceeds_max(base: nat, max: nat, attempt: nat, hint: nat)
    ensures
        backoff_delay(base, max, attempt, hint) <= max,
{
}

/// A hint below the maximum is honored: the delay is at least as long.
pub proof fn lemma_delay_honors_hint(base: nat, max: nat, attempt: nat, hint: nat)
    requires
        hint <= max,
    ensures
        backoff_delay(base, max, attempt, hint) >= hint,
{
}

/// Without a hint the first delay is the base, each further one twice the one before, up to the
/// maximum, and after the last doubling the delay stays.
pub proof fn lemma_delay_doubles_up_to_max(base: nat, max: nat, attempt: nat)
    ensures
        base <= max ==> backoff_delay(base, max, 0, 0) == base,
        base > max ==> backoff_delay(base, max, 0, 0) == max,
        attempt < 20 ==> ({
            let doubled = 2 * backoff_delay(base, max, attempt, 0);
            backoff_delay(base, max, attempt + 1, 0) == if doubled <= max { doubled } else { max }
        }),
        attempt >= 20 ==> backoff_delay(base, max, attempt + 1, 0) == backoff_delay(
            base,
            max,
            attempt,
            0,
        ),
{
    power2::lemma2_to64();
    assert(base * 1 == base);
    if attempt < 20 {
        power2::lemma_pow2_unfold((attempt + 1) as nat);
        let power = power2::pow2(attempt);
        assert(base * (2 * power) == 2 * (base * power)) by (nonlinear_arith);
    }
}

/// A hint counts where it is longer than the delay without one, and changes nothing where it is
/// not; it never leads beyond the maximum.
pub proof fn lemma_hint_only_prolongs(base: nat, max: nat, attempt: nat, hint: nat)
    ensures
        ({
            let plain = backoff_delay(base, max, attempt, 0);
            let hinted = backoff_delay(base, max, attempt, hint);
            &&& hint <= plain ==> hinted == plain
            &&& plain < hint <= max ==> hinted == hint
            &&& hint > max ==> hinted == max
        }),
{
}

/// The delay never shrinks where the hint grows.
pub proof fn lemma_delay_is_monotonic_in_hint(
    base: nat,
    max: nat,
    attempt: nat,
    smaller: nat,
    larger: nat,
)
    requires
        smaller <= larger,
    ensures
        backoff_delay(base, max, attempt, smaller) <= backoff_delay(base, max, attempt, larger),
{
}

/// The delay never shrinks from one attempt to a later one.
pub proof fn lemma_delay_is_monotonic(base: nat, max: nat, earlier: nat, later: nat, hint: nat)
    requires
        earlier <= later,
    ensures
        backoff_delay(base, max, earlier, hint) <= backoff_delay(base, max, later, hint),
{
    let low: nat = if earlier <= MAX_BACKOFF_SHIFT { earlier } else { MAX_BACKOFF_SHIFT as nat };
    let high: nat = if later <= MAX_BACKOFF_SHIFT { later } else { MAX_BACKOFF_SHIFT as nat };
    if low < high {
        power2::lemma_pow2_strictly_increases(low, high);
    }
    let small = power2::pow2(low);
    let large = power2::pow2(high);
    assert(base * small <= base * large) by (nonlinear_arith)
        requires
            small <= large,
    ;
}

/// A policy keeps what it was made with, and the first attempt waits for its base delay, within
/// the maximum.
pub proof fn lemma_policy_is_as_made()
    ensures
        forall|base_ms: u64, max_ms: u64, policy: RetryPolicy|
            #[trigger] call_ensures(RetryPolicy::new, (base_ms, max_ms), policy) ==> policy.base()
                == base_ms && policy.max() == max_ms,
        forall|policy: &RetryPolicy, hint: Option<u64>, ms: u64|
            #[trigger] call_ensures(RetryPolicy::delay_for_attempt, (policy, 0u32, hint), ms) ==> {
                &&& ms <= policy.max()
                &&& hint is None && policy.base() <= policy.max() ==> ms == policy.base()
                &&& hint matches Some(wanted) ==> wanted >= policy.base() && wanted
                    <= policy.max() ==> ms == wanted
            },
{
    power2::lemma2_to64();
    assert forall|policy: &RetryPolicy, hint: Option<u64>, ms: u64|
        #[trigger] call_ensures(RetryPolicy::delay_for_attempt, (policy, 0u32, hint), ms) implies ({
        &&& ms <= policy.max()
        &&& hint is None && policy.base() <= policy.max() ==> ms == policy.base()
        &&& hint matches Some(wanted) ==> wanted >= policy.base() && wanted <= policy.max()
            ==> ms == wanted
    }) by {
        let base = policy.base();
        let factor = power2::pow2(0);
        assert(base * factor == base) by (nonlinear_arith)
            requires
                factor == 1,
        ;
    }
}

} // verus!
