//! When a failed model call is worth retrying, and how long to wait first.
//!
//! [`decide`] is a pure function from an attempt number and a failure to a
//! wait or a stop; the driver that sleeps and retries applies jitter on top
//! of the wait it returns.

use vstd::prelude::*;

use crate::duration::{Duration, max_nanos};
use crate::failure::{ProviderFailure, law_retry_classification};

verus! {

/// How many times to attempt a model call, and how long to wait between
/// attempts.
///
/// The default is 5 total attempts, exponential backoff starting at 500ms
/// and doubling, each delay capped at 10s. Use [`RetryPolicy::none`] to
/// disable retries entirely.
#[derive(Debug, Clone, Copy, PartialEq, Eq, Structural)]
pub struct RetryPolicy {
    max_attempts: u32,
    initial_backoff: Duration,
    backoff_cap: Duration,
}

impl RetryPolicy {
    /// The total number of attempts allowed.
    pub closed spec fn spec_max_attempts(self) -> u32 {
        self.max_attempts
    }

    /// The first backoff, in nanoseconds.
    pub closed spec fn spec_initial(self) -> nat {
        self.initial_backoff@
    }

    /// The cap on any backoff, in nanoseconds.
    pub closed spec fn spec_cap(self) -> nat {
        self.backoff_cap@
    }

    /// A custom schedule: up to `max_attempts` total attempts (at least 1),
    /// with exponential backoff starting at `initial_backoff` and doubling
    /// each attempt, capped at `backoff_cap`.
    pub fn new(max_attempts: u32, initial_backoff: Duration, backoff_cap: Duration) -> (p: Self)
        ensures
            p.spec_max_attempts() == if max_attempts >= 1 { max_attempts } else { 1 },
            p.spec_initial() == initial_backoff@,
            p.spec_cap() == backoff_cap@,
    {
        RetryPolicy {
            max_attempts: if max_attempts >= 1 { max_attempts } else { 1 },
            initial_backoff,
            backoff_cap,
        }
    }

    /// No retries: a single attempt only.
    pub fn none() -> (p: Self)
        ensures
            p.spec_max_attempts() == 1,
            p.spec_initial() == 0,
            p.spec_cap() == 0,
    {
        RetryPolicy {
            max_attempts: 1,
            initial_backoff: Duration::zero(),
            backoff_cap: Duration::zero(),
        }
    }

    /// The total number of attempts this policy allows, including the first.
    pub fn max_attempts(&self) -> (n: u32)
        ensures
            n == self.spec_max_attempts(),
            n >= 1,
    {
        proof {
            use_type_invariant(self);
        }
        self.max_attempts
    }

    #[verifier::type_invariant]
    closed spec fn at_least_one_attempt(self) -> bool {
        self.max_attempts >= 1
    }
}

impl Default for RetryPolicy {
    /// 5 attempts, backoff from 500ms doubling, capped at 10s.
    fn default() -> (p: Self)
        ensures
            p.spec_max_attempts() == 5,
            p.spec_initial() == 500_000_000,
            p.spec_cap() == 10_000_000_000,
    {
        Self::new(5, Duration::from_millis(500), Duration::from_secs(10))
    }
}

/// The outcome of [`decide`]: wait this long before the next attempt, or
/// stop and hand the failure back to the caller.
#[derive(Debug, Clone, Copy, PartialEq, Eq, Structural)]
pub enum RetryDecision {
    /// Wait this long, then try again.
    Wait(Duration),
    /// Stop retrying.
    Stop,
}

/// `2^n`.
pub open spec fn pow2(n: nat) -> nat
    decreases n,
{
    if n == 0 {
        1
    } else {
        2 * pow2((n - 1) as nat)
    }
}

/// The factor the first backoff is multiplied by after failed attempt
/// `attempt`: `2^(attempt - 1)`, so the wait doubles with every attempt.
pub open spec fn backoff_factor(attempt: u32) -> nat {
    let exponent: nat = if attempt >= 1 { (attempt - 1) as nat } else { 0 };
    pow2(exponent)
}

/// `nanos`, or the largest span when it is longer.
pub open spec fn saturated(nanos: nat) -> nat {
    if nanos <= max_nanos() {
        nanos
    } else {
        max_nanos()
    }
}

/// The exponential-backoff delay after failed attempt `attempt`, in
/// nanoseconds: the first backoff times [`backoff_factor`] (the largest
/// `Duration` when that is longer), capped at the policy's cap.
pub open spec fn backoff_nanos(policy: RetryPolicy, attempt: u32) -> nat {
    let uncapped = saturated(policy.spec_initial() * backoff_factor(attempt));
    if uncapped <= policy.spec_cap() { uncapped } else { policy.spec_cap() }
}

/// What [`decide`] returns: stop for a failure retrying cannot help or
/// once the last attempt failed; otherwise wait the backoff, or the
/// provider's own `Retry-After` if that is longer.
pub open spec fn decision(policy: RetryPolicy, attempt: u32, failure: ProviderFailure) -> Option<
    nat,
> {
    if !failure.spec_retryable() || attempt >= policy.spec_max_attempts() {
        None
    } else {
        let backoff = backoff_nanos(policy, attempt);
        match failure.spec_retry_after() {
            Some(after) => Some(if backoff >= after@ { backoff } else { after@ }),
            None => Some(backoff),
        }
    }
}

/// One doubling step of a saturating product.
proof fn lemma_double_saturated(x: nat)
    requires
        x < max_nanos(),
    ensures
        saturated(2 * x) == (if x + x <= max_nanos() { x + x } else { max_nanos() }),
{
}

/// Once a product reaches zero or the largest span, doubling further
/// changes nothing.
proof fn lemma_saturated_stays(init: nat, i: nat, e: nat)
    requires
        i <= e,
        saturated(init * pow2(i)) == 0 || saturated(init * pow2(i)) == max_nanos(),
    ensures
        saturated(init * pow2(e)) == saturated(init * pow2(i)),
{
    lemma_pow2_monotonic(i, e);
    lemma_pow2_monotonic(0, i);
    assert(init * pow2(i) <= init * pow2(e)) by (nonlinear_arith)
        requires
            pow2(i) <= pow2(e),
    ;
    if saturated(init * pow2(i)) == 0 {
        assert(init == 0) by (nonlinear_arith)
            requires
                init * pow2(i) == 0,
                pow2(i) >= 1,
        ;
        assert(init * pow2(e) == 0) by (nonlinear_arith)
            requires
                init == 0,
        ;
    }
}

/// The exponential-backoff delay after failed attempt `attempt`: the first
/// backoff doubled `attempt - 1` times, saturating at the largest span, then
/// capped.
pub fn exponential_backoff(policy: &RetryPolicy, attempt: u32) -> (d: Duration)
    ensures
        d@ == backoff_nanos(*policy, attempt),
{
    let exponent: u32 = if attempt >= 1 { attempt - 1 } else { 0 };
    let ghost init = policy.spec_initial();
    let mut product = policy.initial_backoff;
    let mut i: u32 = 0;
    let first = product.as_nanos();
    assert(pow2(0) == 1);
    assert(init * pow2(0) == init);
    assert(first == init);
    while i < exponent
        invariant
            i <= exponent,
            init == policy.spec_initial(),
            product@ == saturated(init * pow2(i as nat)),
        decreases exponent - i,
    {
        if product.is_zero() || product.as_nanos() == 18_446_744_073_709_551_615_999_999_999u128 {
            proof {
                lemma_saturated_stays(init, i as nat, exponent as nat);
            }
            i = exponent;
        } else {
            let ghost p = product@;
            proof {
                assert(p == init * pow2(i as nat));
                assert(init * pow2((i + 1) as nat) == 2 * (init * pow2(i as nat))) by (
                nonlinear_arith)
                    requires
                        pow2((i + 1) as nat) == 2 * pow2(i as nat),
                ;
                lemma_double_saturated(p);
            }
            product = product.saturating_add(product);
            i = i + 1;
        }
    }
    product.min(policy.backoff_cap)
}

/// Decide whether `attempt` (1-indexed, the attempt that just failed with
/// `failure`) should be retried under `policy`.
///
/// Pure: no sleeping, no randomness. A wait already folds in the failure's
/// `Retry-After` as a floor.
pub fn decide(policy: &RetryPolicy, attempt: u32, failure: &ProviderFailure) -> (r: RetryDecision)
    ensures
        match decision(*policy, attempt, *failure) {
            None => r == RetryDecision::Stop,
            Some(wait) => r matches RetryDecision::Wait(d) && d@ == wait,
        },
{
    if !failure.is_retryable() || attempt >= policy.max_attempts {
        return RetryDecision::Stop;
    }
    let backoff = exponential_backoff(policy, attempt);
    let computed = match failure.retry_after() {
        Some(retry_after) => backoff.max(retry_after),
        None => backoff,
    };
    RetryDecision::Wait(computed)
}

/// `2^n` never shrinks as `n` grows.
proof fn lemma_pow2_monotonic(a: nat, b: nat)
    requires
        a <= b,
    ensures
        pow2(a) <= pow2(b),
    decreases b,
{
    if a < b {
        lemma_pow2_monotonic(a, (b - 1) as nat);
    }
}

/// Backoff never shrinks from one attempt to the next: a later retry waits
/// at least as long as an earlier one.
pub proof fn law_backoff_never_shrinks(policy: RetryPolicy, earlier: u32, later: u32)
    requires
        earlier <= later,
    ensures
        backoff_nanos(policy, earlier) <= backoff_nanos(policy, later),
{
    let ea: nat = if earlier >= 1 { (earlier - 1) as nat } else { 0 };
    let eb: nat = if later >= 1 { (later - 1) as nat } else { 0 };
    lemma_pow2_monotonic(ea, eb);
    let init = policy.spec_initial();
    assert(init * backoff_factor(earlier) <= init * backoff_factor(later)) by (nonlinear_arith)
        requires
            backoff_factor(earlier) <= backoff_factor(later),
    ;
}

/// Until the cap or the largest span stops it, the backoff doubles with
/// every attempt.
pub proof fn law_backoff_doubles(policy: RetryPolicy, attempt: u32)
    requires
        1 <= attempt < u32::MAX,
        2 * (policy.spec_initial() * backoff_factor(attempt)) <= max_nanos(),
        2 * (policy.spec_initial() * backoff_factor(attempt)) <= policy.spec_cap(),
    ensures
        backoff_nanos(policy, (attempt + 1) as u32) == 2 * backoff_nanos(policy, attempt),
{
    let init = policy.spec_initial();
    assert(backoff_factor((attempt + 1) as u32) == 2 * backoff_factor(attempt));
    assert(init * backoff_factor((attempt + 1) as u32) == 2 * (init * backoff_factor(attempt)))
        by (nonlinear_arith)
        requires
            backoff_factor((attempt + 1) as u32) == 2 * backoff_factor(attempt),
    ;
}

/// A wait is never longer than the larger of the policy's cap and the
/// provider's own `Retry-After`.
pub proof fn law_wait_is_bounded(policy: RetryPolicy, attempt: u32, failure: ProviderFailure)
    requires
        decision(policy, attempt, failure) is Some,
    ensures
        ({
            let wait = decision(policy, attempt, failure)->0;
            match failure.spec_retry_after() {
                Some(after) => wait <= policy.spec_cap() || wait == after@,
                None => wait <= policy.spec_cap(),
            }
        }),
{
}

/// A policy never retries past its attempt budget: every attempt from the
/// last one on stops.
pub proof fn law_no_retry_past_budget(policy: RetryPolicy, attempt: u32, failure: ProviderFailure)
    requires
        attempt >= policy.spec_max_attempts(),
    ensures
        decision(policy, attempt, failure) is None,
{
}


/// A server error (any 5xx), a timeout, a rate limit or a transport
/// failure is retried while attempts remain: the decision is to wait, at
/// least the policy's backoff for that attempt.
pub proof fn law_transient_failures_are_retried(
    policy: RetryPolicy,
    attempt: u32,
    failure: ProviderFailure,
)
    requires
        attempt < policy.spec_max_attempts(),
        failure is Transport || (failure matches ProviderFailure::Status { status, .. } && (status
            == 408 || status == 429 || (500 <= status && status < 600))),
    ensures
        decision(policy, attempt, failure) matches Some(wait) && wait >= backoff_nanos(
            policy,
            attempt,
        ),
        failure.spec_retry_after() is None ==> decision(policy, attempt, failure) == Some(
            backoff_nanos(policy, attempt),
        ),
        failure.spec_retry_after() is None && attempt == 1 && policy.spec_initial()
            <= policy.spec_cap() && policy.spec_initial() <= max_nanos() ==> decision(
            policy,
            attempt,
            failure,
        ) == Some(
            policy.spec_initial(),
        ),
{
    law_retry_classification(failure, failure);
    assert(backoff_factor(1) == 1) by {
        reveal(pow2);
    }
    assert(policy.spec_initial() * backoff_factor(1) == policy.spec_initial());
}

} // verus!
