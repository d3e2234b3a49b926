//! Per-resource adaptive scheduling: when is a resource due, and when is
//! its next check after an outcome.

use crate::bytes::{ascii_of, bytes_eq, lit};
use vstd::prelude::*;

verus! {

/// Largest polling interval the scheduler accepts, in seconds.
pub const MAX_INTERVAL_SECS: i64 = 1_000_000_000;

/// Largest timestamp the scheduler accepts, in milliseconds.
pub const MAX_TIME_MS: i64 = 4_000_000_000_000_000;

/// Largest jitter bound the scheduler accepts, in milliseconds.
pub const MAX_JITTER_MS: i64 = 2_000_000_000;

/// A resource's re-check policy.
#[derive(Clone, Copy, Debug, PartialEq, Eq, Structural)]
pub enum Policy {
    /// Fixed interval plus a uniformly random jitter; ignores the outcome.
    Jittered,
    /// Fixed interval on success, exponentially growing delay on failure.
    Backoff,
    /// Fixed interval, ignoring the outcome entirely.
    Fixed,
}

/// The policy a configuration word selects: `random` and `exponential`
/// name the jittered and backoff policies; any other word (including the
/// empty one) falls back to the fixed policy.
pub open spec fn spec_parse_policy(style: Seq<u8>) -> Policy {
    if style == ascii_of("random"@) {
        Policy::Jittered
    } else if style == ascii_of("exponential"@) {
        Policy::Backoff
    } else {
        Policy::Fixed
    }
}

/// Parse a configuration word into a policy; unknown words mean `Fixed`.
pub fn parse_policy(style: &[u8]) -> (p: Policy)
    ensures
        p == spec_parse_policy(style@),
{
    proof {
        reveal_strlit("random");
        reveal_strlit("exponential");
    }
    if bytes_eq(style, lit("random").as_slice()) {
        Policy::Jittered
    } else if bytes_eq(style, lit("exponential").as_slice()) {
        Policy::Backoff
    } else {
        Policy::Fixed
    }
}

/// In-memory scheduling state of one resource.
#[derive(Clone, Copy, Debug, PartialEq, Eq, Structural)]
pub struct RuntimeState {
    /// When the resource is next due, in milliseconds.
    pub next_due_at_ms: i64,
    /// How many consecutive failures the backoff policy has seen.
    pub backoff_count: u32,
}

/// A resource is due when it has no runtime state yet, or the current time
/// has reached its next-due time.
pub open spec fn spec_is_due(now_ms: int, state: Option<RuntimeState>) -> bool {
    match state {
        None => true,
        Some(st) => now_ms >= st.next_due_at_ms,
    }
}

/// Decide whether a resource is due at `now_ms`.
pub fn is_due(now_ms: i64, state: Option<&RuntimeState>) -> (r: bool)
    ensures
        r == spec_is_due(
            now_ms as int,
            match state {
                Some(st) => Some(*st),
                None => None,
            },
        ),
{
    match state {
        None => true,
        Some(st) => now_ms >= st.next_due_at_ms,
    }
}

/// Two to the power `n`.
pub open spec fn spec_pow2(n: nat) -> int
    decreases n,
{
    if n == 0 {
        1
    } else {
        2 * spec_pow2((n - 1) as nat)
    }
}

/// The exponent the backoff policy uses: the failure count, capped at 10
/// so the computed delay stays bounded.
pub open spec fn spec_backoff_exp(n: nat) -> nat {
    if n < 10 {
        n
    } else {
        10
    }
}

/// The delay factor after `n` consecutive failures: `2 ^ min(n, 10)`.
pub open spec fn spec_backoff_factor(n: nat) -> int {
    spec_pow2(spec_backoff_exp(n))
}

/// Powers of two are positive and grow monotonically.
pub proof fn lemma_pow2_le(a: nat, b: nat)
    requires
        a <= b,
    ensures
        1 <= spec_pow2(a) <= spec_pow2(b),
    decreases b,
{
    if a < b {
        lemma_pow2_le(a, (b - 1) as nat);
    } else if a > 0 {
        lemma_pow2_le((a - 1) as nat, (b - 1) as nat);
    }
}

/// Compute `2 ^ min(n, 10)`.
pub fn pow2_capped(n: u32) -> (r: i64)
    ensures
        r == spec_backoff_factor(n as nat),
        1 <= r <= 1024,
{
    let e: u32 = if n < 10 {
        n
    } else {
        10
    };
    let mut r: i64 = 1;
    let mut i: u32 = 0;
    proof {
        assert(spec_pow2(9) == 512 && spec_pow2(10) == 1024) by {
            reveal_with_fuel(spec_pow2, 11);
        }
    }
    while i < e
        invariant
            0 <= i <= e <= 10,
            r == spec_pow2(i as nat),
            spec_pow2(9) == 512,
        decreases e - i,
    {
        proof {
            lemma_pow2_le(i as nat, 9);
        }
        r = r * 2;
        i += 1;
    }
    proof {
        assert(spec_pow2(10) == 1024) by {
            reveal_with_fuel(spec_pow2, 11);
        }
        lemma_pow2_le(e as nat, 10);
    }
    r
}

/// The next-due time an outcome produces, in milliseconds. The jittered
/// policy adds its random jitter to the interval; the backoff policy
/// multiplies the interval by the capped power of two of the failure count
/// it is about to reach; the fixed policy adds the interval alone.
pub open spec fn spec_next_due_ms(
    policy: Policy,
    interval_secs: int,
    fetched_at_ms: int,
    success: bool,
    prev_count: nat,
    jitter_ms: int,
) -> int {
    match policy {
        Policy::Jittered => fetched_at_ms + interval_secs * 1000 + jitter_ms,
        Policy::Backoff => if success {
            fetched_at_ms + interval_secs * 1000
        } else {
            fetched_at_ms + interval_secs * spec_backoff_factor(prev_count + 1) * 1000
        },
        Policy::Fixed => fetched_at_ms + interval_secs * 1000,
    }
}

/// The failure count an outcome produces: the backoff policy resets it on
/// success and increments it on failure; the other policies keep it.
pub open spec fn spec_backoff_after(policy: Policy, success: bool, prev_count: nat) -> nat {
    match policy {
        Policy::Backoff => if success {
            0
        } else {
            prev_count + 1
        },
        _ => prev_count,
    }
}

/// Compute a resource's new runtime state from this check's outcome, with
/// the jitter already drawn (zero for the non-jittered policies).
pub fn compute_next_due(
    policy: Policy,
    interval_secs: i64,
    fetched_at_ms: i64,
    success: bool,
    prev_count: u32,
    jitter_ms: i64,
) -> (st: RuntimeState)
    requires
        0 <= interval_secs <= MAX_INTERVAL_SECS,
        0 <= fetched_at_ms <= MAX_TIME_MS,
        0 <= jitter_ms <= MAX_JITTER_MS,
        prev_count < u32::MAX,
    ensures
        st.next_due_at_ms == spec_next_due_ms(
            policy,
            interval_secs as int,
            fetched_at_ms as int,
            success,
            prev_count as nat,
            jitter_ms as int,
        ),
        st.backoff_count == spec_backoff_after(policy, success, prev_count as nat),
{
    match policy {
        Policy::Jittered => RuntimeState {
            next_due_at_ms: fetched_at_ms + interval_secs * 1000 + jitter_ms,
            backoff_count: prev_count,
        },
        Policy::Backoff => {
            if success {
                RuntimeState {
                    next_due_at_ms: fetched_at_ms + interval_secs * 1000,
                    backoff_count: 0,
                }
            } else {
                let factor = pow2_capped(prev_count + 1);
                proof {
                    assert(interval_secs * factor <= 1_024_000_000_000) by (nonlinear_arith)
                        requires
                            0 <= interval_secs <= 1_000_000_000,
                            1 <= factor <= 1024,
                    ;
                    assert(interval_secs * factor >= 0) by (nonlinear_arith)
                        requires
                            0 <= interval_secs,
                            1 <= factor,
                    ;
                }
                RuntimeState {
                    next_due_at_ms: fetched_at_ms + interval_secs * factor * 1000,
                    backoff_count: prev_count + 1,
                }
            }
        },
        Policy::Fixed => RuntimeState {
            next_due_at_ms: fetched_at_ms + interval_secs * 1000,
            backoff_count: prev_count,
        },
    }
}

/// Relies on rand's `thread_rng` and `Rng::gen_range` over `0..n`: a value
/// drawn uniformly at random, strictly below `n`.
#[verifier::external_body]
pub(crate) fn random_below(n: u64) -> (r: u64)
    requires
        n > 0,
    ensures
        r < n,
{
    rand::Rng::gen_range(&mut rand::thread_rng(), 0..n)
}

/// Plan a resource's next check after an outcome, drawing the jitter for
/// the jittered policy. For every policy the new next-due time is exactly
/// what `spec_next_due_ms` prescribes; for the jittered policy the drawn
/// jitter lies below `jitter_max_ms`, so the new delay always lies in
/// `[interval, interval + jitter_max)`.
pub fn plan_next_check(
    policy: Policy,
    interval_secs: i64,
    fetched_at_ms: i64,
    success: bool,
    prev_count: u32,
    jitter_max_ms: i64,
) -> (st: RuntimeState)
    requires
        0 <= interval_secs <= MAX_INTERVAL_SECS,
        0 <= fetched_at_ms <= MAX_TIME_MS,
        1 <= jitter_max_ms <= MAX_JITTER_MS,
        prev_count < u32::MAX,
    ensures
        st.backoff_count == spec_backoff_after(policy, success, prev_count as nat),
        exists|j: int|
            0 <= j < jitter_max_ms && st.next_due_at_ms == spec_next_due_ms(
                policy,
                interval_secs as int,
                fetched_at_ms as int,
                success,
                prev_count as nat,
                j,
            ),
        policy == Policy::Jittered ==> fetched_at_ms + interval_secs * 1000 <= st.next_due_at_ms
            < fetched_at_ms + interval_secs * 1000 + jitter_max_ms,
        policy != Policy::Jittered ==> st.next_due_at_ms == spec_next_due_ms(
            policy,
            interval_secs as int,
            fetched_at_ms as int,
            success,
            prev_count as nat,
            0,
        ),
{
    let jitter_ms: i64 = match policy {
        Policy::Jittered => random_below(jitter_max_ms as u64) as i64,
        _ => 0,
    };
    let st = compute_next_due(policy, interval_secs, fetched_at_ms, success, prev_count, jitter_ms);
    proof {
        assert(0 <= jitter_ms < jitter_max_ms || policy != Policy::Jittered);
        assert(st.next_due_at_ms == spec_next_due_ms(
            policy,
            interval_secs as int,
            fetched_at_ms as int,
            success,
            prev_count as nat,
            jitter_ms as int,
        ));
    }
    st
}

/// The fixed policy spaces consecutive checks by exactly the interval:
/// whatever the outcome and failure count, the next-due time it computes
/// is the fetch time plus `interval` seconds.
pub proof fn lemma_fixed_policy_spacing(
    interval_secs: int,
    fetched_at_ms: int,
    success: bool,
    prev_count: nat,
    jitter_ms: int,
)
    ensures
        spec_next_due_ms(Policy::Fixed, interval_secs, fetched_at_ms, success, prev_count, jitter_ms)
            - fetched_at_ms == interval_secs * 1000,
{
}

/// Next-due times never move backwards: a check is dispatched only once
/// its resource's next-due time has passed, and every policy then plans
/// the following check at or after the fetch time, so consecutive
/// next-due times for one resource are non-decreasing.
pub proof fn lemma_next_due_monotone(
    policy: Policy,
    interval_secs: int,
    fetched_at_ms: int,
    success: bool,
    prev_count: nat,
    jitter_ms: int,
    prev_next_due_ms: int,
)
    requires
        fetched_at_ms >= prev_next_due_ms,
        interval_secs >= 0,
        jitter_ms >= 0,
    ensures
        spec_next_due_ms(policy, interval_secs, fetched_at_ms, success, prev_count, jitter_ms)
            >= prev_next_due_ms,
{
    lemma_pow2_le(0, spec_backoff_exp(prev_count + 1));
    let factor = spec_backoff_factor(prev_count + 1);
    assert(interval_secs * factor >= 0) by (nonlinear_arith)
        requires
            interval_secs >= 0,
            factor >= 1,
    ;
    assert(interval_secs * 1000 >= 0) by (nonlinear_arith)
        requires
            interval_secs >= 0,
    ;
    assert(interval_secs * factor * 1000 >= 0) by (nonlinear_arith)
        requires
            interval_secs * factor >= 0,
    ;
}

/// The failure count after `n` consecutive failures of the backoff policy,
/// starting from a fresh state.
pub open spec fn spec_count_after_failures(n: nat) -> nat
    decreases n,
{
    if n == 0 {
        0
    } else {
        spec_backoff_after(Policy::Backoff, false, spec_count_after_failures((n - 1) as nat))
    }
}

/// Under the backoff policy, a run of `n` consecutive failures drives the
/// failure count to exactly `n`, and the `n`-th failure delays the next
/// check by `interval * 2 ^ min(n, 10)`; one failure doubles the delay
/// once, and a success after any run of failures resets the count and the
/// delay to the plain interval.
pub proof fn lemma_backoff_progression(
    n: nat,
    interval_secs: int,
    fetched_at_ms: int,
    jitter_ms: int,
)
    requires
        n >= 1,
    ensures
        spec_count_after_failures(n) == n,
        spec_next_due_ms(
            Policy::Backoff,
            interval_secs,
            fetched_at_ms,
            false,
            spec_count_after_failures((n - 1) as nat),
            jitter_ms,
        ) - fetched_at_ms == interval_secs * spec_backoff_factor(n) * 1000,
        spec_next_due_ms(
            Policy::Backoff,
            interval_secs,
            fetched_at_ms,
            false,
            0,
            jitter_ms,
        ) - fetched_at_ms == interval_secs * 2 * 1000,
        spec_backoff_after(Policy::Backoff, true, n) == 0,
        spec_next_due_ms(Policy::Backoff, interval_secs, fetched_at_ms, true, n, jitter_ms)
            - fetched_at_ms == interval_secs * 1000,
    decreases n,
{
    if n > 1 {
        lemma_backoff_progression((n - 1) as nat, interval_secs, fetched_at_ms, jitter_ms);
    } else {
        assert(spec_count_after_failures(0) == 0);
        assert(spec_count_after_failures(1) == 1);
    }
    assert(spec_backoff_factor(1) == 2) by {
        reveal_with_fuel(spec_pow2, 2);
    }
}

} // verus!
