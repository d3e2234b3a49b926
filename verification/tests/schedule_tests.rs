use site_watch::schedule::{
    compute_next_due, is_due, parse_policy, plan_next_check, pow2_capped, Policy, RuntimeState,
};

#[test]
fn policy_words_parse() {
    assert_eq!(parse_policy(b"random"), Policy::Jittered);
    assert_eq!(parse_policy(b"exponential"), Policy::Backoff);
    assert_eq!(parse_policy(b"none"), Policy::Fixed);
}

#[test]
fn unknown_policy_words_mean_fixed() {
    assert_eq!(parse_policy(b""), Policy::Fixed);
    assert_eq!(parse_policy(b"Random"), Policy::Fixed);
    assert_eq!(parse_policy(b"exponential "), Policy::Fixed);
}

#[test]
fn absent_state_is_due_now() {
    assert!(is_due(0, None));
    assert!(is_due(-5, None));
}

#[test]
fn state_is_due_once_time_reached() {
    let st = RuntimeState { next_due_at_ms: 100, backoff_count: 0 };
    assert!(!is_due(99, Some(&st)));
    assert!(is_due(100, Some(&st)));
    assert!(is_due(101, Some(&st)));
}

#[test]
fn fixed_policy_spaces_checks_by_interval_whatever_the_outcome() {
    // Repeated checks under the fixed policy: next-due is always the fetch
    // time plus the interval, success or not.
    let a = compute_next_due(Policy::Fixed, 60, 1_000, true, 5, 0);
    assert_eq!(a.next_due_at_ms, 1_000 + 60_000);
    assert_eq!(a.backoff_count, 5);
    let b = compute_next_due(Policy::Fixed, 60, 61_000, false, 5, 0);
    assert_eq!(b.next_due_at_ms, 61_000 + 60_000);
}

#[test]
fn one_backoff_failure_doubles_the_delay() {
    let st = compute_next_due(Policy::Backoff, 10, 0, false, 0, 0);
    assert_eq!(st.next_due_at_ms, 20_000);
    assert_eq!(st.backoff_count, 1);
}

#[test]
fn consecutive_backoff_failures_grow_exponentially_and_cap() {
    let mut count = 0u32;
    let mut expected: i64 = 1;
    for n in 1..=12u32 {
        let st = compute_next_due(Policy::Backoff, 10, 0, false, count, 0);
        count = st.backoff_count;
        assert_eq!(count, n);
        if n <= 10 {
            expected *= 2;
        }
        assert_eq!(st.next_due_at_ms, 10 * expected * 1000);
    }
    // The exponent is capped at 10, so the delay stays at 2^10 intervals.
    assert_eq!(expected, 1024);
}

#[test]
fn backoff_success_resets_count_and_delay() {
    let st = compute_next_due(Policy::Backoff, 10, 500, true, 7, 0);
    assert_eq!(st.next_due_at_ms, 500 + 10_000);
    assert_eq!(st.backoff_count, 0);
}

#[test]
fn backoff_alternation_gives_plain_doubled_plain() {
    // Failure, failure, success under a 10 s interval: delays of 20 s,
    // 40 s and back to 10 s.
    let s1 = compute_next_due(Policy::Backoff, 10, 0, false, 0, 0);
    assert_eq!(s1.next_due_at_ms, 20_000);
    let s2 = compute_next_due(Policy::Backoff, 10, 0, false, s1.backoff_count, 0);
    assert_eq!(s2.next_due_at_ms, 40_000);
    let s3 = compute_next_due(Policy::Backoff, 10, 0, true, s2.backoff_count, 0);
    assert_eq!(s3.next_due_at_ms, 10_000);
    assert_eq!(s3.backoff_count, 0);
}

#[test]
fn jittered_delay_lies_in_the_jitter_window() {
    for _ in 0..100 {
        let st = plan_next_check(Policy::Jittered, 1, 0, true, 0, 1500);
        assert!(st.next_due_at_ms >= 1000);
        assert!(st.next_due_at_ms < 1000 + 1500);
    }
}

#[test]
fn jitter_ignores_outcome() {
    let st = plan_next_check(Policy::Jittered, 1, 0, false, 3, 1500);
    assert!(st.next_due_at_ms >= 1000 && st.next_due_at_ms < 2500);
    assert_eq!(st.backoff_count, 3);
}

#[test]
fn powers_of_two_cap_at_ten() {
    assert_eq!(pow2_capped(0), 1);
    assert_eq!(pow2_capped(3), 8);
    assert_eq!(pow2_capped(10), 1024);
    assert_eq!(pow2_capped(11), 1024);
    assert_eq!(pow2_capped(100), 1024);
}
