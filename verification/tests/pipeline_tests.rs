use site_watch::history::HistoryStore;
use site_watch::pipeline::{evaluate_fetch, FetchOutcome};
use site_watch::schedule::{compute_next_due, Policy};

#[test]
fn failure_stores_and_publishes_nothing() {
    let r = evaluate_fetch(
        1,
        "http://example.test",
        1_000,
        FetchOutcome::Failure(b"timeout".to_vec()),
        None,
        400,
    );
    assert!(!r.success);
    assert!(r.record.is_none());
    assert!(!r.changed);
    assert!(r.event.is_none());
}

#[test]
fn first_fetch_counts_as_changed() {
    let r = evaluate_fetch(
        1,
        "http://example.test",
        1_000,
        FetchOutcome::Success(b"<p>hello</p>".to_vec()),
        None,
        400,
    );
    assert!(r.success);
    assert!(r.changed);
    let ev = r.event.expect("a change event");
    assert_eq!(ev.resource_id, 1);
    assert_eq!(ev.url, "http://example.test");
    assert_eq!(ev.fetched_at_ms, 1_000);
    assert_eq!(ev.fingerprint.len(), 64);
    assert!(!ev.preview.is_empty());
    assert!(ev.has_full_content);
    let rec = r.record.expect("a record");
    assert_eq!(rec.fingerprint, ev.fingerprint);
    assert_eq!(rec.body, b"<p>hello</p>".to_vec());
}

#[test]
fn fixed_policy_identical_content_one_event_two_records() {
    // A resource with the fixed policy and a 1 s interval, fetched twice
    // 1.5 s apart with identically-canonicalizing bodies: one change
    // event (the first fetch), two stored records, checks spaced by
    // exactly the interval.
    let mut store = HistoryStore::new(5);

    let body1 = b"<article>Same story</article> at 10:00:00".to_vec();
    let r1 = evaluate_fetch(3, "http://example.test", 1_000, FetchOutcome::Success(body1), None, 400);
    assert!(r1.changed);
    assert!(r1.event.is_some());
    store.record(r1.record.unwrap());
    let s1 = compute_next_due(Policy::Fixed, 1, 1_000, r1.success, 0, 0);
    assert_eq!(s1.next_due_at_ms, 2_000);

    let last = store.latest_fingerprint(3);
    let body2 = b"<article>Same story</article> at 10:00:01".to_vec();
    let r2 = evaluate_fetch(
        3,
        "http://example.test",
        2_500,
        FetchOutcome::Success(body2),
        last.as_ref(),
        400,
    );
    assert!(!r2.changed);
    assert!(r2.event.is_none());
    store.record(r2.record.unwrap());
    let s2 = compute_next_due(Policy::Fixed, 1, 2_500, r2.success, 0, 0);
    assert_eq!(s2.next_due_at_ms, 3_500);

    assert_eq!(store.entries.len(), 1);
    assert_eq!(store.entries[0].records.len(), 2);
}

#[test]
fn changed_content_produces_a_second_event() {
    let mut store = HistoryStore::new(5);
    let r1 = evaluate_fetch(
        4,
        "http://example.test",
        1_000,
        FetchOutcome::Success(b"<article>Old</article>".to_vec()),
        None,
        400,
    );
    store.record(r1.record.unwrap());
    let last = store.latest_fingerprint(4);
    let r2 = evaluate_fetch(
        4,
        "http://example.test",
        2_000,
        FetchOutcome::Success(b"<article>New</article>".to_vec()),
        last.as_ref(),
        400,
    );
    assert!(r2.changed);
    assert!(r2.event.is_some());
}

#[test]
fn backoff_run_under_alternating_outcomes() {
    // Failure, failure, success under the backoff policy with a 10 s
    // interval: delays of 20 s, 40 s, then back to the plain 10 s.
    let r_fail = evaluate_fetch(
        5,
        "http://example.test",
        0,
        FetchOutcome::Failure(b"connect".to_vec()),
        None,
        400,
    );
    let s1 = compute_next_due(Policy::Backoff, 10, 0, r_fail.success, 0, 0);
    assert_eq!(s1.next_due_at_ms, 20_000);
    let s2 = compute_next_due(Policy::Backoff, 10, 20_000, false, s1.backoff_count, 0);
    assert_eq!(s2.next_due_at_ms - 20_000, 40_000);
    let s3 = compute_next_due(Policy::Backoff, 10, 60_000, true, s2.backoff_count, 0);
    assert_eq!(s3.next_due_at_ms - 60_000, 10_000);
    assert_eq!(s3.backoff_count, 0);
}
