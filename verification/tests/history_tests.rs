use site_watch::history::{FetchRecord, HistoryStore};

fn rec(resource_id: i64, stamp: i64) -> FetchRecord {
    FetchRecord {
        resource_id,
        fetched_at_ms: stamp,
        fingerprint: format!("fp{}", stamp).into_bytes(),
        body: b"body".to_vec(),
    }
}

#[test]
fn empty_store_has_no_fingerprint() {
    let store = HistoryStore::new(5);
    assert!(store.latest_fingerprint(1).is_none());
}

#[test]
fn latest_fingerprint_is_most_recent() {
    let mut store = HistoryStore::new(5);
    store.record(rec(1, 10));
    store.record(rec(1, 20));
    assert_eq!(store.latest_fingerprint(1), Some(b"fp20".to_vec()));
}

#[test]
fn retention_keeps_exactly_k_most_recent() {
    // K + 3 insertions for one resource: exactly K remain, and they are
    // the K most recently inserted.
    let k = 5usize;
    let mut store = HistoryStore::new(k);
    for stamp in 1..=(k as i64 + 3) {
        store.record(rec(7, stamp));
    }
    assert_eq!(store.entries.len(), 1);
    let records = &store.entries[0].records;
    assert_eq!(records.len(), k);
    let stamps: Vec<i64> = records.iter().map(|r| r.fetched_at_ms).collect();
    assert_eq!(stamps, vec![4, 5, 6, 7, 8]);
}

#[test]
fn resources_do_not_share_histories() {
    let mut store = HistoryStore::new(2);
    store.record(rec(1, 10));
    store.record(rec(2, 20));
    store.record(rec(1, 30));
    store.record(rec(1, 40));
    assert_eq!(store.latest_fingerprint(1), Some(b"fp40".to_vec()));
    assert_eq!(store.latest_fingerprint(2), Some(b"fp20".to_vec()));
    // Resource 1 was pruned to two records; resource 2 still has its one.
    for entry in &store.entries {
        if entry.resource_id == 1 {
            assert_eq!(entry.records.len(), 2);
            assert_eq!(entry.records[0].fetched_at_ms, 30);
        } else {
            assert_eq!(entry.records.len(), 1);
        }
    }
}

#[test]
fn zero_retention_stores_nothing() {
    let mut store = HistoryStore::new(0);
    store.record(rec(1, 10));
    assert!(store.latest_fingerprint(1).is_none());
}
