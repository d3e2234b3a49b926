//! Append-only per-resource fetch history with bounded retention.

use crate::bytes::slice_range_vec;
use vstd::prelude::*;

verus! {

/// One recorded fetch of a resource.
pub struct FetchRecord {
    pub resource_id: i64,
    pub fetched_at_ms: i64,
    pub fingerprint: Vec<u8>,
    pub body: Vec<u8>,
}

/// The stored records of one resource, in insertion order.
pub struct ResourceHistory {
    pub resource_id: i64,
    pub records: Vec<FetchRecord>,
}

/// The per-resource fetch log. After every insertion the resource's
/// records are pruned down to the `retain` most recent.
pub struct HistoryStore {
    pub entries: Vec<ResourceHistory>,
    pub retain: usize,
}

/// Index of the first entry for `id` at or after position `k`.
pub open spec fn spec_index_of(entries: Seq<ResourceHistory>, id: int, k: int) -> Option<int>
    decreases entries.len() - k,
{
    if k < 0 || k >= entries.len() {
        None
    } else if entries[k].resource_id == id {
        Some(k)
    } else {
        spec_index_of(entries, id, k + 1)
    }
}

/// A found entry index lies in range and carries the id searched for.
pub proof fn lemma_index_of_found(entries: Seq<ResourceHistory>, id: int, k: int, i: int)
    requires
        spec_index_of(entries, id, k) == Some(i),
    ensures
        k <= i < entries.len(),
        entries[i].resource_id == id,
    decreases entries.len() - k,
{
    if k < 0 || k >= entries.len() {
    } else if entries[k].resource_id == id {
    } else {
        lemma_index_of_found(entries, id, k + 1, i);
    }
}

/// Entry lookup only depends on the ids, not on the records.
pub proof fn lemma_index_of_same_ids(
    a: Seq<ResourceHistory>,
    b: Seq<ResourceHistory>,
    id: int,
    k: int,
)
    requires
        a.len() == b.len(),
        forall|m: int| 0 <= m < a.len() ==> a[m].resource_id == b[m].resource_id,
    ensures
        spec_index_of(a, id, k) == spec_index_of(b, id, k),
    decreases a.len() - k,
{
    if k < 0 || k >= a.len() {
    } else if a[k].resource_id == id {
    } else {
        lemma_index_of_same_ids(a, b, id, k + 1);
    }
}

/// Appending an entry leaves every earlier lookup alone; an id not present
/// before is found at the new position, and only if it is the new id.
pub proof fn lemma_index_of_push(entries: Seq<ResourceHistory>, e: ResourceHistory, id: int, k: int)
    requires
        0 <= k,
    ensures
        spec_index_of(entries.push(e), id, k) == match spec_index_of(entries, id, k) {
            Some(i) => Some(i),
            None => if e.resource_id == id && k <= entries.len() {
                Some(entries.len() as int)
            } else {
                None
            },
        },
    decreases entries.len() + 1 - k,
{
    if k >= entries.len() + 1 {
    } else if k == entries.len() {
        assert(entries.push(e).len() == entries.len() + 1);
        assert(entries.push(e)[k] == e);
        assert(spec_index_of(entries, id, k) is None);
        if e.resource_id == id {
            assert(spec_index_of(entries.push(e), id, k) == Some(k));
        } else {
            assert(spec_index_of(entries.push(e), id, k + 1) is None);
        }
    } else {
        assert(entries.push(e)[k] == entries[k]);
        lemma_index_of_push(entries, e, id, k + 1);
    }
}

/// The records stored for resource `id`.
pub open spec fn spec_records_for(entries: Seq<ResourceHistory>, id: int) -> Seq<FetchRecord> {
    match spec_index_of(entries, id, 0) {
        Some(i) => if 0 <= i < entries.len() {
            entries[i].records@
        } else {
            Seq::empty()
        },
        None => Seq::empty(),
    }
}

/// The `k` most recent of `s`: all of them when they fit.
pub open spec fn spec_prune(s: Seq<FetchRecord>, k: int) -> Seq<FetchRecord> {
    if s.len() <= k {
        s
    } else {
        s.skip(s.len() - k)
    }
}

impl HistoryStore {
    /// Entry ids are pairwise distinct.
    pub open spec fn wf(self) -> bool {
        forall|i: int, j: int|
            0 <= i < j < self.entries@.len() ==> self.entries@[i].resource_id
                != self.entries@[j].resource_id
    }

    /// The records currently stored for resource `id`.
    pub open spec fn spec_records(self, id: int) -> Seq<FetchRecord> {
        spec_records_for(self.entries@, id)
    }

    /// A fresh store that retains at most `retain` records per resource.
    pub fn new(retain: usize) -> (s: HistoryStore)
        ensures
            s.wf(),
            s.retain == retain,
            forall|id: int| s.spec_records(id) == Seq::<FetchRecord>::empty(),
    {
        HistoryStore { entries: Vec::new(), retain }
    }

    /// Append `rec` to its resource's history, then prune that history to
    /// the `retain` most recent records. No other resource's records are
    /// touched.
    #[verifier::loop_isolation(false)]
    pub fn record(&mut self, rec: FetchRecord)
        requires
            old(self).wf(),
        ensures
            final(self).wf(),
            final(self).retain == old(self).retain,
            final(self).spec_records(rec.resource_id as int) == spec_prune(
                old(self).spec_records(rec.resource_id as int).push(rec),
                old(self).retain as int,
            ),
            forall|id: int|
                id != rec.resource_id as int ==> final(self).spec_records(id) == old(
                    self,
                ).spec_records(id),
    {
        let ghost old_entries = self.entries@;
        let id = rec.resource_id;
        let retain = self.retain;
        let n = self.entries.len();
        let mut i: usize = 0;
        while i < n
            invariant
                self.entries@ == old_entries,
                old_entries == old(self).entries@,
                self.retain == retain,
                retain == old(self).retain,
                old(self).wf(),
                n == self.entries@.len(),
                0 <= i <= n,
                spec_index_of(self.entries@, id as int, 0) == spec_index_of(
                    self.entries@,
                    id as int,
                    i as int,
                ),
                forall|m: int| 0 <= m < i ==> self.entries@[m].resource_id != id,
            decreases n - i,
        {
            if self.entries[i].resource_id == id {
                proof {
                    assert(spec_index_of(self.entries@, id as int, i as int) == Some(i as int));
                }
                let ghost old_recs = self.entries@[i as int].records@;
                let e = &mut self.entries[i];
                e.records.push(rec);
                let ghost target = old_recs.push(rec);
                while e.records.len() > retain
                    invariant
                        e.records@.len() <= target.len(),
                        e.records@ =~= target.skip(target.len() - e.records@.len()),
                        e.records@.len() == target.len() || e.records@.len() >= retain,
                        e.resource_id == id,
                    decreases e.records@.len(),
                {
                    let ghost before = e.records@;
                    e.records.remove(0);
                    proof {
                        assert(e.records@ =~= before.skip(1));
                        assert(e.records@ =~= target.skip(target.len() - e.records@.len()));
                    }
                }
                let ghost efin = *e;
                proof {
                    assert(efin.records@ =~= spec_prune(target, retain as int));
                    assert(efin.resource_id == id);
                }
                proof {
                    let entries2 = self.entries@;
                    assert(entries2 == old_entries.update(i as int, efin));
                    assert(forall|m: int|
                        0 <= m < old_entries.len() ==> entries2[m].resource_id
                            == old_entries[m].resource_id);
                    assert forall|q: int|
                        spec_index_of(entries2, q, 0) == spec_index_of(old_entries, q, 0) by {
                        lemma_index_of_same_ids(entries2, old_entries, q, 0);
                    }
                    assert(spec_records_for(entries2, id as int) == spec_prune(
                        spec_records_for(old_entries, id as int).push(rec),
                        retain as int,
                    ));
                    assert forall|q: int| q != id as int implies spec_records_for(entries2, q)
                        == spec_records_for(old_entries, q) by {
                        if spec_index_of(old_entries, q, 0) is Some {
                            let m = spec_index_of(old_entries, q, 0)->Some_0;
                            lemma_index_of_found(old_entries, q, 0, m);
                            assert(entries2[m] == old_entries[m]);
                        }
                    }
                    assert forall|a: int, b: int|
                        0 <= a < b < entries2.len() implies entries2[a].resource_id
                        != entries2[b].resource_id by {
                        assert(old(self).entries@[a].resource_id != old(
                            self,
                        ).entries@[b].resource_id);
                    }
                    assert(self.retain == old(self).retain);
                    assert(self.spec_records(id as int) == spec_prune(
                        old(self).spec_records(id as int).push(rec),
                        old(self).retain as int,
                    ));
                    assert(forall|q: int|
                        q != id as int ==> self.spec_records(q) == old(self).spec_records(q));
                }
                return ;
            }
            i += 1;
        }
        // No entry for this resource yet: start one, already pruned.
        let mut recs: Vec<FetchRecord> = Vec::new();
        if retain > 0 {
            recs.push(rec);
        }
        let ghost fresh_recs = recs@;
        let entry = ResourceHistory { resource_id: id, records: recs };
        self.entries.push(entry);
        proof {
            let pushed = self.entries@[old_entries.len() as int];
            assert(self.entries@ == old_entries.push(pushed));
            assert(pushed.resource_id == id && pushed.records@ == fresh_recs);
            assert(spec_index_of(old_entries, id as int, 0) is None);
            assert forall|q: int| spec_index_of(self.entries@, q, 0) == match spec_index_of(
                old_entries,
                q,
                0,
            ) {
                Some(m) => Some(m),
                None => if q == id as int {
                    Some(old_entries.len() as int)
                } else {
                    None
                },
            } by {
                lemma_index_of_push(old_entries, pushed, q, 0);
            }
            assert(spec_records_for(old_entries, id as int) == Seq::<FetchRecord>::empty());
            assert(fresh_recs =~= spec_prune(
                Seq::<FetchRecord>::empty().push(rec),
                retain as int,
            ));
            assert forall|q: int| q != id as int implies spec_records_for(self.entries@, q)
                == spec_records_for(old_entries, q) by {
                if spec_index_of(old_entries, q, 0) is Some {
                    let m = spec_index_of(old_entries, q, 0)->Some_0;
                    lemma_index_of_found(old_entries, q, 0, m);
                }
            }
        }
    }

    /// The fingerprint of the most recently stored record for
    /// `resource_id`, or `None` when nothing is stored for it.
    pub fn latest_fingerprint(&self, resource_id: i64) -> (r: Option<Vec<u8>>)
        ensures
            match r {
                Some(fp) => self.spec_records(resource_id as int).len() > 0 && fp@
                    == self.spec_records(resource_id as int).last().fingerprint@,
                None => self.spec_records(resource_id as int).len() == 0,
            },
    {
        let n = self.entries.len();
        let mut i: usize = 0;
        while i < n
            invariant
                n == self.entries@.len(),
                0 <= i <= n,
                spec_index_of(self.entries@, resource_id as int, 0) == spec_index_of(
                    self.entries@,
                    resource_id as int,
                    i as int,
                ),
            decreases n - i,
        {
            if self.entries[i].resource_id == resource_id {
                proof {
                    assert(spec_index_of(self.entries@, resource_id as int, i as int) == Some(
                        i as int,
                    ));
                }
                let recs = &self.entries[i].records;
                if recs.len() == 0 {
                    return None;
                }
                let last = &recs[recs.len() - 1];
                let fp = slice_range_vec(last.fingerprint.as_slice(), 0, last.fingerprint.len());
                proof {
                    assert(fp@ =~= last.fingerprint@);
                }
                return Some(fp);
            }
            i += 1;
        }
        None
    }
}

/// Pruning never removes the record just inserted: with any positive
/// retention, the newest record is still there, in last place.
pub proof fn lemma_prune_keeps_newest(s: Seq<FetchRecord>, rec: FetchRecord, k: int)
    requires
        k >= 1,
    ensures
        spec_prune(s.push(rec), k).len() >= 1,
        spec_prune(s.push(rec), k).last() == rec,
{
    let t = s.push(rec);
    if t.len() > k {
        assert(spec_prune(t, k) == t.skip(t.len() - k));
        assert(t.skip(t.len() - k).len() == k);
        assert(t.skip(t.len() - k).last() == t.last());
    }
}

/// `adds` inserted one by one into records `s`, pruning to `k` after each.
pub open spec fn spec_inserts(s: Seq<FetchRecord>, adds: Seq<FetchRecord>, k: int) -> Seq<
    FetchRecord,
>
    decreases adds.len(),
{
    if adds.len() == 0 {
        s
    } else {
        spec_inserts(spec_prune(s.push(adds[0]), k), adds.skip(1), k)
    }
}

/// Pruning after every insertion is the same as pruning once at the end:
/// for any starting history already within bounds, inserting a run of
/// records leaves exactly the `k` most recent of the combined run. In
/// particular, after inserting `k + 3` records into an empty history,
/// exactly the `k` most recently inserted remain.
pub proof fn lemma_inserts_prune(s: Seq<FetchRecord>, adds: Seq<FetchRecord>, k: int)
    requires
        0 <= k,
        s.len() <= k,
    ensures
        spec_inserts(s, adds, k) == spec_prune(s + adds, k),
    decreases adds.len(),
{
    if adds.len() == 0 {
        assert(s + adds =~= s);
    } else {
        let x = s.push(adds[0]);
        let t = adds.skip(1);
        let s1 = spec_prune(x, k);
        lemma_inserts_prune(s1, t, k);
        assert(x + t =~= s + adds);
        if x.len() <= k {
            assert(s1 + t =~= s + adds);
        } else {
            // `x` is one over the bound, so its pruning drops its head.
            assert(s1 =~= x.skip(1));
            if t.len() == 0 {
                assert(s1 + t =~= s1);
                assert(spec_prune(x + t, k) =~= x.skip(1));
            } else {
                assert((s1 + t).len() == k + t.len());
                assert(spec_prune(s1 + t, k) =~= (s1 + t).skip(t.len() as int));
                assert(spec_prune(x + t, k) =~= (x + t).skip(t.len() as int + 1));
                assert((s1 + t).skip(t.len() as int) =~= (x + t).skip(t.len() as int + 1));
            }
        }
    }
}

} // verus!
