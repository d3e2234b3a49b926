//! The fetch/change-detection pipeline: what one completed retrieval means
//! for storage, notification and scheduling.

use crate::bytes::slice_range_vec;
use crate::canonical::{clean_content_for_comparison, spec_canonical_text};
use crate::fingerprint::{fingerprint, is_changed, spec_is_changed, spec_sha256_hex};
use crate::history::FetchRecord;
use crate::preview::{extract_formatted_preview, spec_formatted_preview};
use vstd::prelude::*;

verus! {

/// The classified outcome of one bounded retrieval.
pub enum FetchOutcome {
    /// The resource was retrieved and decoded; the raw body follows.
    Success(Vec<u8>),
    /// The retrieval failed; the reason is kept for the caller's log.
    Failure(Vec<u8>),
}

/// A change notification, built only when a fetch's fingerprint differs
/// from the previous one for the same resource.
pub struct ChangeEvent {
    pub resource_id: i64,
    pub url: String,
    pub fetched_at_ms: i64,
    pub fingerprint: Vec<u8>,
    pub preview: Vec<u8>,
    pub has_full_content: bool,
}

/// Everything one completed check implies: whether it succeeded, the
/// record to store, whether the content changed, and the notification to
/// publish if it did.
pub struct CheckEvaluation {
    pub success: bool,
    pub record: Option<FetchRecord>,
    pub changed: bool,
    pub event: Option<ChangeEvent>,
}

/// Evaluate one completed retrieval. On success the raw body is
/// canonicalized and fingerprinted, the change decision compares the new
/// fingerprint with the most recent stored one (no prior fingerprint
/// counts as changed), a record is always produced, and a notification is
/// produced exactly when the content changed. On failure nothing is
/// stored or published.
pub fn evaluate_fetch(
    resource_id: i64,
    url: &str,
    fetched_at_ms: i64,
    outcome: FetchOutcome,
    last_fingerprint: Option<&Vec<u8>>,
    preview_max: usize,
) -> (r: CheckEvaluation)
    ensures
        match outcome {
            FetchOutcome::Success(body) => {
                &&& r.success
                &&& r.changed == spec_is_changed(
                    match last_fingerprint {
                        Some(h) => Some(h@),
                        None => None,
                    },
                    spec_sha256_hex(spec_canonical_text(body@)),
                )
                &&& match r.record {
                    Some(rec) => {
                        &&& rec.resource_id == resource_id
                        &&& rec.fetched_at_ms == fetched_at_ms
                        &&& rec.fingerprint@ == spec_sha256_hex(spec_canonical_text(body@))
                        &&& rec.body@ == body@
                    },
                    None => false,
                }
                &&& match r.event {
                    Some(ev) => {
                        &&& r.changed
                        &&& ev.resource_id == resource_id
                        &&& ev.url@ == url@
                        &&& ev.fetched_at_ms == fetched_at_ms
                        &&& ev.fingerprint@ == spec_sha256_hex(spec_canonical_text(body@))
                        &&& ev.preview@ == spec_formatted_preview(body@, preview_max as int)
                        &&& ev.preview@.len() > 0
                        &&& ev.has_full_content
                    },
                    None => !r.changed,
                }
            },
            FetchOutcome::Failure(_) => {
                &&& !r.success
                &&& r.record is None
                &&& !r.changed
                &&& r.event is None
            },
        },
{
    match outcome {
        FetchOutcome::Success(body) => {
            let canonical = clean_content_for_comparison(body.as_slice());
            let fp = fingerprint(canonical.as_slice());
            let changed = is_changed(last_fingerprint, &fp);
            let event = if changed {
                let preview = extract_formatted_preview(body.as_slice(), preview_max);
                let ev_fp = slice_range_vec(fp.as_slice(), 0, fp.len());
                proof {
                    assert(ev_fp@ =~= fp@);
                }
                Some(
                    ChangeEvent {
                        resource_id,
                        url: url.to_owned(),
                        fetched_at_ms,
                        fingerprint: ev_fp,
                        preview,
                        has_full_content: true,
                    },
                )
            } else {
                None
            };
            let record = FetchRecord { resource_id, fetched_at_ms, fingerprint: fp, body };
            CheckEvaluation { success: true, record: Some(record), changed, event }
        },
        FetchOutcome::Failure(_) => CheckEvaluation {
            success: false,
            record: None,
            changed: false,
            event: None,
        },
    }
}

/// Two fetches with the same canonical text always fingerprint alike, so
/// the second one is never reported as a change: stripping volatile
/// substrings before hashing is exactly what makes a page that differs
/// only in such noise count as unchanged.
pub proof fn lemma_same_canonical_text_no_change(a: Seq<u8>, b: Seq<u8>)
    requires
        spec_canonical_text(a) == spec_canonical_text(b),
    ensures
        spec_sha256_hex(spec_canonical_text(a)) == spec_sha256_hex(spec_canonical_text(b)),
        !spec_is_changed(
            Some(spec_sha256_hex(spec_canonical_text(a))),
            spec_sha256_hex(spec_canonical_text(b)),
        ),
{
}

/// Whenever two fetches fingerprint differently, the second one is
/// reported as a change; together with a first fetch always counting as
/// changed, the change decision is exactly fingerprint inequality.
pub proof fn lemma_different_fingerprint_changes(last: Seq<u8>, new_fp: Seq<u8>)
    ensures
        spec_is_changed(Some(last), new_fp) == (last != new_fp),
        spec_is_changed(None, new_fp),
{
}

} // verus!
