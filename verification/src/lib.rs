//! Verified core of a site-change watcher.
//!
//! The library detects meaningful changes in remotely fetched content:
//! it canonicalizes raw markup (stripping volatile substrings), fingerprints
//! the canonical text, extracts bounded human-readable previews, schedules
//! per-resource re-checks (fixed, jittered or exponential-backoff policies)
//! and retains a bounded per-resource fetch history.

pub mod bytes;
pub mod canonical;
pub mod fetcher;
pub mod fingerprint;
pub mod history;
pub mod pattern;
pub mod pipeline;
pub mod preview;
pub mod schedule;
pub mod script_clean;
pub mod text;
