use site_watch::canonical::clean_content_for_comparison;
use site_watch::fingerprint::{fingerprint, is_changed};

#[test]
fn clock_times_are_stripped() {
    let out = clean_content_for_comparison(b"News at 12:34:56 today");
    assert_eq!(out, b"News at today".to_vec());
}

#[test]
fn short_times_and_dates_are_stripped() {
    let out = clean_content_for_comparison(b"at 9:30 on 2024-01-02 and 3/4/2024 end");
    assert_eq!(out, b"at on and end".to_vec());
}

#[test]
fn written_dates_are_stripped() {
    let out = clean_content_for_comparison(b"posted Mon, 3 Jan 2024 by staff");
    assert_eq!(out, b"posted by staff".to_vec());
}

#[test]
fn volatile_json_keys_are_stripped() {
    let out = clean_content_for_comparison(b"x viewcount: 123 y \"timestamp\": 456 z");
    assert_eq!(out, b"x y z".to_vec());
}

#[test]
fn script_and_comment_blocks_are_stripped() {
    let out = clean_content_for_comparison(b"a<script>var t=Date.now();</script>b<!-- note -->c");
    assert_eq!(out, b"abc".to_vec());
}

#[test]
fn iframe_and_ad_insertion_blocks_are_stripped() {
    let out = clean_content_for_comparison(b"a <iframe src=\"x\"></iframe>b<ins data=1>ad</ins> c");
    assert_eq!(out, b"a b c".to_vec());
}

#[test]
fn content_region_narrows_to_article() {
    let out = clean_content_for_comparison(b"header junk<article>core text</article>footer junk");
    assert_eq!(out, b"core text".to_vec());
}

#[test]
fn no_container_keeps_whole_cleaned_text() {
    let out = clean_content_for_comparison(b"plain  body   text");
    assert_eq!(out, b"plain body text".to_vec());
}

#[test]
fn pages_differing_only_in_timestamp_fingerprint_alike() {
    // Two fetches of the same page whose only difference is an embedded
    // clock time: canonicalization removes it, so no change is seen.
    let a = clean_content_for_comparison(b"<p>Hello world</p> updated 10:00:00");
    let b = clean_content_for_comparison(b"<p>Hello world</p> updated 23:59:59");
    assert_eq!(a, b);
    let fa = fingerprint(&a);
    let fb = fingerprint(&b);
    assert_eq!(fa, fb);
    assert!(!is_changed(Some(&fa), &fb));
}

#[test]
fn different_content_fingerprints_differently() {
    // Different primary-content text: different fingerprints, change seen,
    // even though both pages carry (removed) timestamps.
    let a = clean_content_for_comparison(b"<article>Hello</article> 10:00:00");
    let b = clean_content_for_comparison(b"<article>World</article> 10:00:00");
    assert_ne!(a, b);
    let fa = fingerprint(&a);
    let fb = fingerprint(&b);
    assert_ne!(fa, fb);
    assert!(is_changed(Some(&fa), &fb));
}
