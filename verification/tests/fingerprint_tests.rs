use site_watch::fingerprint::{fingerprint, is_changed};

#[test]
fn digest_matches_known_value_for_empty_input() {
    let fp = fingerprint(b"");
    assert_eq!(
        fp,
        b"e3b0c44298fc1c149afbf4c8996fb92427ae41e4649b934ca495991b7852b855".to_vec()
    );
}

#[test]
fn digest_matches_known_value() {
    let fp = fingerprint(b"abc");
    assert_eq!(
        fp,
        b"ba7816bf8f01cfea414140de5dae2223b00361a396177a9cb410ff61f20015ad".to_vec()
    );
}

#[test]
fn digest_is_sixty_four_hex_bytes() {
    let fp = fingerprint(b"anything at all");
    assert_eq!(fp.len(), 64);
    assert!(fp.iter().all(|b| b.is_ascii_hexdigit()));
}

#[test]
fn first_fetch_always_counts_as_changed() {
    let fp = fingerprint(b"x");
    assert!(is_changed(None, &fp));
}

#[test]
fn same_fingerprint_is_no_change() {
    let a = fingerprint(b"same");
    let b = fingerprint(b"same");
    assert!(!is_changed(Some(&a), &b));
}

#[test]
fn different_fingerprint_is_a_change() {
    let a = fingerprint(b"one");
    let b = fingerprint(b"two");
    assert!(is_changed(Some(&a), &b));
}
