use site_watch::text::{
    clean_xml_entities, find_sentence_boundary, find_word_boundary, normalize_whitespace,
    truncate_sentence, truncate_words,
};

#[test]
fn whitespace_runs_collapse_to_one_space() {
    let out = normalize_whitespace(b"a \t\n  b\r\nc");
    assert_eq!(out, b"a b c".to_vec());
}

#[test]
fn whitespace_normalization_keeps_single_spaces() {
    let out = normalize_whitespace(b"plain text");
    assert_eq!(out, b"plain text".to_vec());
}

#[test]
fn word_boundary_cuts_after_last_space() {
    // "hello world foo": the last break before the limit is the space at 5.
    assert_eq!(find_word_boundary(b"hello world foo", 11), 6);
}

#[test]
fn word_boundary_is_total_length_when_text_fits() {
    assert_eq!(find_word_boundary(b"short", 10), 5);
}

#[test]
fn word_boundary_falls_back_to_limit() {
    assert_eq!(find_word_boundary(b"abcdefghijklmno", 8), 8);
}

#[test]
fn sentence_boundary_cuts_after_period() {
    // "One. Two words here": the period at 3 is the last sentence break
    // before the limit.
    assert_eq!(find_sentence_boundary(b"One. Two words here", 10), 4);
}

#[test]
fn sentence_boundary_falls_back_to_word_boundary() {
    // No sentence-ending byte before the limit, so the space at 3 wins.
    assert_eq!(find_sentence_boundary(b"abc defghijklm nop", 10), 4);
}

#[test]
fn truncate_words_appends_ellipsis() {
    assert_eq!(truncate_words(b"abc def ghi", 7), b"abc ...".to_vec());
}

#[test]
fn truncate_words_is_identity_within_limit() {
    assert_eq!(truncate_words(b"abc def", 7), b"abc def".to_vec());
}

#[test]
fn truncated_portion_never_exceeds_limit_plus_ellipsis() {
    // The truncation law on concrete values: limit plus the three dots.
    for max in 0..20usize {
        let out = truncate_words(b"aaaaaaaaaaaaaaaaaaaaaaaaaaaaa bbbb", max);
        assert!(out.len() <= max + 3);
        let out2 = truncate_sentence(b"cccccccccccccccccccccccccccc. dddd", max);
        assert!(out2.len() <= max + 3);
    }
}

#[test]
fn entities_decode_in_order() {
    let out = clean_xml_entities(b"a&amp;b&lt;c&gt;d&quot;e&#39;f&nbsp;g");
    assert_eq!(out, b"a&b<c>d\"e'f g".to_vec());
}

#[test]
fn dash_and_quote_entities_decode() {
    let out = clean_xml_entities(b"x&ndash;y&mdash;z&rsquo;w&ldquo;v&rdquo;u");
    assert_eq!(out, b"x-y-z'w\"v\"u".to_vec());
}
