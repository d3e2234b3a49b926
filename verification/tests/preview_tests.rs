use site_watch::preview::{
    classify_content, clean_html_content, extract_formatted_preview, extract_html_preview,
    extract_json_preview, extract_reddit_preview, extract_rss_preview, ContentKind,
};
use site_watch::script_clean::clean_script_content;

#[test]
fn classification_order_first_match_wins() {
    assert_eq!(classify_content(b"<?xml version=\"1.0\"?><rss/>"), ContentKind::Feed);
    assert_eq!(classify_content(b"see reddit.com for more"), ContentKind::Social);
    assert_eq!(classify_content(b"{\"a\": 1}"), ContentKind::Json);
    assert_eq!(classify_content(b"[1, 2, 3]"), ContentKind::Json);
    assert_eq!(classify_content(b"var x = 1; hello"), ContentKind::Script);
    assert_eq!(classify_content(b"<html><body>hi</body></html>"), ContentKind::Markup);
    // Feed markers outrank social markers.
    assert_eq!(classify_content(b"<rss/> reddit.com"), ContentKind::Feed);
}

#[test]
fn rss_preview_takes_title_and_description() {
    let xml = b"<?xml version=\"1.0\"?><rss><channel><title>Hello &amp; News</title>\
<description>Body text here</description></channel></rss>";
    let out = extract_rss_preview(xml, 400);
    assert_eq!(out, "\u{1F4F0} Hello & News\n\nBody text here".as_bytes().to_vec());
}

#[test]
fn rss_preview_prefers_content_over_description() {
    let xml = b"<rss><title>T</title><content>Full content</content>\
<description>Short desc</description></rss>";
    let out = extract_rss_preview(xml, 400);
    assert_eq!(out, "\u{1F4F0} T\n\nFull content".as_bytes().to_vec());
}

#[test]
fn rss_preview_falls_back_to_cdata() {
    let xml = b"<rss><title>T</title><![CDATA[<b>cdata body</b>]]></rss>";
    let out = extract_rss_preview(xml, 400);
    // Tag stripping replaces each tag with a space, and nothing trims the
    // cleaned CDATA text.
    assert_eq!(out, "\u{1F4F0} T\n\n cdata body ".as_bytes().to_vec());
}

#[test]
fn rss_preview_without_anything_reports_so() {
    let out = extract_rss_preview(b"<rss></rss>", 400);
    assert_eq!(
        out,
        b"RSS/XML content detected, but couldn't extract readable content.".to_vec()
    );
}

#[test]
fn json_preview_is_labeled_and_truncated() {
    let out = extract_json_preview(b"{\"k\": 1}", 400);
    assert_eq!(out, "\u{1F4CA} JSON Data\n\n{\"k\": 1}".as_bytes().to_vec());
}

#[test]
fn json_preview_truncation_respects_limit() {
    let json = b"{\"a\": 1, \"bcd\": 222}";
    let out = extract_json_preview(json, 10);
    let header = "\u{1F4CA} JSON Data\n\n".as_bytes().len();
    assert!(out.len() <= header + 10 + 3);
    assert!(out.ends_with(b"..."));
}

#[test]
fn script_content_is_cleaned() {
    let out = clean_script_content(b"var x = 5; keep this text window.foo also");
    assert_eq!(out, b" 5; keep this text also".to_vec());
}

#[test]
fn script_heavy_preview_is_labeled() {
    let out = extract_formatted_preview(b"var x = 5; Real content sentence here", 400);
    assert_eq!(
        out,
        "\u{1F4F0} Content Preview\n\n 5; Real content sentence here".as_bytes().to_vec()
    );
}

#[test]
fn html_preview_takes_title_and_article() {
    let html = b"<html><head><title>My Page</title></head><body>\
<article>First sentence. Second bit</article></body></html>";
    let out = extract_html_preview(html, 400);
    assert_eq!(
        out,
        "\u{1F4F0} My Page\n\nFirst sentence. Second bit".as_bytes().to_vec()
    );
}

#[test]
fn html_preview_uses_h1_when_title_missing() {
    let html = b"<html><body><h1>Heading</h1><p>Paragraph body text</p></body></html>";
    let out = extract_html_preview(html, 400);
    assert_eq!(
        out,
        "\u{1F4F0} Heading\n\nParagraph body text".as_bytes().to_vec()
    );
}

#[test]
fn html_preview_falls_back_to_body_text() {
    let html = b"<html><body>just loose body words</body></html>";
    let out = extract_html_preview(html, 400);
    assert_eq!(out, b"just loose body words".to_vec());
}

#[test]
fn html_preview_of_empty_input_reports_so() {
    let out = extract_html_preview(b"", 400);
    assert_eq!(
        out,
        b"Unable to extract readable content from this page.".to_vec()
    );
}

#[test]
fn cdata_html_cleaning_decodes_strips_and_normalizes() {
    let out = clean_html_content(b"&lt;b&gt;bold&lt;/b&gt; <i>x</i>   y");
    assert_eq!(out, b" bold x y".to_vec());
}

#[test]
fn social_preview_extracts_post_author_and_community() {
    let content = b"reddit.com\nGME YOLO update r/wallstreetbets\n\
/u/DeepFuckingValue posted gains\nshort\nvar x = 1\nanother good line here";
    let out = extract_reddit_preview(content, 400);
    let expected = format!(
        "{} GME YOLO update r/wallstreetbets\n\nUser: u/DeepFuckingValue\n\
Subreddit: r/wallstreetbets\n\nreddit.com\nGME YOLO update r/wallstreetbets\n\
/u/DeepFuckingValue posted gains\nanother good line here",
        '\u{1F4C8}'
    );
    assert_eq!(out, expected.as_bytes().to_vec());
}

#[test]
fn social_preview_without_post_uses_fixed_header() {
    // No post line, no author and no community in this content: only the
    // fixed header and the kept content line appear.
    let out = extract_reddit_preview(b"reddit.com", 400);
    let plain = format!("{} Reddit Updates\n\nreddit.com", '\u{1F4C8}');
    assert_eq!(out, plain.as_bytes().to_vec());
}

#[test]
fn preview_extraction_is_total() {
    // Empty input, binary garbage and truncated markup all yield
    // non-empty text.
    assert!(!extract_formatted_preview(b"", 400).is_empty());
    let garbage: Vec<u8> = vec![0, 255, 7, 19, 200, 3, 254, 1, 0, 128];
    assert!(!extract_formatted_preview(&garbage, 400).is_empty());
    assert!(!extract_formatted_preview(b"<html><ti", 400).is_empty());
    assert!(!extract_formatted_preview(b"<rss><item>", 0).is_empty());
}

#[test]
fn preview_truncation_never_exceeds_limit_plus_ellipsis() {
    // Markup preview: the content part after the blank line obeys the
    // sentence-truncation bound.
    let html = b"<html><title>T</title><body><p>word word word word word word word \
word word word word word</p></body></html>";
    for max in [5usize, 10, 20, 40] {
        let out = extract_html_preview(html, max);
        let text = String::from_utf8(out).unwrap();
        let content = text.split("\n\n").nth(1).unwrap();
        assert!(content.len() <= max + 3);
    }
}
