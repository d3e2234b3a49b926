//! Format-aware preview extraction with a prioritized fallback chain.
//!
//! Content is classified once (feed, social, JSON, script-heavy, generic
//! markup) and exactly one extractor runs. Every extractor is total: it
//! always returns non-empty text, falling back to a fixed message.

use crate::bytes::{
    ascii_of, contains, find_delimited, find_from, find_tag_text, lemma_find_from_some, lit,
    match_at, replace_blocks, slice_range_vec, spec_contains, spec_delimited, spec_find_from,
    spec_match_at, spec_replace_blocks_from, spec_tag_text,
};
use crate::pattern::{
    find_marked_run, scan_class, spec_marked_run, spec_run_end, CharClass,
};
use crate::script_clean::{clean_script_content, spec_clean_script};
use crate::text::{
    clean_xml_entities, is_space, normalize_whitespace, spec_clean_entities, spec_is_space,
    spec_normalize_ws, spec_truncate_sentence, spec_truncate_words, truncate_sentence,
    truncate_words,
};
use vstd::prelude::*;

verus! {

/// The format classes the extractor distinguishes, in the order they are
/// tried; the first match wins.
#[derive(Clone, Copy, Debug, PartialEq, Eq, Structural)]
pub enum ContentKind {
    /// RSS/Atom/XML feed markers.
    Feed,
    /// Known social-feed markers.
    Social,
    /// A whole JSON object or array.
    Json,
    /// Script-idiom markers.
    Script,
    /// Anything else: treated as generic markup.
    Markup,
}

/// The class `content` falls in, by the ordered marker rules.
pub open spec fn spec_classify(s: Seq<u8>) -> ContentKind {
    if spec_contains(s, ascii_of("<?xml"@)) || spec_contains(s, ascii_of("<rss"@))
        || spec_contains(s, ascii_of("<feed"@)) || spec_contains(s, ascii_of("<item>"@))
        || spec_contains(s, ascii_of("<entry>"@)) {
        ContentKind::Feed
    } else if spec_contains(s, ascii_of("/u/DeepFuckingValue"@)) || spec_contains(
        s,
        ascii_of("r/wallstreetbets"@),
    ) || spec_contains(s, ascii_of("reddit.com"@)) {
        ContentKind::Social
    } else if (s.len() > 0 && s[0] == 123 && s[s.len() - 1] == 125) || (s.len() > 0 && s[0] == 91
        && s[s.len() - 1] == 93) {
        ContentKind::Json
    } else if spec_contains(s, ascii_of("function("@)) || spec_contains(s, ascii_of("var "@))
        || spec_contains(s, ascii_of("const "@)) {
        ContentKind::Script
    } else {
        ContentKind::Markup
    }
}

/// Classify `content` by the ordered marker rules.
pub fn classify_content(content: &[u8]) -> (k: ContentKind)
    ensures
        k == spec_classify(content@),
{
    proof {
        reveal_strlit("<?xml");
        reveal_strlit("<rss");
        reveal_strlit("<feed");
        reveal_strlit("<item>");
        reveal_strlit("<entry>");
        reveal_strlit("/u/DeepFuckingValue");
        reveal_strlit("r/wallstreetbets");
        reveal_strlit("reddit.com");
        reveal_strlit("function(");
        reveal_strlit("var ");
        reveal_strlit("const ");
    }
    if contains(content, lit("<?xml").as_slice()) || contains(content, lit("<rss").as_slice())
        || contains(content, lit("<feed").as_slice()) || contains(
        content,
        lit("<item>").as_slice(),
    ) || contains(content, lit("<entry>").as_slice()) {
        ContentKind::Feed
    } else if contains(content, lit("/u/DeepFuckingValue").as_slice()) || contains(
        content,
        lit("r/wallstreetbets").as_slice(),
    ) || contains(content, lit("reddit.com").as_slice()) {
        ContentKind::Social
    } else if (content.len() > 0 && content[0] == 123 && content[content.len() - 1] == 125) || (
    content.len() > 0 && content[0] == 91 && content[content.len() - 1] == 93) {
        ContentKind::Json
    } else if contains(content, lit("function(").as_slice()) || contains(
        content,
        lit("var ").as_slice(),
    ) || contains(content, lit("const ").as_slice()) {
        ContentKind::Script
    } else {
        ContentKind::Markup
    }
}

/// The text of the first element whose opening tag begins with `open`,
/// empty when there is none.
pub open spec fn spec_tag_content(s: Seq<u8>, open: Seq<u8>, close: Seq<u8>) -> Seq<u8> {
    match spec_tag_text(s, open, close) {
        Some((a, b)) => if 0 <= a <= b <= s.len() {
            s.subrange(a, b)
        } else {
            Seq::empty()
        },
        None => Seq::empty(),
    }
}

/// Copy the text of the first element whose opening tag begins with
/// `open`; empty when there is none.
pub fn tag_content(s: &[u8], open: &[u8], close: &[u8]) -> (r: Vec<u8>)
    ensures
        r@ == spec_tag_content(s@, open@, close@),
{
    match find_tag_text(s, open, close) {
        Some((a, b)) => slice_range_vec(s, a, b),
        None => Vec::new(),
    }
}

/// The text between the first `open` .. `close` pair, empty when there is
/// none.
pub open spec fn spec_delimited_content(s: Seq<u8>, open: Seq<u8>, close: Seq<u8>) -> Seq<u8> {
    match spec_delimited(s, open, close) {
        Some((a, b)) => if 0 <= a <= b <= s.len() {
            s.subrange(a, b)
        } else {
            Seq::empty()
        },
        None => Seq::empty(),
    }
}

/// Copy the text between the first `open` .. `close` pair.
pub fn delimited_content(s: &[u8], open: &[u8], close: &[u8]) -> (r: Vec<u8>)
    ensures
        r@ == spec_delimited_content(s@, open@, close@),
{
    match find_delimited(s, open, close) {
        Some((a, b)) => slice_range_vec(s, a, b),
        None => Vec::new(),
    }
}

/// `s` with every `<...>` tag replaced by a space; an unclosed `<` is kept.
pub open spec fn spec_strip_tags(s: Seq<u8>) -> Seq<u8> {
    spec_replace_blocks_from(s, seq![60u8], seq![62u8], seq![32u8], 0)
}

/// Replace every `<...>` tag in `s` by a space.
pub fn strip_tags(s: &[u8]) -> (r: Vec<u8>)
    ensures
        r@ == spec_strip_tags(s@),
{
    let open: Vec<u8> = vec![60u8];
    let close: Vec<u8> = vec![62u8];
    let sp: Vec<u8> = vec![32u8];
    proof {
        assert(open@ =~= seq![60u8]);
        assert(close@ =~= seq![62u8]);
        assert(sp@ =~= seq![32u8]);
    }
    replace_blocks(s, open.as_slice(), close.as_slice(), sp.as_slice())
}

/// End of trimming from the right: the position after the last non-space
/// byte at or after `a`.
pub open spec fn spec_rtrim_from(s: Seq<u8>, j: int, a: int) -> int
    decreases j,
{
    if j <= a || j > s.len() || j < 1 {
        a
    } else if spec_is_space(s[j - 1]) {
        spec_rtrim_from(s, j - 1, a)
    } else {
        j
    }
}

/// `s` with leading and trailing whitespace removed.
pub open spec fn spec_trim(s: Seq<u8>) -> Seq<u8> {
    let a = spec_run_end(s, 0, CharClass::Space, s.len() as int);
    let b = spec_rtrim_from(s, s.len() as int, a);
    if 0 <= a <= b <= s.len() {
        s.subrange(a, b)
    } else {
        Seq::empty()
    }
}

/// Remove leading and trailing whitespace from `s`.
pub fn trim(s: &[u8]) -> (r: Vec<u8>)
    ensures
        r@ == spec_trim(s@),
{
    let a = scan_class(s, 0, CharClass::Space, s.len());
    let mut b: usize = s.len();
    while b > a && is_space(s[b - 1])
        invariant
            a <= b <= s.len(),
            spec_rtrim_from(s@, s@.len() as int, a as int) == spec_rtrim_from(
                s@,
                b as int,
                a as int,
            ),
        decreases b,
    {
        b -= 1;
    }
    slice_range_vec(s, a, b)
}

/// The news-source prefix of a titled preview: a newspaper pictograph and
/// a space.
pub open spec fn spec_news_prefix() -> Seq<u8> {
    seq![240u8, 159u8, 147u8, 176u8, 32u8]
}

/// The data prefix of a JSON preview: a bar-chart pictograph and a space.
pub open spec fn spec_chart_prefix() -> Seq<u8> {
    seq![240u8, 159u8, 147u8, 138u8, 32u8]
}

/// The social-feed prefix: an upward-chart pictograph and a space.
pub open spec fn spec_social_prefix() -> Seq<u8> {
    seq![240u8, 159u8, 147u8, 136u8, 32u8]
}

/// A blank line: two line feeds.
pub open spec fn spec_blank_line() -> Seq<u8> {
    seq![10u8, 10u8]
}

fn news_prefix() -> (r: Vec<u8>)
    ensures
        r@ == spec_news_prefix(),
{
    let v: Vec<u8> = vec![240u8, 159u8, 147u8, 176u8, 32u8];
    proof {
        assert(v@ =~= spec_news_prefix());
    }
    v
}

fn chart_prefix() -> (r: Vec<u8>)
    ensures
        r@ == spec_chart_prefix(),
{
    let v: Vec<u8> = vec![240u8, 159u8, 147u8, 138u8, 32u8];
    proof {
        assert(v@ =~= spec_chart_prefix());
    }
    v
}

fn social_prefix() -> (r: Vec<u8>)
    ensures
        r@ == spec_social_prefix(),
{
    let v: Vec<u8> = vec![240u8, 159u8, 147u8, 136u8, 32u8];
    proof {
        assert(v@ =~= spec_social_prefix());
    }
    v
}

fn blank_line() -> (r: Vec<u8>)
    ensures
        r@ == spec_blank_line(),
{
    let v: Vec<u8> = vec![10u8, 10u8];
    proof {
        assert(v@ =~= spec_blank_line());
    }
    v
}

/// CDATA text cleaned for display: entities decoded, tags stripped,
/// whitespace normalized, script idioms removed.
pub open spec fn spec_clean_html(s: Seq<u8>) -> Seq<u8> {
    spec_clean_script(spec_normalize_ws(spec_strip_tags(spec_clean_entities(s))))
}

/// Clean markup text for display: decode entities, strip tags, normalize
/// whitespace and remove script idioms.
pub fn clean_html_content(html: &[u8]) -> (r: Vec<u8>)
    ensures
        r@ == spec_clean_html(html@),
{
    let e = clean_xml_entities(html);
    let t = strip_tags(e.as_slice());
    let n = normalize_whitespace(t.as_slice());
    clean_script_content(n.as_slice())
}

/// The feed title: the first `<title>` element's text, entities decoded.
pub open spec fn spec_rss_title(s: Seq<u8>) -> Seq<u8> {
    spec_clean_entities(spec_tag_content(s, ascii_of("<title"@), ascii_of("</title>"@)))
}

/// The feed body: the first `<content>` element, else the first
/// `<description>` element (entities decoded), else the first CDATA block
/// cleaned for display; empty when none of them yields text.
pub open spec fn spec_rss_body(s: Seq<u8>) -> Seq<u8> {
    let c = spec_clean_entities(spec_tag_content(s, ascii_of("<content"@), ascii_of("</content>"@)));
    if c.len() > 0 {
        c
    } else {
        let d = spec_clean_entities(
            spec_tag_content(s, ascii_of("<description"@), ascii_of("</description>"@)),
        );
        if d.len() > 0 {
            d
        } else {
            spec_clean_html(spec_delimited_content(s, ascii_of("<![CDATA["@), ascii_of("]]>"@)))
        }
    }
}

/// The whole feed preview: a titled header when a title was found, then
/// the body truncated at a word boundary, with fixed fallback messages
/// when title or body are missing.
pub open spec fn spec_rss_preview(s: Seq<u8>, max: int) -> Seq<u8> {
    let title = spec_rss_title(s);
    let head = if title.len() > 0 {
        spec_news_prefix() + title + spec_blank_line()
    } else {
        Seq::empty()
    };
    let body = spec_rss_body(s);
    if body.len() > 0 {
        head + spec_truncate_words(body, max)
    } else if head.len() > 0 {
        head + ascii_of("[RSS feed detected - content not available]"@)
    } else {
        ascii_of("RSS/XML content detected, but couldn't extract readable content."@)
    }
}

/// Extract a preview from RSS/XML feed content: first `<title>`, then
/// `<content>` over `<description>` over a CDATA block, entities decoded,
/// truncated at a word boundary within `max_length`.
pub fn extract_rss_preview(xml: &[u8], max_length: usize) -> (r: Vec<u8>)
    ensures
        r@ == spec_rss_preview(xml@, max_length as int),
        r@.len() > 0,
{
    proof {
        reveal_strlit("<title");
        reveal_strlit("</title>");
        reveal_strlit("<content");
        reveal_strlit("</content>");
        reveal_strlit("<description");
        reveal_strlit("</description>");
        reveal_strlit("<![CDATA[");
        reveal_strlit("]]>");
        reveal_strlit("[RSS feed detected - content not available]");
        reveal_strlit("RSS/XML content detected, but couldn't extract readable content.");
    }
    let title = clean_xml_entities(
        tag_content(xml, lit("<title").as_slice(), lit("</title>").as_slice()).as_slice(),
    );
    let mut body = clean_xml_entities(
        tag_content(xml, lit("<content").as_slice(), lit("</content>").as_slice()).as_slice(),
    );
    if body.len() == 0 {
        body = clean_xml_entities(
            tag_content(xml, lit("<description").as_slice(), lit("</description>").as_slice())
                .as_slice(),
        );
        if body.len() == 0 {
            body = clean_html_content(
                delimited_content(xml, lit("<![CDATA[").as_slice(), lit("]]>").as_slice())
                    .as_slice(),
            );
        }
    }
    let mut out: Vec<u8> = Vec::new();
    if title.len() > 0 {
        let p = news_prefix();
        out.extend_from_slice(p.as_slice());
        out.extend_from_slice(title.as_slice());
        let b = blank_line();
        out.extend_from_slice(b.as_slice());
    }
    if body.len() > 0 {
        let t = truncate_words(body.as_slice(), max_length);
        out.extend_from_slice(t.as_slice());
        proof {
            assert(out@ =~= spec_rss_preview(xml@, max_length as int));
        }
        out
    } else if out.len() > 0 {
        out.extend_from_slice(lit("[RSS feed detected - content not available]").as_slice());
        proof {
            assert(out@ =~= spec_rss_preview(xml@, max_length as int));
        }
        out
    } else {
        let msg = lit("RSS/XML content detected, but couldn't extract readable content.");
        proof {
            assert(msg@ =~= spec_rss_preview(xml@, max_length as int));
            assert(msg@.len() > 0);
        }
        msg
    }
}

/// The JSON preview: a fixed label and the raw text truncated at a word
/// boundary.
pub open spec fn spec_json_preview(s: Seq<u8>, max: int) -> Seq<u8> {
    spec_chart_prefix() + ascii_of("JSON Data"@) + spec_blank_line() + spec_truncate_words(s, max)
}

/// Extract a labeled preview from JSON content: the raw text truncated at
/// a word boundary within `max_length`.
pub fn extract_json_preview(json: &[u8], max_length: usize) -> (r: Vec<u8>)
    ensures
        r@ == spec_json_preview(json@, max_length as int),
        r@.len() > 0,
{
    proof {
        reveal_strlit("JSON Data");
    }
    let mut out = chart_prefix();
    out.extend_from_slice(lit("JSON Data").as_slice());
    let b = blank_line();
    out.extend_from_slice(b.as_slice());
    let t = truncate_words(json, max_length);
    out.extend_from_slice(t.as_slice());
    proof {
        assert(out@ =~= spec_json_preview(json@, max_length as int));
    }
    out
}

/// The script-heavy preview: a fixed label and the text cleaned of script
/// idioms, truncated at a word boundary.
pub open spec fn spec_script_preview(s: Seq<u8>, max: int) -> Seq<u8> {
    spec_news_prefix() + ascii_of("Content Preview"@) + spec_blank_line() + spec_truncate_words(
        spec_clean_script(s),
        max,
    )
}

/// Extract a preview from script-heavy content: clean the script idioms
/// out first, then truncate at a word boundary within `max_length`.
pub fn extract_script_preview(content: &[u8], max_length: usize) -> (r: Vec<u8>)
    ensures
        r@ == spec_script_preview(content@, max_length as int),
        r@.len() > 0,
{
    proof {
        reveal_strlit("Content Preview");
    }
    let mut out = news_prefix();
    out.extend_from_slice(lit("Content Preview").as_slice());
    let b = blank_line();
    out.extend_from_slice(b.as_slice());
    let cleaned = clean_script_content(content);
    let t = truncate_words(cleaned.as_slice(), max_length);
    out.extend_from_slice(t.as_slice());
    proof {
        assert(out@ =~= spec_script_preview(content@, max_length as int));
    }
    out
}

/// Somewhere strictly inside `(a, e)` lies a ` r/` marker with at least
/// one byte before it and one after it.
pub open spec fn spec_has_post_community(s: Seq<u8>, a: int, e: int) -> bool {
    exists|q: int| a + 1 <= q && q + 4 <= e && spec_match_at(s, ascii_of(" r/"@), q)
}

/// Bounds of the social post title: the first `GME YOLO ` marker whose
/// line also names a community (` r/`), extended to the end of that line.
pub open spec fn spec_social_post_from(s: Seq<u8>, from: int) -> Option<(int, int)>
    decreases s.len() - from,
{
    match spec_find_from(s, ascii_of("GME YOLO "@), from) {
        None => None,
        Some(p) => {
            if !(from <= p < s.len()) {
                None
            } else {
                let e = spec_run_end(s, p, CharClass::NotCrlf, s.len() as int);
                if spec_has_post_community(s, p + 9, e) {
                    Some((p, e))
                } else {
                    spec_social_post_from(s, p + 1)
                }
            }
        },
    }
}

/// Does `(a, e)` hold a ` r/` marker strictly inside it?
fn has_post_community(s: &[u8], a: usize, e: usize) -> (r: bool)
    requires
        e <= s.len(),
    ensures
        r == spec_has_post_community(s@, a as int, e as int),
{
    proof {
        reveal_strlit(" r/");
    }
    let marker = lit(" r/");
    if e < 5 || a > e - 5 {
        proof {
            assert(!spec_has_post_community(s@, a as int, e as int));
        }
        return false;
    }
    let mut q: usize = a + 1;
    while q <= e - 4
        invariant
            a + 1 <= q,
            5 <= e <= s@.len(),
            a <= e - 5,
            marker@ == ascii_of(" r/"@),
            forall|m: int|
                a + 1 <= m < q ==> !(spec_match_at(s@, ascii_of(" r/"@), m) && m + 4 <= e),
        decreases e - q,
    {
        if match_at(s, marker.as_slice(), q) {
            proof {
                reveal_strlit(" r/");
                assert(spec_has_post_community(s@, a as int, e as int));
            }
            return true;
        }
        q += 1;
    }
    proof {
        assert(!spec_has_post_community(s@, a as int, e as int));
    }
    false
}

/// Find the social post title: the first `GME YOLO ` marker on a line
/// that also names a community, with the line end.
fn find_social_post(s: &[u8]) -> (r: Option<(usize, usize)>)
    ensures
        match r {
            Some(b) => spec_social_post_from(s@, 0) == Some((b.0 as int, b.1 as int)) && b.0 <= b.1
                <= s.len(),
            None => spec_social_post_from(s@, 0) is None,
        },
{
    proof {
        reveal_strlit("GME YOLO ");
    }
    let marker = lit("GME YOLO ");
    let n = s.len();
    let mut from: usize = 0;
    loop
        invariant
            0 <= from,
            marker@ == ascii_of("GME YOLO "@),
            n == s@.len(),
            spec_social_post_from(s@, 0) == spec_social_post_from(s@, from as int),
        decreases s.len() + 1 - from,
    {
        match find_from(s, marker.as_slice(), from) {
            None => {
                return None;
            },
            Some(p) => {
                proof {
                    reveal_strlit("GME YOLO ");
                    lemma_find_from_some(s@, marker@, from as int, p as int);
                    assert(p + 9 <= n);
                }
                let e = scan_class(s, p, CharClass::NotCrlf, n);
                if has_post_community(s, p + 9, e) {
                    return Some((p, e));
                }
                from = p + 1;
            },
        }
    }
}

/// A line of social content worth keeping: free of script markers, not
/// blank, and longer than five bytes.
pub open spec fn spec_keep_line(line: Seq<u8>) -> bool {
    &&& !spec_contains(line, ascii_of("function"@))
    &&& !spec_contains(line, ascii_of("var "@))
    &&& !spec_contains(line, ascii_of(".js"@))
    &&& spec_trim(line).len() > 0
    &&& line.len() > 5
}

/// Is this line worth keeping in a social preview?
fn keep_line(line: &[u8]) -> (r: bool)
    ensures
        r == spec_keep_line(line@),
{
    proof {
        reveal_strlit("function");
        reveal_strlit("var ");
        reveal_strlit(".js");
    }
    if contains(line, lit("function").as_slice()) {
        return false;
    }
    if contains(line, lit("var ").as_slice()) {
        return false;
    }
    if contains(line, lit(".js").as_slice()) {
        return false;
    }
    let t = trim(line);
    t.len() > 0 && line.len() > 5
}

/// Two texts joined with a line feed; an empty side disappears.
pub open spec fn spec_join_line(a: Seq<u8>, b: Seq<u8>) -> Seq<u8> {
    if a.len() == 0 {
        b
    } else if b.len() == 0 {
        a
    } else {
        a + seq![10u8] + b
    }
}

/// Joining with a line feed is associative.
pub proof fn lemma_join_line_assoc(a: Seq<u8>, b: Seq<u8>, c: Seq<u8>)
    ensures
        spec_join_line(a, spec_join_line(b, c)) == spec_join_line(spec_join_line(a, b), c),
{
    if a.len() == 0 {
    } else if b.len() == 0 {
    } else if c.len() == 0 {
    } else {
        assert(a + seq![10u8] + (b + seq![10u8] + c) =~= (a + seq![10u8] + b) + seq![10u8] + c);
    }
}

/// The line at `i`: its end (the next line feed or the end of text) and
/// its content with a trailing carriage return stripped.
pub open spec fn spec_line_at(s: Seq<u8>, i: int) -> (int, Seq<u8>) {
    let j = spec_run_end(s, i, CharClass::NotByte(10), s.len() as int);
    if 0 <= i <= j <= s.len() {
        let raw = s.subrange(i, j);
        if raw.len() > 0 && raw[raw.len() - 1] == 13 {
            (j, raw.drop_last())
        } else {
            (j, raw)
        }
    } else {
        (j, Seq::empty())
    }
}

/// The kept lines of `s` from `i` on, joined with line feeds.
pub open spec fn spec_filter_lines_from(s: Seq<u8>, i: int) -> Seq<u8>
    decreases s.len() + 1 - i,
{
    if i < 0 || i >= s.len() {
        Seq::empty()
    } else {
        let (j, line) = spec_line_at(s, i);
        if i <= j <= s.len() {
            let rest = spec_filter_lines_from(s, j + 1);
            if spec_keep_line(line) {
                spec_join_line(line, rest)
            } else {
                rest
            }
        } else {
            Seq::empty()
        }
    }
}

/// Keep only the content-like lines of `s`, joined with line feeds.
fn filter_social_lines(s: &[u8]) -> (r: Vec<u8>)
    ensures
        r@ == spec_filter_lines_from(s@, 0),
{
    let n = s.len();
    let mut out: Vec<u8> = Vec::new();
    let mut i: usize = 0;
    while i < n
        invariant
            0 <= i,
            n == s@.len(),
            spec_filter_lines_from(s@, 0) == spec_join_line(out@, spec_filter_lines_from(
                s@,
                i as int,
            )),
        decreases n - i,
    {
        let j = scan_class(s, i, CharClass::NotByte(10), n);
        let line_end = if j > i && s[j - 1] == 13 {
            j - 1
        } else {
            j
        };
        let line = slice_range_vec(s, i, line_end);
        proof {
            assert(line@ =~= spec_line_at(s@, i as int).1);
        }
        if keep_line(line.as_slice()) {
            proof {
                lemma_join_line_assoc(out@, line@, spec_filter_lines_from(s@, j + 1));
            }
            if out.len() > 0 {
                out.push(10);
            }
            out.extend_from_slice(line.as_slice());
        }
        if j == n {
            proof {
                assert(spec_filter_lines_from(s@, j + 1) =~= Seq::<u8>::empty());
                assert(spec_filter_lines_from(s@, n as int) =~= Seq::<u8>::empty());
            }
            i = n;
        } else {
            i = j + 1;
        }
    }
    proof {
        assert(spec_join_line(out@, spec_filter_lines_from(s@, i as int)) =~= out@);
    }
    out
}

/// The social preview: the post title line (or a fixed header), the
/// author and community when they can be found, and the kept content
/// lines truncated at a word boundary.
pub open spec fn spec_social_preview(s: Seq<u8>, max: int) -> Seq<u8> {
    let head = match spec_social_post_from(s, 0) {
        Some((p, e)) => if 0 <= p <= e <= s.len() {
            spec_social_prefix() + s.subrange(p, e) + spec_blank_line()
        } else {
            spec_social_prefix() + ascii_of("Reddit Updates"@) + spec_blank_line()
        },
        None => spec_social_prefix() + ascii_of("Reddit Updates"@) + spec_blank_line(),
    };
    let user = match spec_marked_run(s, ascii_of("/u/"@), CharClass::WordDash, 0) {
        Some((a, b)) => if 0 <= a <= b <= s.len() {
            ascii_of("User: u/"@) + s.subrange(a, b) + seq![10u8]
        } else {
            Seq::empty()
        },
        None => Seq::empty(),
    };
    let community = match spec_marked_run(s, ascii_of("r/"@), CharClass::WordDash, 0) {
        Some((a, b)) => if 0 <= a <= b <= s.len() {
            ascii_of("Subreddit: r/"@) + s.subrange(a, b) + spec_blank_line()
        } else {
            Seq::empty()
        },
        None => Seq::empty(),
    };
    let cleaned = spec_filter_lines_from(s, 0);
    let tail = if cleaned.len() > 0 {
        spec_truncate_words(cleaned, max)
    } else {
        Seq::empty()
    };
    head + user + community + tail
}

/// Extract a preview from known social-feed content: a post-title line
/// when one is found, author and community identifiers, and the
/// script-free content lines truncated at a word boundary.
#[verifier::rlimit(50)]
pub fn extract_reddit_preview(content: &[u8], max_length: usize) -> (r: Vec<u8>)
    ensures
        r@ == spec_social_preview(content@, max_length as int),
        r@.len() > 0,
{
    proof {
        reveal_strlit("Reddit Updates");
        reveal_strlit("User: u/");
        reveal_strlit("/u/");
        reveal_strlit("Subreddit: r/");
        reveal_strlit("r/");
    }
    let mut out = social_prefix();
    match find_social_post(content) {
        Some((p, e)) => {
            let piece = slice_range_vec(content, p, e);
            out.extend_from_slice(piece.as_slice());
        },
        None => {
            out.extend_from_slice(lit("Reddit Updates").as_slice());
        },
    }
    let b = blank_line();
    out.extend_from_slice(b.as_slice());
    match find_marked_run(content, lit("/u/").as_slice(), CharClass::WordDash) {
        Some((a, bb)) => {
            out.extend_from_slice(lit("User: u/").as_slice());
            let name = slice_range_vec(content, a, bb);
            out.extend_from_slice(name.as_slice());
            out.push(10);
        },
        None => {},
    }
    match find_marked_run(content, lit("r/").as_slice(), CharClass::WordDash) {
        Some((a, bb)) => {
            out.extend_from_slice(lit("Subreddit: r/").as_slice());
            let name = slice_range_vec(content, a, bb);
            out.extend_from_slice(name.as_slice());
            let b2 = blank_line();
            out.extend_from_slice(b2.as_slice());
        },
        None => {},
    }
    let cleaned = filter_social_lines(content);
    if cleaned.len() > 0 {
        let t = truncate_words(cleaned.as_slice(), max_length);
        out.extend_from_slice(t.as_slice());
    }
    proof {
        assert(out@ =~= spec_social_preview(content@, max_length as int));
    }
    out
}

/// Markup text made displayable: tags stripped, whitespace normalized and
/// trimmed.
pub open spec fn spec_tidy(s: Seq<u8>) -> Seq<u8> {
    spec_trim(spec_normalize_ws(spec_strip_tags(s)))
}

/// Strip tags from markup text, normalize its whitespace and trim it.
pub fn tidy_markup_text(s: &[u8]) -> (r: Vec<u8>)
    ensures
        r@ == spec_tidy(s@),
{
    let t = strip_tags(s);
    let n = normalize_whitespace(t.as_slice());
    trim(n.as_slice())
}

/// The page title: the first `<title>` element's text, else the first
/// `<h1>` element's text, tidied either way.
pub open spec fn spec_html_title(s: Seq<u8>) -> Seq<u8> {
    let t = spec_tidy(spec_tag_content(s, ascii_of("<title"@), ascii_of("</title>"@)));
    if t.len() > 0 {
        t
    } else {
        spec_tidy(spec_tag_content(s, ascii_of("<h1"@), ascii_of("</h1>"@)))
    }
}

/// The ordered table of content containers the markup extractor tries:
/// an opening-tag marker and the closing tag that ends the region.
pub open spec fn spec_html_rows() -> Seq<(Seq<u8>, Seq<u8>)> {
    seq![
        (ascii_of("<article"@), ascii_of("</article>"@)),
        (ascii_of("<main"@), ascii_of("</main>"@)),
        (ascii_of("class=\"content\""@), ascii_of("</div>"@)),
        (ascii_of("class='content'"@), ascii_of("</div>"@)),
        (ascii_of("id=\"content\""@), ascii_of("</div>"@)),
        (ascii_of("id='content'"@), ascii_of("</div>"@)),
        (ascii_of("class=\"post-content\""@), ascii_of("</div>"@)),
        (ascii_of("class='post-content'"@), ascii_of("</div>"@)),
        (ascii_of("class=\"entry-content\""@), ascii_of("</div>"@)),
        (ascii_of("class='entry-content'"@), ascii_of("</div>"@)),
        (ascii_of("class=\"article-content\""@), ascii_of("</div>"@)),
        (ascii_of("class='article-content'"@), ascii_of("</div>"@)),
        (ascii_of("class=\"post\""@), ascii_of("</div>"@)),
        (ascii_of("class='post'"@), ascii_of("</div>"@)),
        (ascii_of("<p"@), ascii_of("</p>"@)),
        (ascii_of("class=\"news-article\""@), ascii_of("</div>"@)),
        (ascii_of("class='news-article'"@), ascii_of("</div>"@)),
        (ascii_of("class=\"article__content\""@), ascii_of("</div>"@)),
        (ascii_of("class='article__content'"@), ascii_of("</div>"@)),
        (ascii_of("class=\"story-body\""@), ascii_of("</div>"@)),
        (ascii_of("class='story-body'"@), ascii_of("</div>"@)),
        (ascii_of("class=\"story__content\""@), ascii_of("</div>"@)),
        (ascii_of("class='story__content'"@), ascii_of("</div>"@)),
    ]
}

/// The tidied text of the first container row (from `k` on) that yields
/// non-empty text; empty when none does.
pub open spec fn spec_html_rows_text(s: Seq<u8>, rows: Seq<(Seq<u8>, Seq<u8>)>, k: int) -> Seq<u8>
    decreases rows.len() - k,
{
    if k < 0 || k >= rows.len() {
        Seq::empty()
    } else {
        let c = spec_tidy(spec_tag_content(s, rows[k].0, rows[k].1));
        if c.len() > 0 {
            c
        } else {
            spec_html_rows_text(s, rows, k + 1)
        }
    }
}

/// Find the first content container with non-empty tidied text.
fn html_rows_text(s: &[u8]) -> (r: Vec<u8>)
    ensures
        r@ == spec_html_rows_text(s@, spec_html_rows(), 0),
{
    proof {
        reveal_strlit("<article");
        reveal_strlit("</article>");
        reveal_strlit("<main");
        reveal_strlit("</main>");
        reveal_strlit("class=\"content\"");
        reveal_strlit("class='content'");
        reveal_strlit("id=\"content\"");
        reveal_strlit("id='content'");
        reveal_strlit("class=\"post-content\"");
        reveal_strlit("class='post-content'");
        reveal_strlit("class=\"entry-content\"");
        reveal_strlit("class='entry-content'");
        reveal_strlit("class=\"article-content\"");
        reveal_strlit("class='article-content'");
        reveal_strlit("class=\"post\"");
        reveal_strlit("class='post'");
        reveal_strlit("<p");
        reveal_strlit("</p>");
        reveal_strlit("class=\"news-article\"");
        reveal_strlit("class='news-article'");
        reveal_strlit("class=\"article__content\"");
        reveal_strlit("class='article__content'");
        reveal_strlit("class=\"story-body\"");
        reveal_strlit("class='story-body'");
        reveal_strlit("class=\"story__content\"");
        reveal_strlit("class='story__content'");
        reveal_strlit("</div>");
    }
    let mut rows: Vec<(Vec<u8>, Vec<u8>)> = Vec::new();
    rows.push((lit("<article"), lit("</article>")));
    rows.push((lit("<main"), lit("</main>")));
    rows.push((lit("class=\"content\""), lit("</div>")));
    rows.push((lit("class='content'"), lit("</div>")));
    rows.push((lit("id=\"content\""), lit("</div>")));
    rows.push((lit("id='content'"), lit("</div>")));
    rows.push((lit("class=\"post-content\""), lit("</div>")));
    rows.push((lit("class='post-content'"), lit("</div>")));
    rows.push((lit("class=\"entry-content\""), lit("</div>")));
    rows.push((lit("class='entry-content'"), lit("</div>")));
    rows.push((lit("class=\"article-content\""), lit("</div>")));
    rows.push((lit("class='article-content'"), lit("</div>")));
    rows.push((lit("class=\"post\""), lit("</div>")));
    rows.push((lit("class='post'"), lit("</div>")));
    rows.push((lit("<p"), lit("</p>")));
    rows.push((lit("class=\"news-article\""), lit("</div>")));
    rows.push((lit("class='news-article'"), lit("</div>")));
    rows.push((lit("class=\"article__content\""), lit("</div>")));
    rows.push((lit("class='article__content'"), lit("</div>")));
    rows.push((lit("class=\"story-body\""), lit("</div>")));
    rows.push((lit("class='story-body'"), lit("</div>")));
    rows.push((lit("class=\"story__content\""), lit("</div>")));
    rows.push((lit("class='story__content'"), lit("</div>")));
    proof {
        assert forall|m: int| 0 <= m < rows@.len() implies (
        #[trigger] rows@[m].0@,
        rows@[m].1@,
        ) == spec_html_rows()[m] by {
            assert(spec_html_rows()[m] == spec_html_rows()[m]);
        }
    }
    let mut k: usize = 0;
    while k < rows.len()
        invariant
            0 <= k <= rows@.len(),
            rows@.len() == spec_html_rows().len(),
            forall|m: int| 0 <= m < rows@.len() ==> (
            #[trigger] rows@[m].0@,
            rows@[m].1@,
            ) == spec_html_rows()[m],
            spec_html_rows_text(s@, spec_html_rows(), 0) == spec_html_rows_text(
                s@,
                spec_html_rows(),
                k as int,
            ),
        decreases rows@.len() - k,
    {
        let c = tidy_markup_text(
            tag_content(s, rows[k].0.as_slice(), rows[k].1.as_slice()).as_slice(),
        );
        if c.len() > 0 {
            return c;
        }
        k += 1;
    }
    Vec::new()
}

/// The markup fallback body: all `<body>` text, tidied, with script
/// idioms removed.
pub open spec fn spec_html_fallback(s: Seq<u8>) -> Seq<u8> {
    spec_clean_script(spec_tidy(spec_tag_content(s, ascii_of("<body"@), ascii_of("</body>"@))))
}

/// The whole markup preview: a titled header when a title was found, the
/// first non-empty content container (else all body text) truncated at a
/// sentence boundary, with fixed fallback messages when title or content
/// are missing.
pub open spec fn spec_html_preview(s: Seq<u8>, max: int) -> Seq<u8> {
    let title = spec_html_title(s);
    let head = if title.len() > 0 {
        spec_news_prefix() + title + spec_blank_line()
    } else {
        Seq::empty()
    };
    let c1 = spec_html_rows_text(s, spec_html_rows(), 0);
    let content = if c1.len() > 0 {
        c1
    } else {
        spec_html_fallback(s)
    };
    if content.len() > 0 {
        head + spec_truncate_sentence(content, max)
    } else if head.len() > 0 {
        head + ascii_of("[Content not available]"@)
    } else {
        ascii_of("Unable to extract readable content from this page."@)
    }
}

/// Extract a preview from generic markup: title from `<title>` or `<h1>`,
/// body from the first matching content container (else all body text),
/// truncated at a sentence boundary within `max_length`.
pub fn extract_html_preview(html: &[u8], max_length: usize) -> (r: Vec<u8>)
    ensures
        r@ == spec_html_preview(html@, max_length as int),
        r@.len() > 0,
{
    proof {
        reveal_strlit("<title");
        reveal_strlit("</title>");
        reveal_strlit("<h1");
        reveal_strlit("</h1>");
        reveal_strlit("<body");
        reveal_strlit("</body>");
        reveal_strlit("[Content not available]");
        reveal_strlit("Unable to extract readable content from this page.");
    }
    let mut title = tidy_markup_text(
        tag_content(html, lit("<title").as_slice(), lit("</title>").as_slice()).as_slice(),
    );
    if title.len() == 0 {
        title = tidy_markup_text(
            tag_content(html, lit("<h1").as_slice(), lit("</h1>").as_slice()).as_slice(),
        );
    }
    let mut content = html_rows_text(html);
    if content.len() == 0 {
        content = clean_script_content(
            tidy_markup_text(
                tag_content(html, lit("<body").as_slice(), lit("</body>").as_slice()).as_slice(),
            ).as_slice(),
        );
    }
    let mut out: Vec<u8> = Vec::new();
    if title.len() > 0 {
        let p = news_prefix();
        out.extend_from_slice(p.as_slice());
        out.extend_from_slice(title.as_slice());
        let b = blank_line();
        out.extend_from_slice(b.as_slice());
    }
    if content.len() > 0 {
        let t = truncate_sentence(content.as_slice(), max_length);
        out.extend_from_slice(t.as_slice());
        proof {
            assert(out@ =~= spec_html_preview(html@, max_length as int));
        }
        out
    } else if out.len() > 0 {
        out.extend_from_slice(lit("[Content not available]").as_slice());
        proof {
            assert(out@ =~= spec_html_preview(html@, max_length as int));
        }
        out
    } else {
        let msg = lit("Unable to extract readable content from this page.");
        proof {
            assert(msg@ =~= spec_html_preview(html@, max_length as int));
            assert(msg@.len() > 0);
        }
        msg
    }
}

/// The preview for any raw content: classify once, then run exactly one
/// format-specific extractor.
pub open spec fn spec_formatted_preview(s: Seq<u8>, max: int) -> Seq<u8> {
    match spec_classify(s) {
        ContentKind::Feed => spec_rss_preview(s, max),
        ContentKind::Social => spec_social_preview(s, max),
        ContentKind::Json => spec_json_preview(s, max),
        ContentKind::Script => spec_script_preview(s, max),
        ContentKind::Markup => spec_html_preview(s, max),
    }
}

/// The truncation law at the extractor level: the portion of a preview
/// derived from the body text passes through a word- or sentence-boundary
/// truncation, so it never exceeds the length limit plus the three
/// ellipsis dots; only the header (label or extracted title) stands
/// outside that bound.
pub proof fn lemma_preview_truncation_bound(s: Seq<u8>, max: int)
    requires
        0 <= max,
    ensures
        spec_json_preview(s, max).len() <= spec_chart_prefix().len() + ascii_of("JSON Data"@).len()
            + spec_blank_line().len() + max + 3,
        spec_script_preview(s, max).len() <= spec_news_prefix().len() + ascii_of(
            "Content Preview"@,
        ).len() + spec_blank_line().len() + max + 3,
        spec_rss_body(s).len() > 0 ==> spec_rss_preview(s, max).len() <= spec_news_prefix().len()
            + spec_rss_title(s).len() + spec_blank_line().len() + max + 3,
        spec_html_rows_text(s, spec_html_rows(), 0).len() > 0 || spec_html_fallback(s).len() > 0
            ==> spec_html_preview(s, max).len() <= spec_news_prefix().len() + spec_html_title(
            s,
        ).len() + spec_blank_line().len() + max + 3,
{
    crate::text::lemma_truncate_words_len(s, max);
    crate::text::lemma_truncate_words_len(spec_clean_script(s), max);
    crate::text::lemma_truncate_words_len(spec_rss_body(s), max);
    let c1 = spec_html_rows_text(s, spec_html_rows(), 0);
    let content = if c1.len() > 0 {
        c1
    } else {
        spec_html_fallback(s)
    };
    crate::text::lemma_truncate_sentence_len(content, max);
}

/// Extract a bounded, human-readable preview from raw fetched content.
/// Total: for any input, including empty or binary content, the result is
/// non-empty text.
pub fn extract_formatted_preview(content: &[u8], max_length: usize) -> (r: Vec<u8>)
    ensures
        r@ == spec_formatted_preview(content@, max_length as int),
        r@.len() > 0,
{
    match classify_content(content) {
        ContentKind::Feed => extract_rss_preview(content, max_length),
        ContentKind::Social => extract_reddit_preview(content, max_length),
        ContentKind::Json => extract_json_preview(content, max_length),
        ContentKind::Script => extract_script_preview(content, max_length),
        ContentKind::Markup => extract_html_preview(content, max_length),
    }
}

} // verus!
