//! Whitespace normalization, HTML entity decoding and bounded truncation.

use crate::bytes::{ascii_of, lit, replace_all, slice_range_vec, spec_replace_from};
use vstd::prelude::*;

verus! {

/// ASCII whitespace, as the canonicalizer and extractor collapse it.
pub open spec fn spec_is_space(b: u8) -> bool {
    b == 32 || b == 9 || b == 10 || b == 13 || b == 11 || b == 12
}

/// Is `b` an ASCII whitespace byte?
pub fn is_space(b: u8) -> (r: bool)
    ensures
        r == spec_is_space(b),
{
    b == 32 || b == 9 || b == 10 || b == 13 || b == 11 || b == 12
}

/// A byte the truncation primitives treat as a natural break between words:
/// whitespace or common punctuation.
pub open spec fn spec_is_word_break(b: u8) -> bool {
    b == 32 || b == 46 || b == 44 || b == 59 || b == 58 || b == 33 || b == 63 || b == 10 || b == 13
}

/// Is `b` a word-break byte (space or common punctuation)?
pub fn is_word_break(b: u8) -> (r: bool)
    ensures
        r == spec_is_word_break(b),
{
    b == 32 || b == 46 || b == 44 || b == 59 || b == 58 || b == 33 || b == 63 || b == 10 || b == 13
}

/// A byte that ends a sentence: `.`, `!`, `?` or a line break.
pub open spec fn spec_is_sentence_break(b: u8) -> bool {
    b == 46 || b == 33 || b == 63 || b == 10 || b == 13
}

/// Is `b` a sentence-break byte?
pub fn is_sentence_break(b: u8) -> (r: bool)
    ensures
        r == spec_is_sentence_break(b),
{
    b == 46 || b == 33 || b == 63 || b == 10 || b == 13
}

/// `s` from index `i` on, with every run of whitespace collapsed to one
/// space: a whitespace byte is kept (as a space) only when the byte before
/// it is not whitespace.
pub open spec fn spec_norm_ws_from(s: Seq<u8>, i: int) -> Seq<u8>
    decreases s.len() - i,
{
    if i < 0 || i >= s.len() {
        Seq::empty()
    } else if spec_is_space(s[i]) {
        if i > 0 && spec_is_space(s[i - 1]) {
            spec_norm_ws_from(s, i + 1)
        } else {
            seq![32u8] + spec_norm_ws_from(s, i + 1)
        }
    } else {
        seq![s[i]] + spec_norm_ws_from(s, i + 1)
    }
}

/// Whitespace-normal form of `s`: all whitespace runs collapsed to single
/// spaces.
pub open spec fn spec_normalize_ws(s: Seq<u8>) -> Seq<u8> {
    spec_norm_ws_from(s, 0)
}

/// Collapse every run of whitespace in `s` to a single space.
pub fn normalize_whitespace(s: &[u8]) -> (r: Vec<u8>)
    ensures
        r@ == spec_normalize_ws(s@),
{
    let mut out: Vec<u8> = Vec::new();
    let mut i: usize = 0;
    while i < s.len()
        invariant
            0 <= i <= s.len(),
            spec_normalize_ws(s@) == out@ + spec_norm_ws_from(s@, i as int),
        decreases s.len() - i,
    {
        if is_space(s[i]) {
            if i > 0 && is_space(s[i - 1]) {
            } else {
                out.push(32);
            }
        } else {
            out.push(s[i]);
        }
        i += 1;
    }
    proof {
        assert(out@ + spec_norm_ws_from(s@, i as int) =~= out@);
    }
    out
}

/// Index of the last break byte at or before position `i`, plus one; `max`
/// when no break byte is found. `brk` tells which bytes count as breaks.
pub open spec fn spec_scan_back(s: Seq<u8>, i: int, max: int, brk: spec_fn(u8) -> bool) -> int
    decreases i + 1,
{
    if i < 0 || i >= s.len() {
        max
    } else if brk(s[i]) {
        i + 1
    } else {
        spec_scan_back(s, i - 1, max, brk)
    }
}

/// The cut position the word-boundary rule picks for limit `max`: the whole
/// text when it already fits, else one past the last word break before
/// `max`, else `max` itself.
pub open spec fn spec_word_boundary(s: Seq<u8>, max: int) -> int {
    if s.len() <= max {
        s.len() as int
    } else {
        spec_scan_back(s, max - 1, max, |b: u8| spec_is_word_break(b))
    }
}

/// The cut position the sentence-boundary rule picks: like the word rule
/// but restricted to sentence-ending bytes, falling back to the word rule.
pub open spec fn spec_sentence_boundary(s: Seq<u8>, max: int) -> int {
    if s.len() <= max {
        s.len() as int
    } else {
        let c = spec_scan_back(s, max - 1, max, |b: u8| spec_is_sentence_break(b));
        if c == max {
            spec_word_boundary(s, max)
        } else {
            c
        }
    }
}

/// The scan-back result never exceeds `max` and stays within the text.
pub proof fn lemma_scan_back_bounds(s: Seq<u8>, i: int, max: int, brk: spec_fn(u8) -> bool)
    requires
        0 <= max,
        i < max,
        i < s.len(),
    ensures
        0 <= spec_scan_back(s, i, max, brk) <= max,
    decreases i + 1,
{
    if i < 0 || i >= s.len() {
    } else if brk(s[i]) {
    } else {
        lemma_scan_back_bounds(s, i - 1, max, brk);
    }
}

/// Find a word boundary to cut `text` at so the cut piece is at most
/// `max_length` long; returns the length itself when the text already fits.
pub fn find_word_boundary(text: &[u8], max_length: usize) -> (r: usize)
    ensures
        r == spec_word_boundary(text@, max_length as int),
        r <= text.len(),
        r <= max_length || text.len() <= max_length,
{
    if text.len() <= max_length {
        return text.len();
    }
    let mut i: usize = max_length;
    while i > 0
        invariant
            0 <= i <= max_length < text.len(),
            spec_word_boundary(text@, max_length as int) == spec_scan_back(
                text@,
                i - 1,
                max_length as int,
                |b: u8| spec_is_word_break(b),
            ),
        decreases i,
    {
        if is_word_break(text[i - 1]) {
            return i;
        }
        i -= 1;
    }
    max_length
}

/// Find a sentence boundary to cut `text` at, falling back to a word
/// boundary when no sentence-ending byte lies before `max_length`.
pub fn find_sentence_boundary(text: &[u8], max_length: usize) -> (r: usize)
    ensures
        r == spec_sentence_boundary(text@, max_length as int),
        r <= text.len(),
        r <= max_length || text.len() <= max_length,
{
    if text.len() <= max_length {
        return text.len();
    }
    let mut i: usize = max_length;
    while i > 0
        invariant
            0 <= i <= max_length < text.len(),
            spec_scan_back(
                text@,
                max_length - 1,
                max_length as int,
                |b: u8| spec_is_sentence_break(b),
            ) == spec_scan_back(text@, i - 1, max_length as int, |b: u8| spec_is_sentence_break(b)),
        decreases i,
    {
        if is_sentence_break(text[i - 1]) {
            proof {
                lemma_scan_back_bounds(
                    text@,
                    max_length - 1,
                    max_length as int,
                    |b: u8| spec_is_sentence_break(b),
                );
            }
            return i;
        }
        i -= 1;
    }
    find_word_boundary(text, max_length)
}

/// `text` cut at the word-boundary position for `max`, with `...` appended
/// when anything was cut; the whole text when it fits.
pub open spec fn spec_truncate_words(s: Seq<u8>, max: int) -> Seq<u8> {
    if s.len() <= max {
        s
    } else {
        s.subrange(0, spec_word_boundary(s, max)) + seq![46u8, 46u8, 46u8]
    }
}

/// `text` cut at the sentence-boundary position for `max`, with `...`
/// appended when anything was cut.
pub open spec fn spec_truncate_sentence(s: Seq<u8>, max: int) -> Seq<u8> {
    if s.len() <= max {
        s
    } else {
        s.subrange(0, spec_sentence_boundary(s, max)) + seq![46u8, 46u8, 46u8]
    }
}

/// The truncation law for word boundaries: the truncated text never
/// exceeds the limit plus the three ellipsis dots, for any text and any
/// limit (a text within the limit is returned whole).
pub proof fn lemma_truncate_words_len(s: Seq<u8>, max: int)
    requires
        0 <= max,
    ensures
        spec_truncate_words(s, max).len() <= max + 3,
        s.len() <= max ==> spec_truncate_words(s, max) == s,
{
    if s.len() > max {
        if max > 0 {
            lemma_scan_back_bounds(s, max - 1, max, |b: u8| spec_is_word_break(b));
        }
    }
}

/// The truncation law for sentence boundaries: the truncated text never
/// exceeds the limit plus the three ellipsis dots, for any text and any
/// limit (a text within the limit is returned whole).
pub proof fn lemma_truncate_sentence_len(s: Seq<u8>, max: int)
    requires
        0 <= max,
    ensures
        spec_truncate_sentence(s, max).len() <= max + 3,
        s.len() <= max ==> spec_truncate_sentence(s, max) == s,
{
    if s.len() > max {
        if max > 0 {
            lemma_scan_back_bounds(s, max - 1, max, |b: u8| spec_is_sentence_break(b));
            lemma_scan_back_bounds(s, max - 1, max, |b: u8| spec_is_word_break(b));
        }
    }
}

/// Cut `text` at a word boundary for `max` and append `...` if it was cut.
pub fn truncate_words(text: &[u8], max: usize) -> (r: Vec<u8>)
    ensures
        r@ == spec_truncate_words(text@, max as int),
{
    if text.len() <= max {
        return slice_range_vec(text, 0, text.len());
    }
    let b = find_word_boundary(text, max);
    let mut out = slice_range_vec(text, 0, b);
    out.push(46);
    out.push(46);
    out.push(46);
    proof {
        assert(out@ =~= spec_truncate_words(text@, max as int));
    }
    out
}

/// Cut `text` at a sentence boundary for `max` and append `...` if cut.
pub fn truncate_sentence(text: &[u8], max: usize) -> (r: Vec<u8>)
    ensures
        r@ == spec_truncate_sentence(text@, max as int),
{
    if text.len() <= max {
        return slice_range_vec(text, 0, text.len());
    }
    let b = find_sentence_boundary(text, max);
    let mut out = slice_range_vec(text, 0, b);
    out.push(46);
    out.push(46);
    out.push(46);
    proof {
        assert(out@ =~= spec_truncate_sentence(text@, max as int));
    }
    out
}

/// The named-entity table: each entity and its readable replacement, in
/// the order they are applied.
pub open spec fn spec_entity_rules() -> Seq<(Seq<u8>, Seq<u8>)> {
    seq![
        (ascii_of("&nbsp;"@), ascii_of(" "@)),
        (ascii_of("&amp;"@), ascii_of("&"@)),
        (ascii_of("&lt;"@), ascii_of("<"@)),
        (ascii_of("&gt;"@), ascii_of(">"@)),
        (ascii_of("&quot;"@), ascii_of("\""@)),
        (ascii_of("&apos;"@), ascii_of("'"@)),
        (ascii_of("&#39;"@), ascii_of("'"@)),
        (ascii_of("&ndash;"@), ascii_of("-"@)),
        (ascii_of("&mdash;"@), ascii_of("-"@)),
        (ascii_of("&lsquo;"@), ascii_of("'"@)),
        (ascii_of("&rsquo;"@), ascii_of("'"@)),
        (ascii_of("&ldquo;"@), ascii_of("\""@)),
        (ascii_of("&rdquo;"@), ascii_of("\""@)),
    ]
}

/// `s` after applying the replacement rules from index `k` on, in order.
pub open spec fn spec_apply_rules(s: Seq<u8>, rules: Seq<(Seq<u8>, Seq<u8>)>, k: int) -> Seq<u8>
    decreases rules.len() - k,
{
    if k < 0 || k >= rules.len() {
        s
    } else {
        spec_apply_rules(spec_replace_from(s, rules[k].0, rules[k].1, 0), rules, k + 1)
    }
}

/// `s` with every named XML/HTML entity of the table decoded.
pub open spec fn spec_clean_entities(s: Seq<u8>) -> Seq<u8> {
    spec_apply_rules(s, spec_entity_rules(), 0)
}

/// Decode the fixed set of named XML/HTML entities in `text`.
pub fn clean_xml_entities(text: &[u8]) -> (r: Vec<u8>)
    ensures
        r@ == spec_clean_entities(text@),
{
    proof {
        reveal_strlit("&nbsp;");
        reveal_strlit(" ");
        reveal_strlit("&amp;");
        reveal_strlit("&");
        reveal_strlit("&lt;");
        reveal_strlit("<");
        reveal_strlit("&gt;");
        reveal_strlit(">");
        reveal_strlit("&quot;");
        reveal_strlit("\"");
        reveal_strlit("&apos;");
        reveal_strlit("'");
        reveal_strlit("&#39;");
        reveal_strlit("&ndash;");
        reveal_strlit("-");
        reveal_strlit("&mdash;");
        reveal_strlit("&lsquo;");
        reveal_strlit("&rsquo;");
        reveal_strlit("&ldquo;");
        reveal_strlit("&rdquo;");
    }
    let mut rules: Vec<(Vec<u8>, Vec<u8>)> = Vec::new();
    rules.push((lit("&nbsp;"), lit(" ")));
    rules.push((lit("&amp;"), lit("&")));
    rules.push((lit("&lt;"), lit("<")));
    rules.push((lit("&gt;"), lit(">")));
    rules.push((lit("&quot;"), lit("\"")));
    rules.push((lit("&apos;"), lit("'")));
    rules.push((lit("&#39;"), lit("'")));
    rules.push((lit("&ndash;"), lit("-")));
    rules.push((lit("&mdash;"), lit("-")));
    rules.push((lit("&lsquo;"), lit("'")));
    rules.push((lit("&rsquo;"), lit("'")));
    rules.push((lit("&ldquo;"), lit("\"")));
    rules.push((lit("&rdquo;"), lit("\"")));
    proof {
        assert forall|k: int| 0 <= k < rules@.len() implies (
        #[trigger] rules@[k].0@,
        rules@[k].1@,
        ) == spec_entity_rules()[k] by {
            assert(spec_entity_rules()[k] == spec_entity_rules()[k]);
        }
    }
    let mut cur = slice_range_vec(text, 0, text.len());
    proof {
        assert(cur@ =~= text@);
    }
    let mut k: usize = 0;
    while k < rules.len()
        invariant
            0 <= k <= rules@.len(),
            rules@.len() == spec_entity_rules().len(),
            forall|m: int| 0 <= m < rules@.len() ==> (
            #[trigger] rules@[m].0@,
            rules@[m].1@,
            ) == spec_entity_rules()[m],
            spec_clean_entities(text@) == spec_apply_rules(cur@, spec_entity_rules(), k as int),
        decreases rules@.len() - k,
    {
        let next = replace_all(cur.as_slice(), rules[k].0.as_slice(), rules[k].1.as_slice());
        cur = next;
        k += 1;
    }
    cur
}

} // verus!
