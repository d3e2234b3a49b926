//! Canonicalization of fetched content for change detection.
//!
//! Volatile substrings (clock times, dates, view counters, embedded script /
//! iframe / comment / ad-insertion blocks) are stripped, the text is
//! optionally narrowed to a primary-content region, and whitespace is
//! normalized. The result is only ever used for fingerprint comparison.

use crate::bytes::{
    ascii_of, find_tag_text, lit, remove_blocks, slice_range_vec, spec_remove_blocks_from,
    spec_tag_text,
};
use crate::pattern::{
    lemma_remove_concat_from, push_lit_elems, remove_pat_all, spec_class_matches, spec_lit_elems,
    spec_pat_blocked_by, spec_pat_end, spec_remove_pat_from, CharClass, Elem,
};
use crate::text::{normalize_whitespace, spec_normalize_ws};
use vstd::prelude::*;

verus! {

/// A clock time with seconds: one or two digits, `:`, two digits, `:`,
/// two digits.
pub open spec fn spec_time_hms_pat() -> Seq<Elem> {
    seq![
        Elem { class: CharClass::Digit, min: 1, max: 2 },
        Elem { class: CharClass::Byte(58), min: 1, max: 1 },
        Elem { class: CharClass::Digit, min: 2, max: 2 },
        Elem { class: CharClass::Byte(58), min: 1, max: 1 },
        Elem { class: CharClass::Digit, min: 2, max: 2 },
    ]
}

/// A clock time without seconds: one or two digits, `:`, two digits.
pub open spec fn spec_time_hm_pat() -> Seq<Elem> {
    seq![
        Elem { class: CharClass::Digit, min: 1, max: 2 },
        Elem { class: CharClass::Byte(58), min: 1, max: 1 },
        Elem { class: CharClass::Digit, min: 2, max: 2 },
    ]
}

/// A slash-separated date: digits `/` digits `/` two to four digits.
pub open spec fn spec_date_slash_pat() -> Seq<Elem> {
    seq![
        Elem { class: CharClass::Digit, min: 1, max: 2 },
        Elem { class: CharClass::Byte(47), min: 1, max: 1 },
        Elem { class: CharClass::Digit, min: 1, max: 2 },
        Elem { class: CharClass::Byte(47), min: 1, max: 1 },
        Elem { class: CharClass::Digit, min: 2, max: 4 },
    ]
}

/// An ISO date: four digits `-` two digits `-` two digits.
pub open spec fn spec_date_iso_pat() -> Seq<Elem> {
    seq![
        Elem { class: CharClass::Digit, min: 4, max: 4 },
        Elem { class: CharClass::Byte(45), min: 1, max: 1 },
        Elem { class: CharClass::Digit, min: 2, max: 2 },
        Elem { class: CharClass::Byte(45), min: 1, max: 1 },
        Elem { class: CharClass::Digit, min: 2, max: 2 },
    ]
}

/// A written date like `Mon, 3 Jan 2024`: three letters, comma, one
/// whitespace, one or two digits, one whitespace, three letters, one
/// whitespace, four digits.
pub open spec fn spec_date_written_pat() -> Seq<Elem> {
    seq![
        Elem { class: CharClass::Alpha, min: 3, max: 3 },
        Elem { class: CharClass::Byte(44), min: 1, max: 1 },
        Elem { class: CharClass::Space, min: 1, max: 1 },
        Elem { class: CharClass::Digit, min: 1, max: 2 },
        Elem { class: CharClass::Space, min: 1, max: 1 },
        Elem { class: CharClass::Alpha, min: 3, max: 3 },
        Elem { class: CharClass::Space, min: 1, max: 1 },
        Elem { class: CharClass::Digit, min: 4, max: 4 },
    ]
}

/// A view counter: `viewcount`, optional quote, optional whitespace, `:`,
/// optional whitespace, optional quote, digits.
pub open spec fn spec_viewcount_pat() -> Seq<Elem> {
    spec_lit_elems(ascii_of("viewcount"@)) + seq![
        Elem { class: CharClass::Quote, min: 0, max: 1 },
        Elem { class: CharClass::Space, min: 0, max: usize::MAX },
        Elem { class: CharClass::Byte(58), min: 1, max: 1 },
        Elem { class: CharClass::Space, min: 0, max: usize::MAX },
        Elem { class: CharClass::Quote, min: 0, max: 1 },
        Elem { class: CharClass::Digit, min: 1, max: usize::MAX },
    ]
}

/// A quoted timestamp key with a numeric value: quote, `timestamp`, quote,
/// optional whitespace, `:`, optional whitespace, digits.
pub open spec fn spec_timestamp_pat() -> Seq<Elem> {
    seq![Elem { class: CharClass::Quote, min: 1, max: 1 }] + spec_lit_elems(
        ascii_of("timestamp"@),
    ) + seq![
        Elem { class: CharClass::Quote, min: 1, max: 1 },
        Elem { class: CharClass::Space, min: 0, max: usize::MAX },
        Elem { class: CharClass::Byte(58), min: 1, max: 1 },
        Elem { class: CharClass::Space, min: 0, max: usize::MAX },
        Elem { class: CharClass::Digit, min: 1, max: usize::MAX },
    ]
}

/// A data attribute timestamp: `data-timestamp=`, quote, digits, quote.
pub open spec fn spec_data_timestamp_pat() -> Seq<Elem> {
    spec_lit_elems(ascii_of("data-timestamp="@)) + seq![
        Elem { class: CharClass::Quote, min: 1, max: 1 },
        Elem { class: CharClass::Digit, min: 1, max: usize::MAX },
        Elem { class: CharClass::Quote, min: 1, max: 1 },
    ]
}

/// `s` with all volatile patterns and embedded blocks removed, in the
/// order the rules are listed.
pub open spec fn spec_strip_volatile(s: Seq<u8>) -> Seq<u8> {
    let s1 = spec_remove_pat_from(s, spec_time_hms_pat(), 0);
    let s2 = spec_remove_pat_from(s1, spec_time_hm_pat(), 0);
    let s3 = spec_remove_pat_from(s2, spec_date_slash_pat(), 0);
    let s4 = spec_remove_pat_from(s3, spec_date_iso_pat(), 0);
    let s5 = spec_remove_pat_from(s4, spec_date_written_pat(), 0);
    let s6 = spec_remove_pat_from(s5, spec_viewcount_pat(), 0);
    let s7 = spec_remove_pat_from(s6, spec_timestamp_pat(), 0);
    let s8 = spec_remove_pat_from(s7, spec_data_timestamp_pat(), 0);
    let s9 = spec_remove_blocks_from(s8, ascii_of("<script"@), ascii_of("</script>"@), 0);
    let s10 = spec_remove_blocks_from(s9, ascii_of("<iframe"@), ascii_of("</iframe>"@), 0);
    let s11 = spec_remove_blocks_from(s10, ascii_of("<!--"@), ascii_of("-->"@), 0);
    spec_remove_blocks_from(s11, ascii_of("<ins"@), ascii_of("</ins>"@), 0)
}

/// The ordered table of primary-content containers: an opening-tag marker
/// and the closing tag that ends the region.
pub open spec fn spec_container_rows() -> Seq<(Seq<u8>, Seq<u8>)> {
    seq![
        (ascii_of("<article"@), ascii_of("</article>"@)),
        (ascii_of("<main"@), ascii_of("</main>"@)),
        (ascii_of("class=\"content\""@), ascii_of("</div>"@)),
        (ascii_of("class='content'"@), ascii_of("</div>"@)),
        (ascii_of("class=\"post-content\""@), ascii_of("</div>"@)),
        (ascii_of("class='post-content'"@), ascii_of("</div>"@)),
        (ascii_of("id=\"content\""@), ascii_of("</div>"@)),
        (ascii_of("id='content'"@), ascii_of("</div>"@)),
    ]
}

/// Content of the first container row (from index `k` on) that matches in
/// `s`; `None` when no row matches.
pub open spec fn spec_try_rows(s: Seq<u8>, rows: Seq<(Seq<u8>, Seq<u8>)>, k: int) -> Option<
    Seq<u8>,
>
    decreases rows.len() - k,
{
    if k < 0 || k >= rows.len() {
        None
    } else {
        match spec_tag_text(s, rows[k].0, rows[k].1) {
            Some((a, b)) => if 0 <= a <= b <= s.len() {
                Some(s.subrange(a, b))
            } else {
                Some(Seq::empty())
            },
            None => spec_try_rows(s, rows, k + 1),
        }
    }
}

/// `s` narrowed to its primary-content region when some container row
/// matches and yields non-empty content; `s` itself otherwise.
pub open spec fn spec_narrow_content(s: Seq<u8>) -> Seq<u8> {
    match spec_try_rows(s, spec_container_rows(), 0) {
        Some(c) => if c.len() > 0 {
            c
        } else {
            s
        },
        None => s,
    }
}

/// The canonical text of `s`: volatile parts stripped, narrowed to the
/// primary-content region, whitespace-normalized.
pub open spec fn spec_canonical_text(s: Seq<u8>) -> Seq<u8> {
    spec_normalize_ws(spec_narrow_content(spec_strip_volatile(s)))
}

fn time_hms_pat() -> (r: Vec<Elem>)
    ensures
        r@ == spec_time_hms_pat(),
{
    let mut v: Vec<Elem> = Vec::new();
    v.push(Elem { class: CharClass::Digit, min: 1, max: 2 });
    v.push(Elem { class: CharClass::Byte(58), min: 1, max: 1 });
    v.push(Elem { class: CharClass::Digit, min: 2, max: 2 });
    v.push(Elem { class: CharClass::Byte(58), min: 1, max: 1 });
    v.push(Elem { class: CharClass::Digit, min: 2, max: 2 });
    proof {
        assert(v@ =~= spec_time_hms_pat());
    }
    v
}

fn time_hm_pat() -> (r: Vec<Elem>)
    ensures
        r@ == spec_time_hm_pat(),
{
    let mut v: Vec<Elem> = Vec::new();
    v.push(Elem { class: CharClass::Digit, min: 1, max: 2 });
    v.push(Elem { class: CharClass::Byte(58), min: 1, max: 1 });
    v.push(Elem { class: CharClass::Digit, min: 2, max: 2 });
    proof {
        assert(v@ =~= spec_time_hm_pat());
    }
    v
}

fn date_slash_pat() -> (r: Vec<Elem>)
    ensures
        r@ == spec_date_slash_pat(),
{
    let mut v: Vec<Elem> = Vec::new();
    v.push(Elem { class: CharClass::Digit, min: 1, max: 2 });
    v.push(Elem { class: CharClass::Byte(47), min: 1, max: 1 });
    v.push(Elem { class: CharClass::Digit, min: 1, max: 2 });
    v.push(Elem { class: CharClass::Byte(47), min: 1, max: 1 });
    v.push(Elem { class: CharClass::Digit, min: 2, max: 4 });
    proof {
        assert(v@ =~= spec_date_slash_pat());
    }
    v
}

fn date_iso_pat() -> (r: Vec<Elem>)
    ensures
        r@ == spec_date_iso_pat(),
{
    let mut v: Vec<Elem> = Vec::new();
    v.push(Elem { class: CharClass::Digit, min: 4, max: 4 });
    v.push(Elem { class: CharClass::Byte(45), min: 1, max: 1 });
    v.push(Elem { class: CharClass::Digit, min: 2, max: 2 });
    v.push(Elem { class: CharClass::Byte(45), min: 1, max: 1 });
    v.push(Elem { class: CharClass::Digit, min: 2, max: 2 });
    proof {
        assert(v@ =~= spec_date_iso_pat());
    }
    v
}

fn date_written_pat() -> (r: Vec<Elem>)
    ensures
        r@ == spec_date_written_pat(),
{
    let mut v: Vec<Elem> = Vec::new();
    v.push(Elem { class: CharClass::Alpha, min: 3, max: 3 });
    v.push(Elem { class: CharClass::Byte(44), min: 1, max: 1 });
    v.push(Elem { class: CharClass::Space, min: 1, max: 1 });
    v.push(Elem { class: CharClass::Digit, min: 1, max: 2 });
    v.push(Elem { class: CharClass::Space, min: 1, max: 1 });
    v.push(Elem { class: CharClass::Alpha, min: 3, max: 3 });
    v.push(Elem { class: CharClass::Space, min: 1, max: 1 });
    v.push(Elem { class: CharClass::Digit, min: 4, max: 4 });
    proof {
        assert(v@ =~= spec_date_written_pat());
    }
    v
}

fn viewcount_pat() -> (r: Vec<Elem>)
    ensures
        r@ == spec_viewcount_pat(),
{
    proof {
        reveal_strlit("viewcount");
    }
    let word = lit("viewcount");
    let mut v: Vec<Elem> = Vec::new();
    push_lit_elems(&mut v, word.as_slice());
    v.push(Elem { class: CharClass::Quote, min: 0, max: 1 });
    v.push(Elem { class: CharClass::Space, min: 0, max: usize::MAX });
    v.push(Elem { class: CharClass::Byte(58), min: 1, max: 1 });
    v.push(Elem { class: CharClass::Space, min: 0, max: usize::MAX });
    v.push(Elem { class: CharClass::Quote, min: 0, max: 1 });
    v.push(Elem { class: CharClass::Digit, min: 1, max: usize::MAX });
    proof {
        assert(v@ =~= spec_viewcount_pat());
    }
    v
}

fn timestamp_pat() -> (r: Vec<Elem>)
    ensures
        r@ == spec_timestamp_pat(),
{
    proof {
        reveal_strlit("timestamp");
    }
    let word = lit("timestamp");
    let mut v: Vec<Elem> = Vec::new();
    v.push(Elem { class: CharClass::Quote, min: 1, max: 1 });
    push_lit_elems(&mut v, word.as_slice());
    v.push(Elem { class: CharClass::Quote, min: 1, max: 1 });
    v.push(Elem { class: CharClass::Space, min: 0, max: usize::MAX });
    v.push(Elem { class: CharClass::Byte(58), min: 1, max: 1 });
    v.push(Elem { class: CharClass::Space, min: 0, max: usize::MAX });
    v.push(Elem { class: CharClass::Digit, min: 1, max: usize::MAX });
    proof {
        assert(v@ =~= spec_timestamp_pat());
    }
    v
}

fn data_timestamp_pat() -> (r: Vec<Elem>)
    ensures
        r@ == spec_data_timestamp_pat(),
{
    proof {
        reveal_strlit("data-timestamp=");
    }
    let word = lit("data-timestamp=");
    let mut v: Vec<Elem> = Vec::new();
    push_lit_elems(&mut v, word.as_slice());
    v.push(Elem { class: CharClass::Quote, min: 1, max: 1 });
    v.push(Elem { class: CharClass::Digit, min: 1, max: usize::MAX });
    v.push(Elem { class: CharClass::Quote, min: 1, max: 1 });
    proof {
        assert(v@ =~= spec_data_timestamp_pat());
    }
    v
}

/// Strip all volatile patterns and embedded blocks from `content`.
fn strip_volatile(content: &[u8]) -> (r: Vec<u8>)
    ensures
        r@ == spec_strip_volatile(content@),
{
    proof {
        reveal_strlit("<script");
        reveal_strlit("</script>");
        reveal_strlit("<iframe");
        reveal_strlit("</iframe>");
        reveal_strlit("<!--");
        reveal_strlit("-->");
        reveal_strlit("<ins");
        reveal_strlit("</ins>");
    }
    let p1 = time_hms_pat();
    let s1 = remove_pat_all(content, &p1);
    let p2 = time_hm_pat();
    let s2 = remove_pat_all(s1.as_slice(), &p2);
    let p3 = date_slash_pat();
    let s3 = remove_pat_all(s2.as_slice(), &p3);
    let p4 = date_iso_pat();
    let s4 = remove_pat_all(s3.as_slice(), &p4);
    let p5 = date_written_pat();
    let s5 = remove_pat_all(s4.as_slice(), &p5);
    let p6 = viewcount_pat();
    let s6 = remove_pat_all(s5.as_slice(), &p6);
    let p7 = timestamp_pat();
    let s7 = remove_pat_all(s6.as_slice(), &p7);
    let p8 = data_timestamp_pat();
    let s8 = remove_pat_all(s7.as_slice(), &p8);
    let s9 = remove_blocks(s8.as_slice(), lit("<script").as_slice(), lit("</script>").as_slice());
    let s10 = remove_blocks(s9.as_slice(), lit("<iframe").as_slice(), lit("</iframe>").as_slice());
    let s11 = remove_blocks(s10.as_slice(), lit("<!--").as_slice(), lit("-->").as_slice());
    remove_blocks(s11.as_slice(), lit("<ins").as_slice(), lit("</ins>").as_slice())
}

/// Narrow `content` to its primary-content region, if a container row of
/// the table matches with something inside it.
fn narrow_content(content: &[u8]) -> (r: Vec<u8>)
    ensures
        r@ == spec_narrow_content(content@),
{
    proof {
        reveal_strlit("<article");
        reveal_strlit("</article>");
        reveal_strlit("<main");
        reveal_strlit("</main>");
        reveal_strlit("class=\"content\"");
        reveal_strlit("class='content'");
        reveal_strlit("class=\"post-content\"");
        reveal_strlit("class='post-content'");
        reveal_strlit("id=\"content\"");
        reveal_strlit("id='content'");
        reveal_strlit("</div>");
    }
    let mut rows: Vec<(Vec<u8>, Vec<u8>)> = Vec::new();
    rows.push((lit("<article"), lit("</article>")));
    rows.push((lit("<main"), lit("</main>")));
    rows.push((lit("class=\"content\""), lit("</div>")));
    rows.push((lit("class='content'"), lit("</div>")));
    rows.push((lit("class=\"post-content\""), lit("</div>")));
    rows.push((lit("class='post-content'"), lit("</div>")));
    rows.push((lit("id=\"content\""), lit("</div>")));
    rows.push((lit("id='content'"), lit("</div>")));
    proof {
        assert forall|m: int| 0 <= m < rows@.len() implies (
        #[trigger] rows@[m].0@,
        rows@[m].1@,
        ) == spec_container_rows()[m] by {
            assert(spec_container_rows()[m] == spec_container_rows()[m]);
        }
    }
    let mut k: usize = 0;
    while k < rows.len()
        invariant
            0 <= k <= rows@.len(),
            rows@.len() == spec_container_rows().len(),
            forall|m: int| 0 <= m < rows@.len() ==> (
            #[trigger] rows@[m].0@,
            rows@[m].1@,
            ) == spec_container_rows()[m],
            spec_try_rows(content@, spec_container_rows(), 0) == spec_try_rows(
                content@,
                spec_container_rows(),
                k as int,
            ),
        decreases rows@.len() - k,
    {
        match find_tag_text(content, rows[k].0.as_slice(), rows[k].1.as_slice()) {
            Some((a, b)) => {
                let piece = slice_range_vec(content, a, b);
                if piece.len() > 0 {
                    return piece;
                } else {
                    let whole = slice_range_vec(content, 0, content.len());
                    proof {
                        assert(whole@ =~= content@);
                    }
                    return whole;
                }
            },
            None => {
                k += 1;
            },
        }
    }
    let whole = slice_range_vec(content, 0, content.len());
    proof {
        assert(whole@ =~= content@);
    }
    whole
}


/// Two fetches that differ only in a trailing clock time canonicalize
/// identically: for any page text ending in a space and any two complete
/// `HH:MM:SS` stamps appended to it, the canonical texts are the same, so
/// the fingerprints agree and no change is reported for the second fetch.
pub proof fn lemma_trailing_timestamp_irrelevant(p: Seq<u8>, t1: Seq<u8>, t2: Seq<u8>)
    requires
        p.len() >= 1,
        p[p.len() - 1] == 32,
        spec_pat_end(t1, spec_time_hms_pat(), 0, 0) == Some(t1.len() as int),
        spec_pat_end(t2, spec_time_hms_pat(), 0, 0) == Some(t2.len() as int),
        t1.len() > 0,
        t2.len() > 0,
    ensures
        spec_canonical_text(p + t1) == spec_canonical_text(p + t2),
{
    assert forall|m: int|
        0 <= m < spec_time_hms_pat().len() implies !spec_class_matches(
        #[trigger] spec_time_hms_pat()[m].class,
        32,
    ) by {
        assert(spec_time_hms_pat()[m] == spec_time_hms_pat()[m]);
    }
    assert(spec_pat_blocked_by(spec_time_hms_pat(), 32));
    lemma_remove_concat_from(p, t1, spec_time_hms_pat(), 0);
    lemma_remove_concat_from(p, t2, spec_time_hms_pat(), 0);
}

/// Canonical form of raw fetched content, used only for change detection:
/// volatile substrings removed, narrowed to the primary-content region
/// when one is recognized, whitespace collapsed.
pub fn clean_content_for_comparison(content: &[u8]) -> (r: Vec<u8>)
    ensures
        r@ == spec_canonical_text(content@),
{
    let stripped = strip_volatile(content);
    let narrowed = narrow_content(stripped.as_slice());
    normalize_whitespace(narrowed.as_slice())
}

} // verus!
