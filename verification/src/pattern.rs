//! A small character-class pattern language.
//!
//! The volatile-text rules of the canonicalizer and the script-idiom rules of
//! the preview extractor are plain data: sequences of [`Elem`] entries, each
//! one a character class with a repetition range. Matching is greedy and
//! never backtracks, which suffices for every rule table in this crate
//! (no rule follows a repeated class with a class that overlaps it).

use vstd::prelude::*;

verus! {

/// One class of bytes a pattern element can match.
#[derive(Clone, Copy)]
pub enum CharClass {
    /// ASCII decimal digit.
    Digit,
    /// ASCII letter.
    Alpha,
    /// ASCII letter, digit or underscore.
    Word,
    /// ASCII letter, digit, underscore or hyphen.
    WordDash,
    /// ASCII whitespace.
    Space,
    /// Single or double quote.
    Quote,
    /// Anything but carriage return or line feed.
    NotCrlf,
    /// Anything but an opening or closing curly brace.
    NotBrace,
    /// Exactly the given byte.
    Byte(u8),
    /// Anything but the given byte.
    NotByte(u8),
}

/// Does byte `b` fall in class `c`?
pub open spec fn spec_class_matches(c: CharClass, b: u8) -> bool {
    match c {
        CharClass::Digit => 48 <= b <= 57,
        CharClass::Alpha => (65 <= b <= 90) || (97 <= b <= 122),
        CharClass::Word => (48 <= b <= 57) || (65 <= b <= 90) || (97 <= b <= 122) || b == 95,
        CharClass::WordDash => (48 <= b <= 57) || (65 <= b <= 90) || (97 <= b <= 122) || b == 95
            || b == 45,
        CharClass::Space => b == 32 || b == 9 || b == 10 || b == 13 || b == 11 || b == 12,
        CharClass::Quote => b == 34 || b == 39,
        CharClass::NotCrlf => b != 10 && b != 13,
        CharClass::NotBrace => b != 123 && b != 125,
        CharClass::Byte(x) => b == x,
        CharClass::NotByte(x) => b != x,
    }
}

/// Does byte `b` fall in class `c`?
pub fn class_matches(c: CharClass, b: u8) -> (r: bool)
    ensures
        r == spec_class_matches(c, b),
{
    match c {
        CharClass::Digit => 48 <= b && b <= 57,
        CharClass::Alpha => (65 <= b && b <= 90) || (97 <= b && b <= 122),
        CharClass::Word => (48 <= b && b <= 57) || (65 <= b && b <= 90) || (97 <= b && b <= 122)
            || b == 95,
        CharClass::WordDash => (48 <= b && b <= 57) || (65 <= b && b <= 90) || (97 <= b && b
            <= 122) || b == 95 || b == 45,
        CharClass::Space => b == 32 || b == 9 || b == 10 || b == 13 || b == 11 || b == 12,
        CharClass::Quote => b == 34 || b == 39,
        CharClass::NotCrlf => b != 10 && b != 13,
        CharClass::NotBrace => b != 123 && b != 125,
        CharClass::Byte(x) => b == x,
        CharClass::NotByte(x) => b != x,
    }
}

/// Pattern elements for a run of literal bytes, one element per byte.
pub open spec fn spec_lit_elems(bs: Seq<u8>) -> Seq<Elem> {
    Seq::new(bs.len(), |i: int| Elem { class: CharClass::Byte(bs[i]), min: 1, max: 1 })
}

/// Append one element per byte of `bs`, each matching that byte exactly.
pub fn push_lit_elems(v: &mut Vec<Elem>, bs: &[u8])
    ensures
        final(v)@ == old(v)@ + spec_lit_elems(bs@),
{
    let mut i: usize = 0;
    while i < bs.len()
        invariant
            0 <= i <= bs.len(),
            v@ == old(v)@ + spec_lit_elems(bs@.take(i as int)),
        decreases bs.len() - i,
    {
        v.push(Elem { class: CharClass::Byte(bs[i]), min: 1, max: 1 });
        proof {
            assert(spec_lit_elems(bs@.take(i + 1)) =~= spec_lit_elems(bs@.take(i as int)) + seq![
                Elem { class: CharClass::Byte(bs@[i as int]), min: 1, max: 1 },
            ]);
            assert(v@ =~= old(v)@ + spec_lit_elems(bs@.take(i + 1)));
        }
        i += 1;
    }
    proof {
        assert(bs@.take(bs@.len() as int) =~= bs@);
    }
}

/// One pattern element: a class with a repetition range.
#[derive(Clone, Copy)]
pub struct Elem {
    pub class: CharClass,
    pub min: usize,
    pub max: usize,
}

/// End of the greedy run of bytes in class `c` starting at `i`, taking at
/// most `max` bytes.
pub open spec fn spec_run_end(s: Seq<u8>, i: int, c: CharClass, max: int) -> int
    decreases s.len() - i,
{
    if i < 0 || i >= s.len() || max <= 0 || !spec_class_matches(c, s[i]) {
        i
    } else {
        spec_run_end(s, i + 1, c, max - 1)
    }
}

/// Scan the greedy run of bytes in class `c` from `i`, at most `max` long.
pub fn scan_class(s: &[u8], i: usize, c: CharClass, max: usize) -> (j: usize)
    requires
        i <= s.len(),
    ensures
        j == spec_run_end(s@, i as int, c, max as int),
        i <= j <= s.len(),
{
    let mut j: usize = i;
    let mut budget: usize = max;
    while j < s.len() && budget > 0 && class_matches(c, s[j])
        invariant
            i <= j <= s.len(),
            budget <= max,
            j - i == max - budget,
            spec_run_end(s@, i as int, c, max as int) == spec_run_end(
                s@,
                j as int,
                c,
                budget as int,
            ),
        decreases s.len() - j,
    {
        j += 1;
        budget -= 1;
    }
    j
}

/// Where matching pattern `pat` from element `k` onward, with the input
/// cursor at `i`, ends; `None` if some element cannot take its minimum.
pub open spec fn spec_pat_end(s: Seq<u8>, pat: Seq<Elem>, k: int, i: int) -> Option<int>
    decreases pat.len() - k,
{
    if k < 0 || k >= pat.len() {
        Some(i)
    } else {
        let e = pat[k];
        let j = spec_run_end(s, i, e.class, e.max as int);
        if j - i >= e.min {
            spec_pat_end(s, pat, k + 1, j)
        } else {
            None
        }
    }
}

/// Match pattern `pat` against `s` at position `i`; returns the end of the
/// match if every element takes at least its minimum.
pub fn pat_match_end(s: &[u8], pat: &Vec<Elem>, i: usize) -> (r: Option<usize>)
    requires
        i <= s.len(),
    ensures
        match r {
            Some(j) => spec_pat_end(s@, pat@, 0, i as int) == Some(j as int) && i <= j <= s.len(),
            None => spec_pat_end(s@, pat@, 0, i as int) is None,
        },
{
    let mut k: usize = 0;
    let mut pos: usize = i;
    while k < pat.len()
        invariant
            i <= pos <= s.len(),
            k <= pat@.len(),
            spec_pat_end(s@, pat@, 0, i as int) == spec_pat_end(s@, pat@, k as int, pos as int),
        decreases pat.len() - k,
    {
        let e = pat[k];
        let j = scan_class(s, pos, e.class, e.max);
        if j - pos >= e.min {
            pos = j;
            k += 1;
        } else {
            return None;
        }
    }
    Some(pos)
}

/// A byte no element of `pat` can match: a pattern match can never span a
/// position holding such a byte.
pub open spec fn spec_pat_blocked_by(pat: Seq<Elem>, b: u8) -> bool {
    forall|m: int| 0 <= m < pat.len() ==> !spec_class_matches(#[trigger] pat[m].class, b)
}

/// A greedy run starting inside the sequence ends inside the sequence.
pub proof fn lemma_run_end_bounds(s: Seq<u8>, i: int, c: CharClass, max: int)
    requires
        0 <= i <= s.len(),
    ensures
        i <= spec_run_end(s, i, c, max) <= s.len(),
    decreases s.len() - i,
{
    if i < 0 || i >= s.len() || max <= 0 || !spec_class_matches(c, s[i]) {
    } else {
        lemma_run_end_bounds(s, i + 1, c, max - 1);
    }
}

/// When the last byte of `p` blocks class `c`, a run starting inside `p`
/// cannot reach `p`'s end, so extending `p` does not change the run.
pub proof fn lemma_run_end_concat(p: Seq<u8>, ext: Seq<u8>, i: int, c: CharClass, max: int)
    requires
        0 <= i < p.len(),
        !spec_class_matches(c, p[p.len() - 1]),
    ensures
        spec_run_end(p + ext, i, c, max) == spec_run_end(p, i, c, max),
        i <= spec_run_end(p, i, c, max) <= p.len() - 1,
    decreases p.len() - i,
{
    assert((p + ext)[i] == p[i]);
    if max <= 0 || !spec_class_matches(c, p[i]) {
    } else {
        lemma_run_end_concat(p, ext, i + 1, c, max - 1);
    }
}

/// A greedy run in a concatenation, starting inside the second part, is
/// the second part's own run, shifted.
pub proof fn lemma_run_end_shift(a: Seq<u8>, b: Seq<u8>, i: int, c: CharClass, max: int)
    requires
        0 <= i <= b.len(),
    ensures
        spec_run_end(a + b, a.len() + i, c, max) == a.len() + spec_run_end(b, i, c, max),
    decreases b.len() - i,
{
    if i >= b.len() || max <= 0 {
    } else {
        assert((a + b)[a.len() + i] == b[i]);
        if spec_class_matches(c, b[i]) {
            lemma_run_end_shift(a, b, i + 1, c, max - 1);
        }
    }
}

/// When the last byte of `p` blocks every element of `pat`, a match
/// starting inside `p` neither changes nor escapes `p` when `p` is
/// extended: the whole match stays before `p`'s last byte.
pub proof fn lemma_pat_end_concat(p: Seq<u8>, ext: Seq<u8>, pat: Seq<Elem>, k: int, i: int)
    requires
        0 <= i < p.len(),
        spec_pat_blocked_by(pat, p[p.len() - 1]),
    ensures
        spec_pat_end(p + ext, pat, k, i) == spec_pat_end(p, pat, k, i),
        spec_pat_end(p, pat, k, i) matches Some(j) ==> i <= j <= p.len() - 1,
    decreases pat.len() - k,
{
    if k < 0 || k >= pat.len() {
    } else {
        let e = pat[k];
        lemma_run_end_concat(p, ext, i, e.class, e.max as int);
        let j = spec_run_end(p, i, e.class, e.max as int);
        if j - i >= e.min {
            lemma_pat_end_concat(p, ext, pat, k + 1, j);
        }
    }
}

/// A match attempt in a concatenation, starting inside the second part,
/// is the second part's own attempt, shifted.
pub proof fn lemma_pat_end_shift(a: Seq<u8>, b: Seq<u8>, pat: Seq<Elem>, k: int, i: int)
    requires
        0 <= i <= b.len(),
    ensures
        spec_pat_end(a + b, pat, k, a.len() + i) == match spec_pat_end(b, pat, k, i) {
            Some(j) => Some(a.len() + j),
            None => None,
        },
    decreases pat.len() - k,
{
    if k < 0 || k >= pat.len() {
    } else {
        let e = pat[k];
        lemma_run_end_shift(a, b, i, e.class, e.max as int);
        lemma_run_end_bounds(b, i, e.class, e.max as int);
        let j = spec_run_end(b, i, e.class, e.max as int);
        if j - i >= e.min {
            lemma_pat_end_shift(a, b, pat, k + 1, j);
        }
    }
}

/// `s` with every match of `pat` replaced by `rep`, scanning left to right
/// from `i`; a zero-length match replaces nothing and the scan moves on by
/// one byte.
pub open spec fn spec_replace_pat_from(s: Seq<u8>, pat: Seq<Elem>, rep: Seq<u8>, i: int) -> Seq<u8>
    decreases s.len() - i,
{
    if i < 0 || i >= s.len() {
        Seq::empty()
    } else {
        match spec_pat_end(s, pat, 0, i) {
            Some(j) => if i < j <= s.len() {
                rep + spec_replace_pat_from(s, pat, rep, j)
            } else {
                seq![s[i]] + spec_replace_pat_from(s, pat, rep, i + 1)
            },
            None => seq![s[i]] + spec_replace_pat_from(s, pat, rep, i + 1),
        }
    }
}

/// `s` with every match of `pat` removed.
pub open spec fn spec_remove_pat_from(s: Seq<u8>, pat: Seq<Elem>, i: int) -> Seq<u8> {
    spec_replace_pat_from(s, pat, Seq::empty(), i)
}

/// Replace every match of `pat` in `s` by `rep`.
pub fn replace_pat_all(s: &[u8], pat: &Vec<Elem>, rep: &[u8]) -> (r: Vec<u8>)
    ensures
        r@ == spec_replace_pat_from(s@, pat@, rep@, 0),
{
    let mut out: Vec<u8> = Vec::new();
    let mut i: usize = 0;
    while i < s.len()
        invariant
            0 <= i <= s.len(),
            spec_replace_pat_from(s@, pat@, rep@, 0) == out@ + spec_replace_pat_from(
                s@,
                pat@,
                rep@,
                i as int,
            ),
        decreases s.len() - i,
    {
        match pat_match_end(s, pat, i) {
            Some(j) => {
                if j > i {
                    out.extend_from_slice(rep);
                    i = j;
                } else {
                    out.push(s[i]);
                    i += 1;
                }
            },
            None => {
                out.push(s[i]);
                i += 1;
            },
        }
    }
    proof {
        assert(out@ + spec_replace_pat_from(s@, pat@, rep@, i as int) =~= out@);
    }
    out
}

/// Remove every match of `pat` from `s`.
pub fn remove_pat_all(s: &[u8], pat: &Vec<Elem>) -> (r: Vec<u8>)
    ensures
        r@ == spec_remove_pat_from(s@, pat@, 0),
{
    let rep: Vec<u8> = Vec::new();
    replace_pat_all(s, pat, rep.as_slice())
}

/// Appending a text that is itself exactly one match of `pat`, to a text
/// whose last byte blocks every element of `pat`, changes nothing about
/// removal: the appended match is removed whole, and every earlier
/// decision of the scan is untouched.
pub proof fn lemma_remove_concat_from(p: Seq<u8>, t: Seq<u8>, pat: Seq<Elem>, i: int)
    requires
        p.len() >= 1,
        spec_pat_blocked_by(pat, p[p.len() - 1]),
        spec_pat_end(t, pat, 0, 0) == Some(t.len() as int),
        t.len() > 0,
        0 <= i <= p.len(),
    ensures
        spec_remove_pat_from(p + t, pat, i) == spec_remove_pat_from(p, pat, i),
    decreases p.len() + 1 - i,
{
    if i == p.len() {
        lemma_pat_end_shift(p, t, pat, 0, 0);
        assert(spec_pat_end(p + t, pat, 0, p.len() as int) == Some(p.len() + t.len() as int));
        assert(spec_remove_pat_from(p + t, pat, (p + t).len() as int) =~= Seq::<u8>::empty());
        assert(spec_remove_pat_from(p + t, pat, i) =~= Seq::<u8>::empty());
        assert(spec_remove_pat_from(p, pat, i) =~= Seq::<u8>::empty());
    } else {
        lemma_pat_end_concat(p, t, pat, 0, i);
        match spec_pat_end(p, pat, 0, i) {
            Some(j) => {
                if i < j {
                    lemma_remove_concat_from(p, t, pat, j);
                } else {
                    assert((p + t)[i] == p[i]);
                    lemma_remove_concat_from(p, t, pat, i + 1);
                }
            },
            None => {
                assert((p + t)[i] == p[i]);
                lemma_remove_concat_from(p, t, pat, i + 1);
            },
        }
    }
}

/// Bounds of the first non-empty greedy run of bytes in class `c` that
/// directly follows an occurrence of `marker`, searching from `from`.
pub open spec fn spec_marked_run(s: Seq<u8>, marker: Seq<u8>, c: CharClass, from: int) -> Option<
    (int, int),
>
    decreases s.len() - from,
{
    match crate::bytes::spec_find_from(s, marker, from) {
        None => None,
        Some(p) => {
            if !(from <= p < s.len()) {
                None
            } else {
                let st = p + marker.len();
                let e = spec_run_end(s, st, c, s.len() as int);
                if e > st {
                    Some((st, e))
                } else {
                    spec_marked_run(s, marker, c, p + 1)
                }
            }
        },
    }
}

/// Find the first occurrence of `marker` followed directly by at least one
/// byte of class `c`; returns the bounds of that run.
pub fn find_marked_run(s: &[u8], marker: &[u8], c: CharClass) -> (r: Option<(usize, usize)>)
    requires
        marker.len() > 0,
    ensures
        match r {
            Some(b) => spec_marked_run(s@, marker@, c, 0) == Some((b.0 as int, b.1 as int)) && b.0
                <= b.1 <= s.len(),
            None => spec_marked_run(s@, marker@, c, 0) is None,
        },
{
    let n = s.len();
    let mut from: usize = 0;
    loop
        invariant
            0 <= from,
            marker@.len() > 0,
            n == s@.len(),
            spec_marked_run(s@, marker@, c, 0) == spec_marked_run(s@, marker@, c, from as int),
        decreases s.len() + 1 - from,
    {
        match crate::bytes::find_from(s, marker, from) {
            None => {
                return None;
            },
            Some(p) => {
                proof {
                    crate::bytes::lemma_find_from_some(s@, marker@, from as int, p as int);
                    assert(p + marker.len() <= n);
                }
                let st = p + marker.len();
                let e = scan_class(s, st, c, n);
                if e > st {
                    return Some((st, e));
                }
                from = p + 1;
            },
        }
    }
}

} // verus!
