//! Byte-sequence searching and rewriting primitives.
//!
//! All content handling in this crate works on raw bytes, so that arbitrary
//! (even non-UTF-8) fetched documents can be processed without any risk of
//! panicking on character boundaries.

use vstd::prelude::*;

verus! {

use vstd::string::StrSliceExecFns;

/// The bytes of an ASCII character sequence, one byte per character.
pub open spec fn ascii_of(cs: Seq<char>) -> Seq<u8> {
    Seq::new(cs.len(), |i| cs[i] as u8)
}

/// The bytes of an ASCII string slice, used to bring the crate's fixed
/// marker and pattern texts into byte form.
pub fn lit(s: &str) -> (r: Vec<u8>)
    requires
        s.is_ascii(),
    ensures
        r@ == ascii_of(s@),
{
    broadcast use vstd::string::is_ascii_spec_bytes;

    let v = s.as_bytes_vec();
    proof {
        assert(v@ =~= ascii_of(s@));
    }
    v
}

/// `needle` occurs in `hay` starting exactly at index `i`.
pub open spec fn spec_match_at(hay: Seq<u8>, needle: Seq<u8>, i: int) -> bool {
    0 <= i && i + needle.len() <= hay.len() && hay.subrange(i, i + needle.len()) == needle
}

/// Index of the first occurrence of `needle` in `hay` at or after `from`.
pub open spec fn spec_find_from(hay: Seq<u8>, needle: Seq<u8>, from: int) -> Option<int>
    decreases hay.len() - from,
{
    if from < 0 || from + needle.len() > hay.len() {
        None
    } else if needle.len() == 0 {
        Some(from)
    } else if spec_match_at(hay, needle, from) {
        Some(from)
    } else {
        spec_find_from(hay, needle, from + 1)
    }
}

/// `needle` occurs somewhere in `hay`.
pub open spec fn spec_contains(hay: Seq<u8>, needle: Seq<u8>) -> bool {
    spec_find_from(hay, needle, 0) is Some
}

/// A found occurrence lies between `from` and the end of `hay`, and matches.
pub proof fn lemma_find_from_some(hay: Seq<u8>, needle: Seq<u8>, from: int, j: int)
    requires
        spec_find_from(hay, needle, from) == Some(j),
    ensures
        from <= j,
        j + needle.len() <= hay.len(),
        spec_match_at(hay, needle, j),
    decreases hay.len() - from,
{
    if from < 0 || from + needle.len() > hay.len() {
    } else if needle.len() == 0 {
        assert(hay.subrange(from, from) =~= needle);
    } else if spec_match_at(hay, needle, from) {
    } else {
        lemma_find_from_some(hay, needle, from + 1, j);
    }
}

/// Does `needle` occur in `hay` starting exactly at `i`?
pub fn match_at(hay: &[u8], needle: &[u8], i: usize) -> (r: bool)
    requires
        i <= hay.len(),
    ensures
        r == spec_match_at(hay@, needle@, i as int),
{
    if needle.len() > hay.len() - i {
        proof {
            assert(!spec_match_at(hay@, needle@, i as int));
        }
        return false;
    }
    let mut k: usize = 0;
    while k < needle.len()
        invariant
            i + needle.len() <= hay.len(),
            0 <= k <= needle.len(),
            forall|m: int| 0 <= m < k ==> hay@[i + m] == needle@[m],
        decreases needle.len() - k,
    {
        if hay[i + k] != needle[k] {
            proof {
                assert(hay@.subrange(i as int, i + needle.len())[k as int] != needle@[k as int]);
            }
            return false;
        }
        k += 1;
    }
    proof {
        assert(hay@.subrange(i as int, i + needle.len()) =~= needle@);
    }
    true
}

/// First occurrence of `needle` in `hay` at or after `from`.
pub fn find_from(hay: &[u8], needle: &[u8], from: usize) -> (r: Option<usize>)
    ensures
        match r {
            Some(j) => spec_find_from(hay@, needle@, from as int) == Some(j as int),
            None => spec_find_from(hay@, needle@, from as int) is None,
        },
{
    let mut i: usize = from;
    loop
        invariant
            from <= i,
            spec_find_from(hay@, needle@, from as int) == spec_find_from(hay@, needle@, i as int),
        decreases hay.len() + 1 - i,
    {
        if i > hay.len() || needle.len() > hay.len() - i {
            return None;
        }
        if needle.len() == 0 {
            return Some(i);
        }
        if match_at(hay, needle, i) {
            return Some(i);
        }
        i += 1;
    }
}

/// Are two byte sequences equal?
pub fn bytes_eq(a: &[u8], b: &[u8]) -> (r: bool)
    ensures
        r == (a@ == b@),
{
    if a.len() != b.len() {
        return false;
    }
    let mut i: usize = 0;
    while i < a.len()
        invariant
            a@.len() == b@.len(),
            0 <= i <= a@.len(),
            forall|m: int| 0 <= m < i ==> a@[m] == b@[m],
        decreases a.len() - i,
    {
        if a[i] != b[i] {
            return false;
        }
        i += 1;
    }
    proof {
        assert(a@ =~= b@);
    }
    true
}

/// Does `needle` occur anywhere in `hay`?
pub fn contains(hay: &[u8], needle: &[u8]) -> (r: bool)
    ensures
        r == spec_contains(hay@, needle@),
{
    find_from(hay, needle, 0).is_some()
}

/// Copy of `s[a..b]` as a fresh vector.
pub fn slice_range_vec(s: &[u8], a: usize, b: usize) -> (r: Vec<u8>)
    requires
        a <= b <= s.len(),
    ensures
        r@ == s@.subrange(a as int, b as int),
{
    let mut out: Vec<u8> = Vec::new();
    let mut i: usize = a;
    while i < b
        invariant
            a <= i <= b <= s.len(),
            out@ == s@.subrange(a as int, i as int),
        decreases b - i,
    {
        out.push(s[i]);
        proof {
            assert(out@ =~= s@.subrange(a as int, i + 1));
        }
        i += 1;
    }
    out
}

/// `s` with every occurrence of `needle` replaced by `rep`, scanning left to
/// right from index `i`; overlapping occurrences are not re-examined.
pub open spec fn spec_replace_from(s: Seq<u8>, needle: Seq<u8>, rep: Seq<u8>, i: int) -> Seq<u8>
    decreases s.len() - i,
{
    if i < 0 || i >= s.len() {
        Seq::empty()
    } else if needle.len() > 0 && spec_match_at(s, needle, i) {
        rep + spec_replace_from(s, needle, rep, i + needle.len())
    } else {
        seq![s[i]] + spec_replace_from(s, needle, rep, i + 1)
    }
}

/// Replace every occurrence of `needle` in `s` by `rep`.
pub fn replace_all(s: &[u8], needle: &[u8], rep: &[u8]) -> (r: Vec<u8>)
    ensures
        r@ == spec_replace_from(s@, needle@, rep@, 0),
{
    let mut out: Vec<u8> = Vec::new();
    let mut i: usize = 0;
    while i < s.len()
        invariant
            0 <= i <= s.len(),
            spec_replace_from(s@, needle@, rep@, 0) == out@ + spec_replace_from(
                s@,
                needle@,
                rep@,
                i as int,
            ),
        decreases s.len() - i,
    {
        if needle.len() > 0 && match_at(s, needle, i) {
            out.extend_from_slice(rep);
            i += needle.len();
        } else {
            out.push(s[i]);
            i += 1;
        }
    }
    proof {
        assert(out@ + spec_replace_from(s@, needle@, rep@, i as int) =~= out@);
    }
    out
}

/// `s` with every block that begins with `open` and runs through the next
/// `close` replaced by `rep`, scanning from index `i`. An `open` with no
/// following `close` is kept, along with everything after it.
pub open spec fn spec_replace_blocks_from(
    s: Seq<u8>,
    open: Seq<u8>,
    close: Seq<u8>,
    rep: Seq<u8>,
    i: int,
) -> Seq<u8>
    decreases s.len() - i,
{
    if i < 0 || i >= s.len() {
        Seq::empty()
    } else if open.len() > 0 && close.len() > 0 && spec_match_at(s, open, i) {
        match spec_find_from(s, close, i + open.len()) {
            Some(j) => if i < j + close.len() <= s.len() {
                rep + spec_replace_blocks_from(s, open, close, rep, j + close.len())
            } else {
                s.subrange(i, s.len() as int)
            },
            None => s.subrange(i, s.len() as int),
        }
    } else {
        seq![s[i]] + spec_replace_blocks_from(s, open, close, rep, i + 1)
    }
}

/// `s` with every `open`..`close` block removed.
pub open spec fn spec_remove_blocks_from(s: Seq<u8>, open: Seq<u8>, close: Seq<u8>, i: int) -> Seq<
    u8,
> {
    spec_replace_blocks_from(s, open, close, Seq::empty(), i)
}

/// Replace every `open`..`close` block in `s` by `rep`.
pub fn replace_blocks(s: &[u8], open: &[u8], close: &[u8], rep: &[u8]) -> (r: Vec<u8>)
    requires
        open.len() > 0,
        close.len() > 0,
    ensures
        r@ == spec_replace_blocks_from(s@, open@, close@, rep@, 0),
{
    let mut out: Vec<u8> = Vec::new();
    let mut i: usize = 0;
    while i < s.len()
        invariant
            0 <= i <= s.len(),
            open.len() > 0,
            close.len() > 0,
            spec_replace_blocks_from(s@, open@, close@, rep@, 0) == out@
                + spec_replace_blocks_from(s@, open@, close@, rep@, i as int),
        decreases s.len() - i,
    {
        if match_at(s, open, i) {
            match find_from(s, close, i + open.len()) {
                Some(j) => {
                    proof {
                        lemma_find_from_some(s@, close@, i + open.len(), j as int);
                    }
                    out.extend_from_slice(rep);
                    i = j + close.len();
                },
                None => {
                    let rest = slice_range_vec(s, i, s.len());
                    out.extend_from_slice(rest.as_slice());
                    return out;
                },
            }
        } else {
            out.push(s[i]);
            i += 1;
        }
    }
    proof {
        assert(out@ + spec_replace_blocks_from(s@, open@, close@, rep@, i as int) =~= out@);
    }
    out
}

/// Remove every `open`..`close` block from `s`.
pub fn remove_blocks(s: &[u8], open: &[u8], close: &[u8]) -> (r: Vec<u8>)
    requires
        open.len() > 0,
        close.len() > 0,
    ensures
        r@ == spec_remove_blocks_from(s@, open@, close@, 0),
{
    let rep: Vec<u8> = Vec::new();
    replace_blocks(s, open, close, rep.as_slice())
}

/// Bounds of the text enclosed by the first `open` .. `close` pair in `s`:
/// the content starts right after `open` and runs to the next `close`.
pub open spec fn spec_delimited(s: Seq<u8>, open: Seq<u8>, close: Seq<u8>) -> Option<(int, int)> {
    match spec_find_from(s, open, 0) {
        Some(p) => match spec_find_from(s, close, p + open.len()) {
            Some(r) => Some((p + open.len(), r)),
            None => None,
        },
        None => None,
    }
}

/// Find the first `open` .. `close` pair and return the bounds of the text
/// between them.
pub fn find_delimited(s: &[u8], open: &[u8], close: &[u8]) -> (r: Option<(usize, usize)>)
    ensures
        match r {
            Some(b) => {
                &&& spec_delimited(s@, open@, close@) == Some((b.0 as int, b.1 as int))
                &&& b.0 <= b.1 <= s.len()
            },
            None => spec_delimited(s@, open@, close@) is None,
        },
{
    let n = s.len();
    match find_from(s, open, 0) {
        Some(p) => {
            proof {
                lemma_find_from_some(s@, open@, 0, p as int);
                assert(p + open.len() <= n);
            }
            match find_from(s, close, p + open.len()) {
                Some(r) => {
                    proof {
                        lemma_find_from_some(s@, close@, p + open.len(), r as int);
                    }
                    Some((p + open.len(), r))
                },
                None => None,
            }
        },
        None => None,
    }
}

/// Bounds of the text of the first element that begins with tag prefix
/// `open`: after the prefix, skip to the end of the opening tag (the next
/// `62u8`, ASCII `>`), then run to the next occurrence of `close`.
pub open spec fn spec_tag_text(s: Seq<u8>, open: Seq<u8>, close: Seq<u8>) -> Option<(int, int)> {
    match spec_find_from(s, open, 0) {
        Some(p) => match spec_find_from(s, seq![62u8], p + open.len()) {
            Some(q) => match spec_find_from(s, close, q + 1) {
                Some(r) => Some((q + 1, r)),
                None => None,
            },
            None => None,
        },
        None => None,
    }
}

/// Find the text of the first element whose opening tag begins with `open`.
pub fn find_tag_text(s: &[u8], open: &[u8], close: &[u8]) -> (r: Option<(usize, usize)>)
    ensures
        match r {
            Some(b) => {
                &&& spec_tag_text(s@, open@, close@) == Some((b.0 as int, b.1 as int))
                &&& b.0 <= b.1 <= s.len()
            },
            None => spec_tag_text(s@, open@, close@) is None,
        },
{
    let gt: Vec<u8> = vec![62u8];
    proof {
        assert(gt@ =~= seq![62u8]);
    }
    let n = s.len();
    match find_from(s, open, 0) {
        Some(p) => {
            proof {
                lemma_find_from_some(s@, open@, 0, p as int);
                assert(p + open.len() <= n);
            }
            match find_from(s, gt.as_slice(), p + open.len()) {
                Some(q) => {
                    proof {
                        lemma_find_from_some(s@, seq![62u8], p + open.len(), q as int);
                        assert(q + 1 <= n);
                    }
                    match find_from(s, close, q + 1) {
                        Some(r) => {
                            proof {
                                lemma_find_from_some(s@, close@, q + 1, r as int);
                            }
                            Some((q + 1, r))
                        },
                        None => None,
                    }
                },
                None => None,
            }
        },
        None => None,
    }
}

} // verus!
