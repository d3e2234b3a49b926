//! Removal of script idioms that leak into scraped text.
//!
//! The rules are data: an ordered table of patterns in the crate's
//! character-class language, each replaced by a space, followed by block
//! comments, nested-brace blocks, and a final whitespace normalization.

use crate::bytes::{ascii_of, lit, replace_blocks, spec_replace_blocks_from};
use crate::pattern::{
    push_lit_elems, replace_pat_all, spec_lit_elems, spec_replace_pat_from, CharClass, Elem,
};
use crate::text::{normalize_whitespace, spec_normalize_ws};
use vstd::prelude::*;

verus! {

/// A function literal: `function`, optional space, a parenthesized
/// parameter list, optional space, and a braced body.
pub open spec fn spec_function_pat() -> Seq<Elem> {
    spec_lit_elems(ascii_of("function"@)) + seq![
        Elem { class: CharClass::Space, min: 0, max: usize::MAX },
        Elem { class: CharClass::Byte(40), min: 1, max: 1 },
        Elem { class: CharClass::NotByte(41), min: 0, max: usize::MAX },
        Elem { class: CharClass::Byte(41), min: 1, max: 1 },
        Elem { class: CharClass::Space, min: 0, max: usize::MAX },
        Elem { class: CharClass::Byte(123), min: 1, max: 1 },
        Elem { class: CharClass::NotByte(125), min: 0, max: usize::MAX },
        Elem { class: CharClass::Byte(125), min: 1, max: 1 },
    ]
}

/// A declaration head such as `var x =`: the keyword, whitespace, an
/// identifier, optional whitespace and the equals sign.
pub open spec fn spec_decl_pat(keyword: Seq<u8>) -> Seq<Elem> {
    spec_lit_elems(keyword) + seq![
        Elem { class: CharClass::Space, min: 1, max: usize::MAX },
        Elem { class: CharClass::Word, min: 1, max: usize::MAX },
        Elem { class: CharClass::Space, min: 0, max: usize::MAX },
        Elem { class: CharClass::Byte(61), min: 1, max: 1 },
    ]
}

/// An `if` head: `if`, optional space, a parenthesized condition.
pub open spec fn spec_if_pat() -> Seq<Elem> {
    spec_lit_elems(ascii_of("if"@)) + seq![
        Elem { class: CharClass::Space, min: 0, max: usize::MAX },
        Elem { class: CharClass::Byte(40), min: 1, max: 1 },
        Elem { class: CharClass::NotByte(41), min: 0, max: usize::MAX },
        Elem { class: CharClass::Byte(41), min: 1, max: 1 },
    ]
}

/// A property access such as `window.x`: the object name, a dot and an
/// identifier.
pub open spec fn spec_member_pat(object: Seq<u8>) -> Seq<Elem> {
    spec_lit_elems(object) + seq![Elem { class: CharClass::Word, min: 1, max: usize::MAX }]
}

/// An immediately-invoked function head: `(`, optional space, `function`,
/// optional space, `()`.
pub open spec fn spec_iife_pat() -> Seq<Elem> {
    seq![
        Elem { class: CharClass::Byte(40), min: 1, max: 1 },
        Elem { class: CharClass::Space, min: 0, max: usize::MAX },
    ] + spec_lit_elems(ascii_of("function"@)) + seq![
        Elem { class: CharClass::Space, min: 0, max: usize::MAX },
        Elem { class: CharClass::Byte(40), min: 1, max: 1 },
        Elem { class: CharClass::Byte(41), min: 1, max: 1 },
    ]
}

/// A line comment: `//`, the rest of the line, and the line break.
pub open spec fn spec_line_comment_pat() -> Seq<Elem> {
    spec_lit_elems(ascii_of("//"@)) + seq![
        Elem { class: CharClass::NotCrlf, min: 0, max: usize::MAX },
        Elem { class: CharClass::Byte(10), min: 0, max: 1 },
        Elem { class: CharClass::Byte(13), min: 0, max: 1 },
    ]
}

/// An analytics call such as `gtag(...)`.
pub open spec fn spec_call_pat(name: Seq<u8>) -> Seq<Elem> {
    spec_lit_elems(name) + seq![
        Elem { class: CharClass::Byte(40), min: 1, max: 1 },
        Elem { class: CharClass::NotByte(41), min: 0, max: usize::MAX },
        Elem { class: CharClass::Byte(41), min: 1, max: 1 },
    ]
}

/// A brace block that itself contains a brace block.
pub open spec fn spec_nested_brace_pat() -> Seq<Elem> {
    seq![
        Elem { class: CharClass::Byte(123), min: 1, max: 1 },
        Elem { class: CharClass::NotBrace, min: 0, max: usize::MAX },
        Elem { class: CharClass::Byte(123), min: 1, max: 1 },
        Elem { class: CharClass::NotBrace, min: 0, max: usize::MAX },
        Elem { class: CharClass::Byte(125), min: 1, max: 1 },
        Elem { class: CharClass::NotBrace, min: 0, max: usize::MAX },
        Elem { class: CharClass::Byte(125), min: 1, max: 1 },
    ]
}

/// One space, the replacement every script idiom leaves behind.
pub open spec fn spec_one_space() -> Seq<u8> {
    seq![32u8]
}

/// `s` after the whole script-idiom rule chain, before normalization.
pub open spec fn spec_strip_script_idioms(s: Seq<u8>) -> Seq<u8> {
    let r = spec_one_space();
    let s1 = spec_replace_pat_from(s, spec_function_pat(), r, 0);
    let s2 = spec_replace_pat_from(s1, spec_decl_pat(ascii_of("var"@)), r, 0);
    let s3 = spec_replace_pat_from(s2, spec_decl_pat(ascii_of("const"@)), r, 0);
    let s4 = spec_replace_pat_from(s3, spec_decl_pat(ascii_of("let"@)), r, 0);
    let s5 = spec_replace_pat_from(s4, spec_if_pat(), r, 0);
    let s6 = spec_replace_pat_from(s5, spec_member_pat(ascii_of("window."@)), r, 0);
    let s7 = spec_replace_pat_from(s6, spec_member_pat(ascii_of("document."@)), r, 0);
    let s8 = spec_replace_pat_from(s7, spec_iife_pat(), r, 0);
    let s9 = spec_replace_blocks_from(s8, ascii_of("/*"@), ascii_of("*/"@), r, 0);
    let s10 = spec_replace_pat_from(s9, spec_line_comment_pat(), r, 0);
    let s11 = spec_replace_pat_from(s10, spec_call_pat(ascii_of("gtag"@)), r, 0);
    let s12 = spec_replace_pat_from(s11, spec_lit_elems(ascii_of("dataLayer"@)), r, 0);
    let s13 = spec_replace_pat_from(s12, spec_lit_elems(ascii_of("GoogleAnalytics"@)), r, 0);
    let s14 = spec_replace_pat_from(s13, spec_lit_elems(ascii_of("google-analytics"@)), r, 0);
    let s15 = spec_replace_pat_from(s14, spec_lit_elems(ascii_of("googletag"@)), r, 0);
    spec_replace_pat_from(s15, spec_nested_brace_pat(), r, 0)
}

/// Text cleaned of script idioms, whitespace-normalized.
pub open spec fn spec_clean_script(s: Seq<u8>) -> Seq<u8> {
    spec_normalize_ws(spec_strip_script_idioms(s))
}

fn function_pat() -> (r: Vec<Elem>)
    ensures
        r@ == spec_function_pat(),
{
    proof {
        reveal_strlit("function");
    }
    let word = lit("function");
    let mut v: Vec<Elem> = Vec::new();
    push_lit_elems(&mut v, word.as_slice());
    v.push(Elem { class: CharClass::Space, min: 0, max: usize::MAX });
    v.push(Elem { class: CharClass::Byte(40), min: 1, max: 1 });
    v.push(Elem { class: CharClass::NotByte(41), min: 0, max: usize::MAX });
    v.push(Elem { class: CharClass::Byte(41), min: 1, max: 1 });
    v.push(Elem { class: CharClass::Space, min: 0, max: usize::MAX });
    v.push(Elem { class: CharClass::Byte(123), min: 1, max: 1 });
    v.push(Elem { class: CharClass::NotByte(125), min: 0, max: usize::MAX });
    v.push(Elem { class: CharClass::Byte(125), min: 1, max: 1 });
    proof {
        assert(v@ =~= spec_function_pat());
    }
    v
}

/// Build the declaration pattern for `keyword`.
fn decl_pat(keyword: &[u8]) -> (r: Vec<Elem>)
    ensures
        r@ == spec_decl_pat(keyword@),
{
    let mut v: Vec<Elem> = Vec::new();
    push_lit_elems(&mut v, keyword);
    v.push(Elem { class: CharClass::Space, min: 1, max: usize::MAX });
    v.push(Elem { class: CharClass::Word, min: 1, max: usize::MAX });
    v.push(Elem { class: CharClass::Space, min: 0, max: usize::MAX });
    v.push(Elem { class: CharClass::Byte(61), min: 1, max: 1 });
    proof {
        assert(v@ =~= spec_decl_pat(keyword@));
    }
    v
}

fn if_pat() -> (r: Vec<Elem>)
    ensures
        r@ == spec_if_pat(),
{
    proof {
        reveal_strlit("if");
    }
    let word = lit("if");
    let mut v: Vec<Elem> = Vec::new();
    push_lit_elems(&mut v, word.as_slice());
    v.push(Elem { class: CharClass::Space, min: 0, max: usize::MAX });
    v.push(Elem { class: CharClass::Byte(40), min: 1, max: 1 });
    v.push(Elem { class: CharClass::NotByte(41), min: 0, max: usize::MAX });
    v.push(Elem { class: CharClass::Byte(41), min: 1, max: 1 });
    proof {
        assert(v@ =~= spec_if_pat());
    }
    v
}

/// Build the member-access pattern for `object` (which ends in a dot).
fn member_pat(object: &[u8]) -> (r: Vec<Elem>)
    ensures
        r@ == spec_member_pat(object@),
{
    let mut v: Vec<Elem> = Vec::new();
    push_lit_elems(&mut v, object);
    v.push(Elem { class: CharClass::Word, min: 1, max: usize::MAX });
    proof {
        assert(v@ =~= spec_member_pat(object@));
    }
    v
}

fn iife_pat() -> (r: Vec<Elem>)
    ensures
        r@ == spec_iife_pat(),
{
    proof {
        reveal_strlit("function");
    }
    let word = lit("function");
    let mut v: Vec<Elem> = Vec::new();
    v.push(Elem { class: CharClass::Byte(40), min: 1, max: 1 });
    v.push(Elem { class: CharClass::Space, min: 0, max: usize::MAX });
    push_lit_elems(&mut v, word.as_slice());
    v.push(Elem { class: CharClass::Space, min: 0, max: usize::MAX });
    v.push(Elem { class: CharClass::Byte(40), min: 1, max: 1 });
    v.push(Elem { class: CharClass::Byte(41), min: 1, max: 1 });
    proof {
        assert(v@ =~= spec_iife_pat());
    }
    v
}

fn line_comment_pat() -> (r: Vec<Elem>)
    ensures
        r@ == spec_line_comment_pat(),
{
    proof {
        reveal_strlit("//");
    }
    let word = lit("//");
    let mut v: Vec<Elem> = Vec::new();
    push_lit_elems(&mut v, word.as_slice());
    v.push(Elem { class: CharClass::NotCrlf, min: 0, max: usize::MAX });
    v.push(Elem { class: CharClass::Byte(10), min: 0, max: 1 });
    v.push(Elem { class: CharClass::Byte(13), min: 0, max: 1 });
    proof {
        assert(v@ =~= spec_line_comment_pat());
    }
    v
}

/// Build the call pattern for `name`.
fn call_pat(name: &[u8]) -> (r: Vec<Elem>)
    ensures
        r@ == spec_call_pat(name@),
{
    let mut v: Vec<Elem> = Vec::new();
    push_lit_elems(&mut v, name);
    v.push(Elem { class: CharClass::Byte(40), min: 1, max: 1 });
    v.push(Elem { class: CharClass::NotByte(41), min: 0, max: usize::MAX });
    v.push(Elem { class: CharClass::Byte(41), min: 1, max: 1 });
    proof {
        assert(v@ =~= spec_call_pat(name@));
    }
    v
}

/// Build the bare-word pattern for `word`.
fn word_pat(word: &[u8]) -> (r: Vec<Elem>)
    ensures
        r@ == spec_lit_elems(word@),
{
    let mut v: Vec<Elem> = Vec::new();
    push_lit_elems(&mut v, word);
    proof {
        assert(v@ =~= spec_lit_elems(word@));
    }
    v
}

fn nested_brace_pat() -> (r: Vec<Elem>)
    ensures
        r@ == spec_nested_brace_pat(),
{
    let mut v: Vec<Elem> = Vec::new();
    v.push(Elem { class: CharClass::Byte(123), min: 1, max: 1 });
    v.push(Elem { class: CharClass::NotBrace, min: 0, max: usize::MAX });
    v.push(Elem { class: CharClass::Byte(123), min: 1, max: 1 });
    v.push(Elem { class: CharClass::NotBrace, min: 0, max: usize::MAX });
    v.push(Elem { class: CharClass::Byte(125), min: 1, max: 1 });
    v.push(Elem { class: CharClass::NotBrace, min: 0, max: usize::MAX });
    v.push(Elem { class: CharClass::Byte(125), min: 1, max: 1 });
    proof {
        assert(v@ =~= spec_nested_brace_pat());
    }
    v
}

/// Strip script idioms (function bodies, declarations, control heads,
/// analytics identifiers, comments, nested-brace blocks) out of text that
/// was scraped from markup, then normalize whitespace.
pub fn clean_script_content(text: &[u8]) -> (r: Vec<u8>)
    ensures
        r@ == spec_clean_script(text@),
{
    proof {
        reveal_strlit("var");
        reveal_strlit("const");
        reveal_strlit("let");
        reveal_strlit("window.");
        reveal_strlit("document.");
        reveal_strlit("/*");
        reveal_strlit("*/");
        reveal_strlit("gtag");
        reveal_strlit("dataLayer");
        reveal_strlit("GoogleAnalytics");
        reveal_strlit("google-analytics");
        reveal_strlit("googletag");
    }
    let sp: Vec<u8> = vec![32u8];
    proof {
        assert(sp@ =~= spec_one_space());
    }
    let p1 = function_pat();
    let s1 = replace_pat_all(text, &p1, sp.as_slice());
    let p2 = decl_pat(lit("var").as_slice());
    let s2 = replace_pat_all(s1.as_slice(), &p2, sp.as_slice());
    let p3 = decl_pat(lit("const").as_slice());
    let s3 = replace_pat_all(s2.as_slice(), &p3, sp.as_slice());
    let p4 = decl_pat(lit("let").as_slice());
    let s4 = replace_pat_all(s3.as_slice(), &p4, sp.as_slice());
    let p5 = if_pat();
    let s5 = replace_pat_all(s4.as_slice(), &p5, sp.as_slice());
    let p6 = member_pat(lit("window.").as_slice());
    let s6 = replace_pat_all(s5.as_slice(), &p6, sp.as_slice());
    let p7 = member_pat(lit("document.").as_slice());
    let s7 = replace_pat_all(s6.as_slice(), &p7, sp.as_slice());
    let p8 = iife_pat();
    let s8 = replace_pat_all(s7.as_slice(), &p8, sp.as_slice());
    let s9 = replace_blocks(s8.as_slice(), lit("/*").as_slice(), lit("*/").as_slice(), sp.as_slice());
    let p10 = line_comment_pat();
    let s10 = replace_pat_all(s9.as_slice(), &p10, sp.as_slice());
    let p11 = call_pat(lit("gtag").as_slice());
    let s11 = replace_pat_all(s10.as_slice(), &p11, sp.as_slice());
    let p12 = word_pat(lit("dataLayer").as_slice());
    let s12 = replace_pat_all(s11.as_slice(), &p12, sp.as_slice());
    let p13 = word_pat(lit("GoogleAnalytics").as_slice());
    let s13 = replace_pat_all(s12.as_slice(), &p13, sp.as_slice());
    let p14 = word_pat(lit("google-analytics").as_slice());
    let s14 = replace_pat_all(s13.as_slice(), &p14, sp.as_slice());
    let p15 = word_pat(lit("googletag").as_slice());
    let s15 = replace_pat_all(s14.as_slice(), &p15, sp.as_slice());
    let p16 = nested_brace_pat();
    let s16 = replace_pat_all(s15.as_slice(), &p16, sp.as_slice());
    normalize_whitespace(s16.as_slice())
}

} // verus!
