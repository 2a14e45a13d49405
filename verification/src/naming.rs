//! Naming-convention helpers: conversion of snake_case field names to the
//! PascalCase column identifiers used by the synthesized filter chain.

use vstd::prelude::*;
use vstd::string::StrSliceExecFns;

verus! {

/// ASCII uppercasing of a single character; anything outside `'a'..='z'`
/// is left unchanged.
pub open spec fn upper_char(c: char) -> char {
    if 97 <= c as u32 && c as u32 <= 122 {
        ((c as u32) - 32) as char
    } else {
        c
    }
}

/// One pass of PascalCase conversion over the remaining characters.
/// `word_start` says whether the next character begins a new
/// underscore-separated word. An underscore is dropped and starts a new
/// word; the first character of a word is uppercased; an empty word
/// contributes a single NUL character (the uppercase of the default
/// character that stands in for a missing first letter).
pub open spec fn pascal_rec(s: Seq<char>, word_start: bool) -> Seq<char>
    decreases s.len(),
{
    if s.len() == 0 {
        if word_start {
            seq!['\u{0}']
        } else {
            Seq::empty()
        }
    } else if s[0] == '_' {
        (if word_start {
            seq!['\u{0}']
        } else {
            Seq::<char>::empty()
        }) + pascal_rec(s.skip(1), true)
    } else {
        seq![if word_start {
            upper_char(s[0])
        } else {
            s[0]
        }] + pascal_rec(s.skip(1), false)
    }
}

/// PascalCase conversion of a whole name: every underscore-separated word
/// has its first character uppercased, and the underscores are dropped.
pub open spec fn pascal_of(s: Seq<char>) -> Seq<char> {
    pascal_rec(s, true)
}

/// Relies on `core::iter::Iterator::collect` for `String`: collecting a
/// sequence of characters yields the string made of exactly those
/// characters, in order.
#[verifier::external_body]
fn chars_to_string(v: Vec<char>) -> (r: String)
    ensures
        r@ == v@,
{
    v.into_iter().collect()
}

fn upper_char_exec(c: char) -> (r: char)
    ensures
        r == upper_char(c),
{
    let u = c as u32;
    if 97 <= u && u <= 122 {
        ((u - 32) as u8) as char
    } else {
        c
    }
}

/// Converts a snake_case name to PascalCase: `"created_at"` becomes
/// `"CreatedAt"`. Column identifiers in the synthesized filter chain are
/// derived from field names this way.
pub fn to_pascal_case(s: String) -> (r: String)
    ensures
        r@ == pascal_of(s@),
{
    let st = s.as_str();
    let n = st.unicode_len();
    let mut out: Vec<char> = Vec::new();
    let mut word_start: bool = true;
    let mut i: usize = 0;
    proof {
        assert(s@.skip(0) =~= s@);
        assert(out@ + pascal_rec(s@, true) =~= pascal_rec(s@, true));
    }
    while i < n
        invariant
            n == s@.len(),
            st@ == s@,
            0 <= i <= n,
            pascal_of(s@) == out@ + pascal_rec(s@.skip(i as int), word_start),
        decreases n - i,
    {
        let c = st.get_char(i);
        proof {
            assert(s@.skip(i as int)[0] == c);
            assert(s@.skip(i as int).skip(1) =~= s@.skip(i + 1));
        }
        if c == '_' {
            if word_start {
                out.push('\u{0}');
            }
            word_start = true;
        } else {
            if word_start {
                out.push(upper_char_exec(c));
            } else {
                out.push(c);
            }
            word_start = false;
        }
        i = i + 1;
    }
    proof {
        assert(s@.skip(n as int) =~= Seq::<char>::empty());
    }
    if word_start {
        out.push('\u{0}');
    }
    chars_to_string(out)
}

} // verus!
