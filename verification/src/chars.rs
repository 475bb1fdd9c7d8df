//! Character classification and conversion between `&str` and `Vec<char>`.
//!
//! The engine reasons about file text and proposed names as sequences of
//! characters. Identifier syntax and letter case are judged on the ASCII
//! range: characters outside it are accepted in text but carry no case and
//! cannot start or continue an identifier here.

use vstd::prelude::*;

verus! {

/// An ASCII lower-case letter.
pub open spec fn is_lower(c: char) -> bool {
    'a' <= c && c <= 'z'
}

/// An ASCII upper-case letter.
pub open spec fn is_upper(c: char) -> bool {
    'A' <= c && c <= 'Z'
}

/// An ASCII decimal digit.
pub open spec fn is_digit(c: char) -> bool {
    '0' <= c && c <= '9'
}

/// A character that may start an identifier.
pub open spec fn is_ident_start(c: char) -> bool {
    is_lower(c) || is_upper(c) || c == '_'
}

/// A character that may continue an identifier.
pub open spec fn is_ident_continue(c: char) -> bool {
    is_ident_start(c) || is_digit(c)
}

/// The lower-case counterpart of `c`: upper-case ASCII letters are mapped
/// down, everything else is left alone.
pub open spec fn to_lower(c: char) -> char {
    if is_upper(c) {
        (c as u8 + 32) as char
    } else {
        c
    }
}

/// The upper-case counterpart of `c`.
pub open spec fn to_upper(c: char) -> char {
    if is_lower(c) {
        (c as u8 - 32) as char
    } else {
        c
    }
}

pub fn lower_char(c: char) -> (r: char)
    ensures
        r == to_lower(c),
{
    if 'A' <= c && c <= 'Z' {
        (c as u8 + 32) as char
    } else {
        c
    }
}

pub fn upper_char(c: char) -> (r: char)
    ensures
        r == to_upper(c),
{
    if 'a' <= c && c <= 'z' {
        (c as u8 - 32) as char
    } else {
        c
    }
}

pub fn lower_check(c: char) -> (r: bool)
    ensures
        r == is_lower(c),
{
    'a' <= c && c <= 'z'
}

pub fn upper_check(c: char) -> (r: bool)
    ensures
        r == is_upper(c),
{
    'A' <= c && c <= 'Z'
}

pub fn ident_start_check(c: char) -> (r: bool)
    ensures
        r == is_ident_start(c),
{
    ('a' <= c && c <= 'z') || ('A' <= c && c <= 'Z') || c == '_'
}

pub fn ident_continue_check(c: char) -> (r: bool)
    ensures
        r == is_ident_continue(c),
{
    ident_start_check(c) || ('0' <= c && c <= '9')
}

/// The characters of `s`, one vector element per character.
pub fn str_chars(s: &str) -> (r: Vec<char>)
    ensures
        r@ == s@,
{
    let n = s.unicode_len();
    let mut r: Vec<char> = Vec::new();
    let mut i: usize = 0;
    while i < n
        invariant
            n == s@.len(),
            i <= n,
            r@ == s@.take(i as int),
        decreases n - i,
    {
        r.push(s.get_char(i));
        proof {
            assert(r@ =~= s@.take(i + 1));
        }
        i += 1;
    }
    proof {
        assert(r@ =~= s@);
    }
    r
}

/// Relies on `core::iter::Iterator::collect` to gather the characters of a
/// vector back into an owned string.
#[verifier::external_body]
pub fn chars_to_string(v: &Vec<char>) -> (r: String)
    ensures
        r@ == v@,
{
    v.iter().collect()
}

/// Whether the characters of `v` spell exactly the string `s`.
pub fn chars_eq_str(v: &Vec<char>, s: &str) -> (r: bool)
    ensures
        r == (v@ == s@),
{
    let n = s.unicode_len();
    if v.len() != n {
        proof {
            assert(v@.len() != s@.len());
        }
        return false;
    }
    let mut i: usize = 0;
    while i < n
        invariant
            n == s@.len(),
            v@.len() == n,
            i <= n,
            forall|j: int| 0 <= j < i ==> v@[j] == s@[j],
        decreases n - i,
    {
        if v[i] != s.get_char(i) {
            return false;
        }
        i += 1;
    }
    proof {
        assert(v@ =~= s@);
    }
    true
}

} // verus!
