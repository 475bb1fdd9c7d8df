//! Validation of a proposed new name.
//!
//! A rename may only introduce a single bare identifier, the wildcard
//! token `_`, or the receiver keyword (which redirects the whole request
//! to a receiver conversion). Everything else, including every other
//! keyword and any input that is not one lone identifier-shaped token, is
//! rejected before any strategy runs.

use crate::chars::{ident_continue_check, ident_start_check, is_ident_continue, is_ident_start};
use vstd::prelude::*;

verus! {

/// What a proposed new name turned out to be.
#[derive(Clone, Copy, PartialEq, Eq, Structural, Debug)]
pub enum NameKind {
    /// A single ordinary or raw identifier.
    Ident,
    /// The wildcard token `_`.
    Underscore,
    /// The receiver keyword.
    SelfKeyword,
    /// Anything else: empty input, several tokens, a non-receiver keyword,
    /// or a token that is no identifier.
    Invalid,
}

/// The shape of a bare identifier: a start character followed by
/// continue characters.
pub open spec fn ident_shape(s: Seq<char>) -> bool {
    s.len() > 0 && is_ident_start(s[0]) && forall|i: int|
        0 <= i < s.len() ==> is_ident_continue(#[trigger] s[i])
}

/// A raw identifier: `r#` followed by an identifier-shaped tail.
pub open spec fn raw_ident_shape(s: Seq<char>) -> bool {
    s.len() > 2 && s[0] == 'r' && s[1] == '#' && ident_shape(s.skip(2))
}

/// The reserved words of the language: an identifier-shaped token that
/// spells one of these is a keyword token, not an identifier.
pub open spec fn is_keyword(s: Seq<char>) -> bool {
    ||| s == "as"@
    ||| s == "async"@
    ||| s == "await"@
    ||| s == "box"@
    ||| s == "break"@
    ||| s == "const"@
    ||| s == "continue"@
    ||| s == "crate"@
    ||| s == "dyn"@
    ||| s == "else"@
    ||| s == "enum"@
    ||| s == seq!['e', 'x', 't', 'e', 'r', 'n']
    ||| s == "false"@
    ||| s == "fn"@
    ||| s == "for"@
    ||| s == "if"@
    ||| s == "impl"@
    ||| s == "in"@
    ||| s == "let"@
    ||| s == "loop"@
    ||| s == "macro"@
    ||| s == "match"@
    ||| s == "mod"@
    ||| s == "move"@
    ||| s == "mut"@
    ||| s == "pub"@
    ||| s == "ref"@
    ||| s == "return"@
    ||| s == "self"@
    ||| s == "Self"@
    ||| s == "static"@
    ||| s == "struct"@
    ||| s == "super"@
    ||| s == "trait"@
    ||| s == "true"@
    ||| s == "try"@
    ||| s == "type"@
    ||| s == "unsafe"@
    ||| s == "use"@
    ||| s == "where"@
    ||| s == "while"@
}

/// How the engine reads a proposed name: the wildcard and the receiver
/// keyword are singled out, a lone non-keyword identifier (bare or raw)
/// is accepted, and everything else is invalid.
pub open spec fn spec_classify(s: Seq<char>) -> NameKind {
    if s == "_"@ {
        NameKind::Underscore
    } else if s == "self"@ {
        NameKind::SelfKeyword
    } else if ident_shape(s) && !is_keyword(s) {
        NameKind::Ident
    } else if raw_ident_shape(s) {
        NameKind::Ident
    } else {
        NameKind::Invalid
    }
}

/// Whether the characters of `name` have identifier shape from position
/// `from` on (with at least one character there).
fn shape_check(name: &Vec<char>, from: usize) -> (r: bool)
    requires
        from <= name@.len(),
    ensures
        r == ident_shape(name@.skip(from as int)),
{
    let n = name.len();
    if from == n {
        return false;
    }
    if !ident_start_check(name[from]) {
        return false;
    }
    let mut i: usize = from + 1;
    while i < n
        invariant
            from < i <= n,
            n == name@.len(),
            is_ident_start(name@[from as int]),
            forall|j: int| from < j < i ==> is_ident_continue(#[trigger] name@[j]),
        decreases n - i,
    {
        if !ident_continue_check(name[i]) {
            proof {
                assert(!is_ident_continue(name@.skip(from as int)[i - from]));
            }
            return false;
        }
        i += 1;
    }
    proof {
        let t = name@.skip(from as int);
        assert forall|j: int| 0 <= j < t.len() implies is_ident_continue(#[trigger] t[j]) by {
            assert(t[j] == name@[from + j]);
            if j == 0 {
                assert(is_ident_start(name@[from as int]));
            }
        }
    }
    true
}

/// Whether `name` spells a reserved word.
fn keyword_check(name: &Vec<char>) -> (r: bool)
    ensures
        r == is_keyword(name@),
{
    let v = name;
    if crate::chars::chars_eq_str(v, "as") || crate::chars::chars_eq_str(v, "async")
        || crate::chars::chars_eq_str(v, "await") || crate::chars::chars_eq_str(v, "box")
        || crate::chars::chars_eq_str(v, "break") || crate::chars::chars_eq_str(v, "const")
        || crate::chars::chars_eq_str(v, "continue") || crate::chars::chars_eq_str(v, "crate")
        || crate::chars::chars_eq_str(v, "dyn") || crate::chars::chars_eq_str(v, "else")
        || crate::chars::chars_eq_str(v, "enum") {
        return true;
    }
    // This reserved word is spelled out character by character.
    if v.len() == 6 && v[0] == 'e' && v[1] == 'x' && v[2] == 't' && v[3] == 'e' && v[4] == 'r'
        && v[5] == 'n' {
        proof {
            assert(v@ =~= seq!['e', 'x', 't', 'e', 'r', 'n']);
        }
        return true;
    }
    if crate::chars::chars_eq_str(v, "false") || crate::chars::chars_eq_str(v, "fn")
        || crate::chars::chars_eq_str(v, "for") || crate::chars::chars_eq_str(v, "if")
        || crate::chars::chars_eq_str(v, "impl") || crate::chars::chars_eq_str(v, "in")
        || crate::chars::chars_eq_str(v, "let") || crate::chars::chars_eq_str(v, "loop")
        || crate::chars::chars_eq_str(v, "macro") || crate::chars::chars_eq_str(v, "match")
        || crate::chars::chars_eq_str(v, "mod") || crate::chars::chars_eq_str(v, "move")
        || crate::chars::chars_eq_str(v, "mut") || crate::chars::chars_eq_str(v, "pub")
        || crate::chars::chars_eq_str(v, "ref") || crate::chars::chars_eq_str(v, "return")
        || crate::chars::chars_eq_str(v, "self") || crate::chars::chars_eq_str(v, "Self")
        || crate::chars::chars_eq_str(v, "static") || crate::chars::chars_eq_str(v, "struct")
        || crate::chars::chars_eq_str(v, "super") || crate::chars::chars_eq_str(v, "trait")
        || crate::chars::chars_eq_str(v, "true") || crate::chars::chars_eq_str(v, "try")
        || crate::chars::chars_eq_str(v, "type") || crate::chars::chars_eq_str(v, "unsafe")
        || crate::chars::chars_eq_str(v, "use") || crate::chars::chars_eq_str(v, "where")
        || crate::chars::chars_eq_str(v, "while") {
        return true;
    }
    proof {
        assert(v@ != seq!['e', 'x', 't', 'e', 'r', 'n']) by {
            if v@ == seq!['e', 'x', 't', 'e', 'r', 'n'] {
                assert(v@.len() == 6);
            }
        }
    }
    false
}

/// Classifies a proposed new name, as [`spec_classify`] says.
pub fn classify_name(name: &Vec<char>) -> (r: NameKind)
    ensures
        r == spec_classify(name@),
{
    if crate::chars::chars_eq_str(name, "_") {
        return NameKind::Underscore;
    }
    if crate::chars::chars_eq_str(name, "self") {
        return NameKind::SelfKeyword;
    }
    if shape_check(name, 0) {
        proof {
            assert(name@.skip(0) =~= name@);
        }
        if !keyword_check(name) {
            return NameKind::Ident;
        }
    }
    if name.len() > 2 && name[0] == 'r' && name[1] == '#' && shape_check(name, 2) {
        return NameKind::Ident;
    }
    NameKind::Invalid
}

} // verus!
