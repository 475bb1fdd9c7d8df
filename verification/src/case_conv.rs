//! Detection of an identifier's letter case, and conversion into the
//! expected case.
//!
//! Each converter returns `None` when the identifier already has the
//! expected case, and the suggested replacement otherwise. Case is judged
//! on ASCII letters; other characters carry no case and pass through
//! every conversion unchanged.

use crate::chars::{
    chars_to_string, is_lower, is_upper, lower_char, str_chars, to_lower, to_upper, upper_char,
};
use vstd::prelude::*;

verus! {

/// Lower snake case: no upper-case letter anywhere.
pub open spec fn lower_snake_ok(s: Seq<char>) -> bool {
    forall|i: int| 0 <= i < s.len() ==> !is_upper(#[trigger] s[i])
}

/// Upper snake case: no lower-case letter anywhere.
pub open spec fn upper_snake_ok(s: Seq<char>) -> bool {
    forall|i: int| 0 <= i < s.len() ==> !is_lower(#[trigger] s[i])
}

/// Camel case: does not start with a lower-case letter and contains no
/// underscore.
pub open spec fn camel_ok(s: Seq<char>) -> bool {
    s.len() == 0 || (!is_lower(s[0]) && forall|i: int| 0 <= i < s.len() ==> s[i] != '_')
}

/// Every letter lowered, everything else kept.
pub open spec fn lowered(s: Seq<char>) -> Seq<char> {
    s.map(|i: int, c: char| to_lower(c))
}

/// Every letter raised, everything else kept.
pub open spec fn raised(s: Seq<char>) -> Seq<char> {
    s.map(|i: int, c: char| to_upper(c))
}

/// Snake-case conversion from position `i` on: an underscore is placed
/// before each upper-case letter except at the very start, and every
/// character is mapped through `case`.
pub open spec fn snake_walk(s: Seq<char>, i: int, upper: bool) -> Seq<char>
    decreases s.len() - i,
{
    if i < 0 || i >= s.len() {
        Seq::empty()
    } else {
        (if is_upper(s[i]) && i > 0 {
            seq!['_']
        } else {
            Seq::empty()
        }) + seq![if upper {
            to_upper(s[i])
        } else {
            to_lower(s[i])
        }] + snake_walk(s, i + 1, upper)
    }
}

/// Camel-case conversion from position `i` on. An underscore is dropped
/// and starts a new word; a word also starts where an upper-case letter
/// follows a lower-case one. The first character of a word is raised,
/// every other character lowered.
pub open spec fn camel_walk(s: Seq<char>, i: int, new_word: bool, prev_lower: bool) -> Seq<char>
    decreases s.len() - i,
{
    if i < 0 || i >= s.len() {
        Seq::empty()
    } else if s[i] == '_' {
        camel_walk(s, i + 1, true, false)
    } else {
        seq![
            if new_word || (prev_lower && is_upper(s[i])) {
                to_upper(s[i])
            } else {
                to_lower(s[i])
            },
        ] + camel_walk(s, i + 1, false, is_lower(s[i]))
    }
}

/// What a lower-snake-case conversion suggests: nothing when the name
/// already conforms; a plain lowering when the name is upper snake case;
/// the word-splitting conversion otherwise.
pub open spec fn lower_snake_suggestion(s: Seq<char>) -> Option<Seq<char>> {
    if lower_snake_ok(s) {
        None
    } else if upper_snake_ok(s) {
        Some(lowered(s))
    } else {
        Some(snake_walk(s, 0, false))
    }
}

/// What an upper-snake-case conversion suggests, symmetrically.
pub open spec fn upper_snake_suggestion(s: Seq<char>) -> Option<Seq<char>> {
    if upper_snake_ok(s) {
        None
    } else if lower_snake_ok(s) {
        Some(raised(s))
    } else {
        Some(snake_walk(s, 0, true))
    }
}

/// What a camel-case conversion suggests.
pub open spec fn camel_suggestion(s: Seq<char>) -> Option<Seq<char>> {
    if camel_ok(s) {
        None
    } else {
        Some(camel_walk(s, 0, true, false))
    }
}

/// The view of an optional owned string.
pub open spec fn suggestion_view(r: Option<String>) -> Option<Seq<char>> {
    match r {
        None => None,
        Some(t) => Some(t@),
    }
}

fn scan_lower_snake(v: &Vec<char>) -> (r: bool)
    ensures
        r == lower_snake_ok(v@),
{
    let mut i: usize = 0;
    while i < v.len()
        invariant
            i <= v@.len(),
            forall|j: int| 0 <= j < i ==> !is_upper(#[trigger] v@[j]),
        decreases v@.len() - i,
    {
        if crate::chars::upper_check(v[i]) {
            return false;
        }
        i += 1;
    }
    true
}

fn scan_upper_snake(v: &Vec<char>) -> (r: bool)
    ensures
        r == upper_snake_ok(v@),
{
    let mut i: usize = 0;
    while i < v.len()
        invariant
            i <= v@.len(),
            forall|j: int| 0 <= j < i ==> !is_lower(#[trigger] v@[j]),
        decreases v@.len() - i,
    {
        if crate::chars::lower_check(v[i]) {
            return false;
        }
        i += 1;
    }
    true
}

fn map_case(v: &Vec<char>, upper: bool) -> (r: Vec<char>)
    ensures
        upper ==> r@ == raised(v@),
        !upper ==> r@ == lowered(v@),
{
    let mut out: Vec<char> = Vec::new();
    let mut i: usize = 0;
    while i < v.len()
        invariant
            i <= v@.len(),
            out@.len() == i,
            forall|j: int|
                0 <= j < i ==> #[trigger] out@[j] == (if upper {
                    to_upper(v@[j])
                } else {
                    to_lower(v@[j])
                }),
        decreases v@.len() - i,
    {
        if upper {
            out.push(upper_char(v[i]));
        } else {
            out.push(lower_char(v[i]));
        }
        i += 1;
    }
    proof {
        if upper {
            assert(out@ =~= raised(v@));
        } else {
            assert(out@ =~= lowered(v@));
        }
    }
    out
}

fn snake_convert(v: &Vec<char>, upper: bool) -> (r: Vec<char>)
    ensures
        r@ == snake_walk(v@, 0, upper),
{
    let mut out: Vec<char> = Vec::new();
    let mut i: usize = 0;
    while i < v.len()
        invariant
            i <= v@.len(),
            out@ + snake_walk(v@, i as int, upper) == snake_walk(v@, 0, upper),
        decreases v@.len() - i,
    {
        let ghost before = out@;
        let c = v[i];
        if crate::chars::upper_check(c) && i > 0 {
            out.push('_');
        }
        if upper {
            out.push(upper_char(c));
        } else {
            out.push(lower_char(c));
        }
        proof {
            let piece = (if is_upper(v@[i as int]) && i > 0 {
                seq!['_']
            } else {
                Seq::<char>::empty()
            }) + seq![if upper {
                to_upper(v@[i as int])
            } else {
                to_lower(v@[i as int])
            }];
            assert(out@ =~= before + piece);
            assert(snake_walk(v@, i as int, upper) == piece + snake_walk(v@, i + 1, upper));
            assert(out@ + snake_walk(v@, i + 1, upper) =~= before + snake_walk(v@, i as int, upper));
        }
        i += 1;
    }
    proof {
        assert(out@ + snake_walk(v@, v@.len() as int, upper) =~= out@);
    }
    out
}

fn camel_convert(v: &Vec<char>) -> (r: Vec<char>)
    ensures
        r@ == camel_walk(v@, 0, true, false),
{
    let mut out: Vec<char> = Vec::new();
    let mut new_word = true;
    let mut prev_lower = false;
    let mut i: usize = 0;
    while i < v.len()
        invariant
            i <= v@.len(),
            out@ + camel_walk(v@, i as int, new_word, prev_lower) == camel_walk(v@, 0, true, false),
        decreases v@.len() - i,
    {
        let ghost before = out@;
        let ghost nw0 = new_word;
        let ghost pl0 = prev_lower;
        let c = v[i];
        if c == '_' {
            new_word = true;
            prev_lower = false;
        } else {
            if prev_lower && crate::chars::upper_check(c) {
                new_word = true;
            }
            if new_word {
                out.push(upper_char(c));
            } else {
                out.push(lower_char(c));
            }
            new_word = false;
            prev_lower = crate::chars::lower_check(c);
        }
        proof {
            if v@[i as int] == '_' {
                assert(camel_walk(v@, i as int, nw0, pl0) == camel_walk(v@, i + 1, true, false));
            } else {
                let piece = seq![
                    if nw0 || (pl0 && is_upper(v@[i as int])) {
                        to_upper(v@[i as int])
                    } else {
                        to_lower(v@[i as int])
                    },
                ];
                assert(camel_walk(v@, i as int, nw0, pl0) == piece + camel_walk(
                    v@,
                    i + 1,
                    false,
                    is_lower(v@[i as int]),
                ));
                assert(out@ =~= before + piece);
                assert(out@ + camel_walk(v@, i + 1, false, is_lower(v@[i as int])) =~= before
                    + camel_walk(v@, i as int, nw0, pl0));
            }
        }
        i += 1;
    }
    proof {
        assert(out@ + camel_walk(v@, v@.len() as int, new_word, prev_lower) =~= out@);
    }
    out
}

/// Suggests a lower_snake_case form of `ident`, or `None` when it already
/// conforms.
pub fn to_lower_snake_case(ident: &str) -> (r: Option<String>)
    ensures
        suggestion_view(r) == lower_snake_suggestion(ident@),
{
    let v = str_chars(ident);
    if scan_lower_snake(&v) {
        return None;
    }
    if scan_upper_snake(&v) {
        return Some(chars_to_string(&map_case(&v, false)));
    }
    Some(chars_to_string(&snake_convert(&v, false)))
}

/// Suggests an UPPER_SNAKE_CASE form of `ident`, or `None` when it
/// already conforms.
pub fn to_upper_snake_case(ident: &str) -> (r: Option<String>)
    ensures
        suggestion_view(r) == upper_snake_suggestion(ident@),
{
    let v = str_chars(ident);
    if scan_upper_snake(&v) {
        return None;
    }
    if scan_lower_snake(&v) {
        return Some(chars_to_string(&map_case(&v, true)));
    }
    Some(chars_to_string(&snake_convert(&v, true)))
}

/// Suggests a CamelCase form of `ident`, or `None` when it already
/// conforms.
pub fn to_camel_case(ident: &str) -> (r: Option<String>)
    ensures
        suggestion_view(r) == camel_suggestion(ident@),
{
    let v = str_chars(ident);
    let conforming = if v.len() == 0 {
        true
    } else if crate::chars::lower_check(v[0]) {
        false
    } else {
        let mut ok = true;
        let mut i: usize = 0;
        while i < v.len()
            invariant
                i <= v@.len(),
                ok == forall|j: int| 0 <= j < i ==> v@[j] != '_',
            decreases v@.len() - i,
        {
            if v[i] == '_' {
                ok = false;
            }
            i += 1;
        }
        ok
    };
    proof {
        assert(conforming == camel_ok(v@));
    }
    if conforming {
        return None;
    }
    Some(chars_to_string(&camel_convert(&v)))
}

} // verus!
