//! A mathematical model of applying edit operations to a text.
//!
//! The engine never applies its own output; composing and applying edits
//! is the caller's side. This model exists so that laws about the
//! engine's output — that renaming back restores a text, that shorthand
//! expansion keeps the original text intact — can be stated and proved.
//! An operation is `(start, end, insert)`; a list of operations sorted by
//! position is applied back to front, so earlier offsets stay valid.

use vstd::prelude::*;

verus! {

/// One text replaced by another over `[start, end)`.
pub open spec fn splice(text: Seq<char>, start: int, end: int, ins: Seq<char>) -> Seq<char> {
    text.take(start) + ins + text.skip(end)
}

/// An operation lies within a text of length `n` and runs forward.
pub open spec fn op_in_text(op: (int, int, Seq<char>), n: int) -> bool {
    0 <= op.0 <= op.1 <= n
}

/// Operations ordered by position: each ends before the next begins.
pub open spec fn ops_ordered(ops: Seq<(int, int, Seq<char>)>) -> bool {
    forall|i: int, j: int|
        0 <= i < j < ops.len() ==> (#[trigger] ops[i]).1 <= (#[trigger] ops[j]).0
}

/// Applying a position-ordered operation list: the last operation first,
/// so the offsets of the remaining ones keep their meaning.
pub open spec fn apply_ops(text: Seq<char>, ops: Seq<(int, int, Seq<char>)>) -> Seq<char>
    decreases ops.len(),
{
    if ops.len() == 0 {
        text
    } else {
        apply_ops(splice(text, ops.last().0, ops.last().1, ops.last().2), ops.drop_last())
    }
}

/// How much a list of operations lengthens (or shortens) a text.
pub open spec fn ops_delta(ops: Seq<(int, int, Seq<char>)>) -> int
    decreases ops.len(),
{
    if ops.len() == 0 {
        0
    } else {
        ops_delta(ops.drop_last()) + ops.last().2.len() - (ops.last().1 - ops.last().0)
    }
}

/// Two splices over disjoint regions commute; the later region's offsets
/// shift by the earlier splice's delta.
pub proof fn lemma_splice_commute(
    text: Seq<char>,
    s1: int,
    e1: int,
    i1: Seq<char>,
    s2: int,
    e2: int,
    i2: Seq<char>,
)
    requires
        0 <= s1 <= e1 <= s2 <= e2 <= text.len(),
    ensures
        splice(splice(text, s2, e2, i2), s1, e1, i1) == splice(
            splice(text, s1, e1, i1),
            s2 + i1.len() - (e1 - s1),
            e2 + i1.len() - (e1 - s1),
            i2,
        ),
{
    let canonical = text.take(s1) + i1 + text.subrange(e1, s2) + i2 + text.skip(e2);
    let right = splice(text, s2, e2, i2);
    assert(splice(right, s1, e1, i1) =~= canonical) by {
        assert(right.take(s1) =~= text.take(s1));
        assert(right.skip(e1) =~= text.subrange(e1, s2) + i2 + text.skip(e2));
    }
    let d = i1.len() - (e1 - s1);
    let left = splice(text, s1, e1, i1);
    assert(splice(left, s2 + d, e2 + d, i2) =~= canonical) by {
        assert(left.take(s2 + d) =~= text.take(s1) + i1 + text.subrange(e1, s2));
        assert(left.skip(e2 + d) =~= text.skip(e2));
    }
}

/// Replacing a freshly spliced-in region replaces it wholesale: the
/// second splice forgets the first insertion.
pub proof fn lemma_splice_again(text: Seq<char>, a: int, b: int, x: Seq<char>, y: Seq<char>)
    requires
        0 <= a <= b <= text.len(),
    ensures
        splice(splice(text, a, b, x), a, a + x.len(), y) == splice(text, a, b, y),
{
    let once = splice(text, a, b, x);
    assert(splice(once, a, a + x.len(), y) =~= splice(text, a, b, y)) by {
        assert(once.take(a) =~= text.take(a));
        assert(once.skip(a + x.len()) =~= text.skip(b));
    }
}

/// Splicing back what a splice removed restores the text.
pub proof fn lemma_splice_undo(text: Seq<char>, a: int, b: int, x: Seq<char>)
    requires
        0 <= a <= b <= text.len(),
    ensures
        splice(splice(text, a, b, x), a, a + x.len(), text.subrange(a, b)) == text,
{
    lemma_splice_again(text, a, b, x, text.subrange(a, b));
    assert(splice(text, a, b, text.subrange(a, b)) =~= text);
}

/// A splice beyond every operation of an ordered list commutes with
/// applying the list, its offsets shifted by the list's delta.
pub proof fn lemma_apply_splice_commute(
    text: Seq<char>,
    ops: Seq<(int, int, Seq<char>)>,
    a: int,
    b: int,
    ins: Seq<char>,
)
    requires
        ops_ordered(ops),
        forall|i: int| 0 <= i < ops.len() ==> op_in_text(#[trigger] ops[i], text.len() as int),
        forall|i: int| 0 <= i < ops.len() ==> (#[trigger] ops[i]).1 <= a,
        a <= b <= text.len(),
    ensures
        apply_ops(splice(text, a, b, ins), ops) == splice(
            apply_ops(text, ops),
            a + ops_delta(ops),
            b + ops_delta(ops),
            ins,
        ),
    decreases ops.len(),
{
    if ops.len() == 0 {
    } else {
        let e = ops.last();
        let rest = ops.drop_last();
        let d = e.2.len() - (e.1 - e.0);
        let spliced_e = splice(text, e.0, e.1, e.2);
        lemma_splice_commute(text, e.0, e.1, e.2, a, b, ins);
        assert(splice(splice(text, a, b, ins), e.0, e.1, e.2) == splice(
            spliced_e,
            a + d,
            b + d,
            ins,
        ));
        assert forall|i: int| 0 <= i < rest.len() implies op_in_text(
            #[trigger] rest[i],
            spliced_e.len() as int,
        ) && rest[i].1 <= a + d by {
            assert(rest[i] == ops[i]);
            assert(ops[i].1 <= e.0);
            assert(e.0 <= e.1 - (e.1 - e.0) + e.2.len());
        }
        lemma_apply_splice_commute(spliced_e, rest, a + d, b + d, ins);
        assert(apply_ops(splice(text, a, b, ins), ops) == apply_ops(
            splice(splice(text, a, b, ins), e.0, e.1, e.2),
            rest,
        ));
        assert(ops_delta(ops) == ops_delta(rest) + d);
    }
}

} // verus!
