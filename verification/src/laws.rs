//! Laws of the rename engine, stated against the application model.
//!
//! Each proof function here relates the operations the strategies promise
//! in their contracts (`ref_op`, `receiver_text`, `param_text`) to what
//! happens when a caller applies them to a text with
//! [`crate::apply::apply_ops`].

use crate::apply::{
    apply_ops, lemma_apply_splice_commute, lemma_splice_again, lemma_splice_undo, op_in_text,
    ops_delta, ops_ordered, splice,
};
use crate::ident::{spec_classify, NameKind};
use crate::location::{FilePosition, RangeInfo, TextRange};
use crate::rename::{
    failed_with, msg_invalid_name, param_text, receiver_text, ref_op, rename_post, Reference,
    ReferenceKind, RenameError, RenameErrorKind, Snapshot,
};
use vstd::prelude::*;

verus! {

/// The validator gates every strategy. A proposed name that is not one
/// bare identifier, the wildcard, or the receiver keyword fails the
/// whole rename with `InvalidIdentifier`, whatever sits under the
/// cursor; and for an accepted identifier or the wildcard, validation
/// never rejects — any failure then is a strategy's own, never
/// `InvalidIdentifier`.
pub proof fn lemma_validator_gates_rename(
    position: FilePosition,
    nn: Seq<char>,
    s: Snapshot,
    r: Result<RangeInfo<crate::edit::SourceChange>, RenameError>,
)
    requires
        rename_post(position, nn, s, r),
    ensures
        spec_classify(nn) == NameKind::Invalid ==> failed_with(
            r,
            RenameErrorKind::InvalidIdentifier,
            msg_invalid_name(nn),
        ),
        spec_classify(nn) == NameKind::Ident || spec_classify(nn) == NameKind::Underscore ==> !(
        r matches Err(e) && e.kind == RenameErrorKind::InvalidIdentifier),
{
}

/// The in-file part of a reference's operation: what [`ref_op`] does to
/// the text, with the file identifier dropped.
pub open spec fn local_ref_op(r: Reference, nn: Seq<char>) -> (int, int, Seq<char>) {
    let op = ref_op(r, nn);
    (op.1, op.2, op.3)
}

/// Substituting `nn` at each of `positions`, every occurrence `width`
/// characters wide.
pub open spec fn sub_ops(positions: Seq<int>, width: int, nn: Seq<char>) -> Seq<
    (int, int, Seq<char>),
> {
    positions.map(|k: int, p: int| (p, p + width, nn))
}

/// Each position shifted by `k * d`: where the `k`-th occurrence sits
/// after every earlier occurrence changed the text's length by `d`.
pub open spec fn shifted(positions: Seq<int>, d: int) -> Seq<int> {
    positions.map(|k: int, p: int| p + k * d)
}

/// `positions` are occurrences of `name` in `text`, in ascending order
/// and non-overlapping.
pub open spec fn occurrence_positions(text: Seq<char>, positions: Seq<int>, name: Seq<char>) -> bool {
    &&& forall|i: int|
        0 <= i < positions.len() ==> 0 <= #[trigger] positions[i] && positions[i] + name.len()
            <= text.len()
    &&& forall|i: int|
        0 <= i < positions.len() ==> text.subrange(
            #[trigger] positions[i],
            positions[i] + name.len(),
        ) == name
    &&& forall|i: int|
        0 <= i && i + 1 < positions.len() ==> #[trigger] positions[i] + name.len() <= positions[i + 1]
}

proof fn lemma_positions_chain(positions: Seq<int>, width: int, i: int, j: int)
    requires
        width >= 0,
        forall|k: int| 0 <= k && k + 1 < positions.len() ==> #[trigger] positions[k] + width
            <= positions[k + 1],
        0 <= i < j < positions.len(),
    ensures
        positions[i] + width <= positions[j],
    decreases j - i,
{
    if i + 1 < j {
        lemma_positions_chain(positions, width, i + 1, j);
    }
}

proof fn lemma_sub_ops_delta(positions: Seq<int>, width: int, nn: Seq<char>)
    ensures
        ops_delta(sub_ops(positions, width, nn)) == positions.len() * (nn.len() - width),
    decreases positions.len(),
{
    let ops = sub_ops(positions, width, nn);
    if positions.len() == 0 {
        assert(ops.len() == 0);
    } else {
        let k = positions.len() - 1;
        assert(ops.drop_last() =~= sub_ops(positions.drop_last(), width, nn));
        lemma_sub_ops_delta(positions.drop_last(), width, nn);
        let dd = nn.len() - width;
        assert((k + 1) * dd == k * dd + dd) by (nonlinear_arith);
        assert(positions.len() == k + 1);
    }
}

/// Renaming every occurrence of `old_name` to `new_name` and then, on the
/// result, renaming every occurrence of `new_name` (now sitting at the
/// shifted positions) back to `old_name` restores the original text
/// exactly. This is the round trip of the general reference-rename
/// strategy on plain occurrences: its operations on one file are exactly
/// [`sub_ops`] of the occurrence positions (see
/// [`lemma_plain_refs_are_sub_ops`]).
pub proof fn lemma_rename_round_trip(
    text: Seq<char>,
    positions: Seq<int>,
    old_name: Seq<char>,
    new_name: Seq<char>,
)
    requires
        occurrence_positions(text, positions, old_name),
    ensures
        apply_ops(
            apply_ops(text, sub_ops(positions, old_name.len() as int, new_name)),
            sub_ops(
                shifted(positions, new_name.len() - old_name.len()),
                new_name.len() as int,
                old_name,
            ),
        ) == text,
    decreases positions.len(),
{
    let lo = old_name.len() as int;
    let ln = new_name.len() as int;
    let d = ln - lo;
    let fwd = sub_ops(positions, lo, new_name);
    let back = sub_ops(shifted(positions, d), ln, old_name);
    if positions.len() == 0 {
        assert(apply_ops(text, fwd) == text);
        assert(apply_ops(text, back) == text);
    } else {
        let k = positions.len() - 1;
        let p = positions[k];
        let prefix = positions.take(k);
        let fwdk = sub_ops(prefix, lo, new_name);
        let backk = sub_ops(shifted(prefix, d), ln, old_name);
        let text_a = splice(text, p, p + lo, new_name);

        assert forall|i: int| 0 <= i < k implies #[trigger] positions[i] + lo <= p by {
            lemma_positions_chain(positions, lo, i, k);
        }

        // The earlier occurrences survive the last splice untouched.
        assert(occurrence_positions(text_a, prefix, old_name)) by {
            assert(text_a.len() == text.len() + ln - lo);
            assert(p + lo <= text.len());
            assert forall|i: int| 0 <= i < prefix.len() implies 0 <= #[trigger] prefix[i]
                && prefix[i] + lo <= text_a.len() by {
                assert(prefix[i] == positions[i]);
                assert(positions[i] + lo <= p);
            }
            assert forall|i: int| 0 <= i < prefix.len() implies text_a.subrange(
                #[trigger] prefix[i],
                prefix[i] + lo,
            ) == old_name by {
                assert(text_a.subrange(prefix[i], prefix[i] + lo) =~= text.subrange(
                    positions[i],
                    positions[i] + lo,
                ));
            }
            assert forall|i: int| 0 <= i && i + 1 < prefix.len() implies #[trigger] prefix[i] + lo
                <= prefix[i + 1] by {
                assert(prefix[i] == positions[i] && prefix[i + 1] == positions[i + 1]);
            }
        }

        // Peel the last forward operation.
        assert(fwd.last() == (p, p + lo, new_name));
        assert(fwd.drop_last() =~= fwdk);
        assert(apply_ops(text, fwd) == apply_ops(text_a, fwdk));

        // Peel the last backward operation.
        let q = p + k * d;
        assert(shifted(positions, d).last() == q);
        assert(back.last() == (q, q + ln, old_name));
        assert(back.drop_last() =~= backk) by {
            assert(shifted(positions, d).take(k) =~= shifted(prefix, d));
        }
        let text2 = apply_ops(text, fwd);
        assert(apply_ops(text2, back) == apply_ops(splice(text2, q, q + ln, old_name), backk));

        // The backward splice of the last occurrence commutes past the
        // earlier forward operations and undoes the forward splice.
        assert(ops_ordered(fwdk)) by {
            assert forall|i: int, j: int| 0 <= i < j < fwdk.len() implies (#[trigger] fwdk[i]).1
                <= (#[trigger] fwdk[j]).0 by {
                lemma_positions_chain(positions, lo, i, j);
            }
        }
        assert forall|i: int| 0 <= i < fwdk.len() implies op_in_text(
            #[trigger] fwdk[i],
            text_a.len() as int,
        ) && fwdk[i].1 <= p by {
            assert(fwdk[i] == (positions[i], positions[i] + lo, new_name));
        }
        lemma_sub_ops_delta(prefix, lo, new_name);
        assert(ops_delta(fwdk) == k * d);
        lemma_apply_splice_commute(text_a, fwdk, p, p + ln, old_name);
        assert(splice(text2, q, q + ln, old_name) == apply_ops(
            splice(text_a, p, p + ln, old_name),
            fwdk,
        ));
        lemma_splice_undo(text, p, p + lo, new_name);
        assert(text.subrange(p, p + lo) == old_name);
        assert(splice(text_a, p, p + ln, old_name) == text);

        // What remains is the round trip of the earlier occurrences.
        assert(occurrence_positions(text, prefix, old_name));
        lemma_rename_round_trip(text, prefix, old_name, new_name);
        assert(apply_ops(apply_ops(text, fwdk), backk) == text);
    }
}

/// The operations the reference-rename strategy promises for plain
/// occurrences of width `width` are exactly the substitution operations
/// of their positions.
pub proof fn lemma_plain_refs_are_sub_ops(rs: Seq<Reference>, width: int, nn: Seq<char>)
    requires
        forall|i: int| 0 <= i < rs.len() ==> (#[trigger] rs[i]).kind == ReferenceKind::Other,
        forall|i: int|
            0 <= i < rs.len() ==> (#[trigger] rs[i]).range.end == rs[i].range.start + width,
    ensures
        rs.map(|k: int, r: Reference| local_ref_op(r, nn)) =~= sub_ops(
            rs.map(|k: int, r: Reference| r.range.start as int),
            width,
            nn,
        ),
{
}

/// Expanding the field side of a record shorthand inserts
/// `new_name: ` in front of the occurrence and deletes nothing: the
/// original occurrence text survives in full right after the insertion.
pub proof fn lemma_shorthand_field_expansion(text: Seq<char>, r: Reference, nn: Seq<char>)
    requires
        r.kind == ReferenceKind::FieldShorthandForField,
        r.range.wf(),
        r.range.end <= text.len(),
    ensures
        ({
            let op = local_ref_op(r, nn);
            apply_ops(text, seq![op]) == text.take(r.range.start as int) + nn + ": "@
                + text.subrange(r.range.start as int, r.range.end as int) + text.skip(
                r.range.end as int,
            )
        }),
{
    let op = local_ref_op(r, nn);
    let a = r.range.start as int;
    let b = r.range.end as int;
    assert(apply_ops(text, seq![op]) == splice(text, a, a, nn + ": "@)) by {
        assert(op == (a, a, nn + ": "@));
        assert(seq![op].last() == op);
        assert(seq![op].drop_last() =~= Seq::<(int, int, Seq<char>)>::empty());
        assert(apply_ops(splice(text, a, a, nn + ": "@), Seq::<(int, int, Seq<char>)>::empty())
            == splice(text, a, a, nn + ": "@));
    }
    assert(splice(text, a, a, nn + ": "@) =~= text.take(a) + nn + ": "@ + text.subrange(a, b)
        + text.skip(b));
}

/// Expanding the local side of a record shorthand inserts `: new_name`
/// after the occurrence and deletes nothing.
pub proof fn lemma_shorthand_local_expansion(text: Seq<char>, r: Reference, nn: Seq<char>)
    requires
        r.kind == ReferenceKind::FieldShorthandForLocal,
        r.range.wf(),
        r.range.end <= text.len(),
    ensures
        ({
            let op = local_ref_op(r, nn);
            apply_ops(text, seq![op]) == text.take(r.range.start as int) + text.subrange(
                r.range.start as int,
                r.range.end as int,
            ) + ": "@ + nn + text.skip(r.range.end as int)
        }),
{
    let op = local_ref_op(r, nn);
    let a = r.range.start as int;
    let b = r.range.end as int;
    assert(apply_ops(text, seq![op]) == splice(text, b, b, ": "@ + nn)) by {
        assert(op == (b, b, ": "@ + nn));
        assert(seq![op].last() == op);
        assert(seq![op].drop_last() =~= Seq::<(int, int, Seq<char>)>::empty());
        assert(apply_ops(splice(text, b, b, ": "@ + nn), Seq::<(int, int, Seq<char>)>::empty())
            == splice(text, b, b, ": "@ + nn));
    }
    assert(splice(text, b, b, ": "@ + nn) =~= text.take(a) + text.subrange(a, b) + ": "@ + nn
        + text.skip(b));
}

/// The receiver conversions invert each other on the declaration. A
/// parameter declaration spelled `name: &Type` or `name: &mut Type`,
/// rewritten by the parameter-to-receiver strategy into the receiver
/// declaration of the same mutability, and then rewritten back by the
/// receiver-to-parameter strategy with a new name, ends as a parameter
/// declaration with the original subject type and the original
/// mutability; with the original name it restores the text exactly.
pub proof fn lemma_receiver_conversion_round_trip(
    text: Seq<char>,
    param: TextRange,
    name0: Seq<char>,
    mutable: bool,
    ty: Seq<char>,
    name1: Seq<char>,
)
    requires
        param.wf(),
        param.end <= text.len(),
        text.subrange(param.start as int, param.end as int) == param_text(name0, mutable, ty),
    ensures
        ({
            let text1 = splice(
                text,
                param.start as int,
                param.end as int,
                receiver_text(mutable),
            );
            splice(
                text1,
                param.start as int,
                param.start + receiver_text(mutable).len(),
                param_text(name1, mutable, ty),
            ) == splice(text, param.start as int, param.end as int, param_text(name1, mutable, ty))
        }),
        name1 == name0 ==> splice(
            splice(text, param.start as int, param.end as int, receiver_text(mutable)),
            param.start as int,
            param.start + receiver_text(mutable).len(),
            param_text(name1, mutable, ty),
        ) == text,
{
    let a = param.start as int;
    let b = param.end as int;
    lemma_splice_again(text, a, b, receiver_text(mutable), param_text(name1, mutable, ty));
    if name1 == name0 {
        assert(splice(text, a, b, param_text(name1, mutable, ty)) =~= text);
    }
}

} // verus!
