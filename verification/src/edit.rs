//! Text edits, file moves, and the change set a rename produces.
//!
//! A [`TextEdit`] is an ordered list of non-overlapping replace operations
//! scoped to one file; a [`SourceChange`] maps each touched file to exactly
//! one such edit and carries the scheduled file moves. Strategies produce a
//! flat list of per-file operations in whatever order resolution returned
//! them; [`SourceChange::from_ops`] groups them by file and keeps each
//! file's operations sorted, which is stated through the multiset of
//! operations [`change_ops`].

use crate::location::{FileId, TextRange};
use vstd::multiset::Multiset;
use vstd::prelude::*;
use vstd::seq_lib::lemma_multiset_commutative;

verus! {

/// One replace operation: delete the range, insert the text.
#[derive(Debug)]
pub struct Indel {
    pub insert: String,
    pub delete: TextRange,
}

/// The operations of one file's edit, each reduced to plain mathematical
/// values: (file, delete start, delete end, inserted text).
pub open spec fn op_of(file: FileId, ind: Indel) -> (int, int, int, Seq<char>) {
    (file.0 as int, ind.delete.start as int, ind.delete.end as int, ind.insert@)
}

/// `a` lies strictly before `b`: its deleted range ends where `b`'s begins
/// or earlier, and the two are not the same empty position.
pub open spec fn indel_before(a: Indel, b: Indel) -> bool {
    a.delete.end <= b.delete.start && (a.delete.start < b.delete.start || a.delete.end
        < b.delete.end)
}

/// Two operations on one file must be orderable; equal empty positions or
/// overlapping ranges are not.
pub open spec fn indel_separated(a: Indel, b: Indel) -> bool {
    indel_before(a, b) || indel_before(b, a)
}

impl Indel {
    pub open spec fn wf(self) -> bool {
        self.delete.wf()
    }

    pub fn replace(range: TextRange, insert: String) -> (r: Indel)
        ensures
            r.delete == range,
            r.insert == insert,
    {
        Indel { insert, delete: range }
    }

    /// An equal operation; `String` has no implicit copy.
    pub fn duplicate(&self) -> (r: Indel)
        ensures
            r == *self,
    {
        Indel { insert: self.insert.clone(), delete: self.delete }
    }

    pub fn before(&self, other: &Indel) -> (r: bool)
        ensures
            r == indel_before(*self, *other),
    {
        self.delete.end <= other.delete.start && (self.delete.start < other.delete.start
            || self.delete.end < other.delete.end)
    }
}

/// All operations of one file, ordered by position.
#[derive(Debug)]
pub struct TextEdit {
    pub indels: Vec<Indel>,
}

impl TextEdit {
    /// Operations are well-formed and strictly ordered, so no two overlap.
    pub open spec fn wf(self) -> bool {
        &&& forall|i: int| 0 <= i < self.indels@.len() ==> (#[trigger] self.indels@[i]).wf()
        &&& forall|i: int, j: int|
            0 <= i < j < self.indels@.len() ==> indel_before(
                #[trigger] self.indels@[i],
                #[trigger] self.indels@[j],
            )
    }
}

/// The edit of one file.
#[derive(Debug)]
pub struct SourceFileEdit {
    pub file_id: FileId,
    pub edit: TextEdit,
}

/// Relocation of a module's backing file: `dst` is resolved relative to
/// `anchor`'s directory.
#[derive(Debug)]
pub struct FileMove {
    pub src: FileId,
    pub anchor: FileId,
    pub dst: String,
}

/// The complete, atomic description of one rename: at most one edit per
/// file, the file moves, and whether any inserted text contains snippet
/// syntax (never, for a rename).
#[derive(Debug)]
pub struct SourceChange {
    pub source_file_edits: Vec<SourceFileEdit>,
    pub file_moves: Vec<FileMove>,
    pub is_snippet: bool,
}

/// The operations a file edit contributes, in order.
pub open spec fn edit_ops(e: SourceFileEdit) -> Seq<(int, int, int, Seq<char>)> {
    e.edit.indels@.map(|k: int, ind: Indel| op_of(e.file_id, ind))
}

/// All operations of a list of file edits, as a multiset: the order in
/// which files are listed carries no meaning.
pub open spec fn edits_ops(edits: Seq<SourceFileEdit>) -> Multiset<(int, int, int, Seq<char>)>
    decreases edits.len(),
{
    if edits.len() == 0 {
        Multiset::empty()
    } else {
        edits_ops(edits.drop_last()).add(edit_ops(edits.last()).to_multiset())
    }
}

/// Everything a change set does to file texts, reduced to one multiset.
pub open spec fn change_ops(sc: SourceChange) -> Multiset<(int, int, int, Seq<char>)> {
    edits_ops(sc.source_file_edits@)
}

/// The model of a flat operation list.
pub open spec fn ops_model(ops: Seq<(FileId, Indel)>) -> Seq<(int, int, int, Seq<char>)> {
    ops.map(|k: int, p: (FileId, Indel)| op_of(p.0, p.1))
}

/// A flat operation list the aggregator accepts: every operation
/// well-formed, and any two on the same file orderable.
pub open spec fn ops_wf(ops: Seq<(FileId, Indel)>) -> bool {
    &&& forall|i: int| 0 <= i < ops.len() ==> (#[trigger] ops[i]).1.wf()
    &&& forall|i: int, j: int|
        0 <= i < ops.len() && 0 <= j < ops.len() && i != j && (#[trigger] ops[i]).0 == (
        #[trigger] ops[j]).0 ==> indel_separated(ops[i].1, ops[j].1)
}

impl SourceChange {
    /// One merged edit per file, each well-formed and non-empty.
    pub open spec fn wf(self) -> bool {
        &&& forall|i: int|
            0 <= i < self.source_file_edits@.len() ==> (#[trigger] self.source_file_edits@[i]).edit.wf()
        &&& forall|i: int|
            0 <= i < self.source_file_edits@.len()
                ==> (#[trigger] self.source_file_edits@[i]).edit.indels@.len() > 0
        &&& forall|i: int, j: int|
            0 <= i < j < self.source_file_edits@.len()
                ==> (#[trigger] self.source_file_edits@[i]).file_id.0
                != (#[trigger] self.source_file_edits@[j]).file_id.0
    }

    /// Groups a flat list of per-file operations into one change set: one
    /// edit per file, operations of a file in positional order. The whole
    /// operation multiset is preserved exactly.
    pub fn from_ops(ops: &Vec<(FileId, Indel)>, file_moves: Vec<FileMove>) -> (r: SourceChange)
        requires
            ops_wf(ops@),
        ensures
            r.wf(),
            change_ops(r) == ops_model(ops@).to_multiset(),
            r.file_moves == file_moves,
            r.is_snippet == false,
    {
        let mut edits: Vec<SourceFileEdit> = Vec::new();
        proof {
            let e = ops_model(ops@.take(0));
            assert(e =~= Seq::<(int, int, int, Seq<char>)>::empty());
            e.to_multiset_ensures();
            assert(e.to_multiset().len() == 0);
            assert(e.to_multiset() =~= Multiset::empty());
        }
        let mut i: usize = 0;
        while i < ops.len()
            invariant
                ops_wf(ops@),
                i <= ops@.len(),
                edits_wf(edits@),
                edits_ops(edits@) == ops_model(ops@.take(i as int)).to_multiset(),
                forall|op: (int, int, int, Seq<char>)|
                    edits_ops(edits@).contains(op) ==> exists|j: int|
                        0 <= j < i && op == #[trigger] ops_model(ops@)[j],
            decreases ops@.len() - i,
        {
            let file = ops[i].0;
            let ind = ops[i].1.duplicate();
            proof {
                let m = ops_model(ops@);
                assert forall|op: (int, int, int, Seq<char>)|
                    edits_ops(edits@).contains(op) && op.0 == file.0 as int implies op_separated(
                    op,
                    op_of(file, ind),
                ) by {
                    let j = choose|j: int| 0 <= j < i && op == ops_model(ops@)[j];
                    assert(op == op_of(ops@[j].0, ops@[j].1));
                    assert(indel_separated(ops@[j].1, ops@[i as int].1));
                }
            }
            insert_op(&mut edits, file, ind);
            proof {
                let m = ops_model(ops@);
                assert(m.take(i + 1) =~= m.take(i as int).push(m[i as int]));
                m.take(i as int).to_multiset_ensures();
                assert(ops_model(ops@.take(i + 1)) =~= m.take(i + 1));
                assert(ops_model(ops@.take(i as int)) =~= m.take(i as int));
                assert(edits_ops(edits@) == ops_model(ops@.take(i + 1)).to_multiset());
            }
            i += 1;
        }
        proof {
            assert(ops@.take(ops@.len() as int) =~= ops@);
        }
        SourceChange { source_file_edits: edits, file_moves, is_snippet: false }
    }
}

/// Well-formedness of the growing edit list: same as
/// [`SourceChange::wf`], stated on the list itself.
pub open spec fn edits_wf(edits: Seq<SourceFileEdit>) -> bool {
    &&& forall|i: int| 0 <= i < edits.len() ==> (#[trigger] edits[i]).edit.wf()
    &&& forall|i: int| 0 <= i < edits.len() ==> (#[trigger] edits[i]).edit.indels@.len() > 0
    &&& forall|i: int, j: int|
        0 <= i < j < edits.len() ==> (#[trigger] edits[i]).file_id.0 != (
        #[trigger] edits[j]).file_id.0
}

/// Separation, stated on operation models: only the file and the deleted
/// range decide it.
pub open spec fn op_separated(a: (int, int, int, Seq<char>), b: (int, int, int, Seq<char>)) -> bool {
    (a.2 <= b.1 && (a.1 < b.1 || a.2 < b.2)) || (b.2 <= a.1 && (b.1 < a.1 || b.2 < a.2))
}

proof fn lemma_edits_ops_remove(edits: Seq<SourceFileEdit>, m: int)
    requires
        0 <= m < edits.len(),
    ensures
        edits_ops(edits) =~= edits_ops(edits.remove(m)).add(edit_ops(edits[m]).to_multiset()),
    decreases edits.len(),
{
    if m == edits.len() - 1 {
        assert(edits.remove(m) =~= edits.drop_last());
    } else {
        assert(edits.remove(m).drop_last() =~= edits.drop_last().remove(m));
        assert(edits.remove(m).last() == edits.last());
        lemma_edits_ops_remove(edits.drop_last(), m);
    }
}

/// Inserting one well-formed operation, separated from everything already
/// recorded for its file, grows the operation multiset by exactly that
/// operation and keeps the list well-formed.
fn insert_op(edits: &mut Vec<SourceFileEdit>, file: FileId, ind: Indel)
    requires
        edits_wf(old(edits)@),
        ind.wf(),
        forall|op: (int, int, int, Seq<char>)|
            edits_ops(old(edits)@).contains(op) && op.0 == file.0 as int ==> op_separated(
                op,
                op_of(file, ind),
            ),
    ensures
        edits_wf(final(edits)@),
        edits_ops(final(edits)@) =~= edits_ops(old(edits)@).insert(op_of(file, ind)),
{
    broadcast use vstd::seq_lib::group_to_multiset_ensures;

    let ghost orig = edits@;
    let mut m: usize = 0;
    while m < edits.len() && edits[m].file_id.0 != file.0
        invariant
            edits@ == orig,
            m <= orig.len(),
            forall|j: int| 0 <= j < m ==> (#[trigger] orig[j]).file_id.0 != file.0,
        decreases orig.len() - m,
    {
        m += 1;
    }
    if m == edits.len() {
        let single = TextEdit { indels: vec![ind] };
        let entry = SourceFileEdit { file_id: file, edit: single };
        proof {
            assert(edit_ops(entry) =~= Seq::empty().push(op_of(file, ind)));
            Seq::<(int, int, int, Seq<char>)>::empty().to_multiset_ensures();
            assert(Seq::<(int, int, int, Seq<char>)>::empty().to_multiset().len() == 0);
            assert(Seq::<(int, int, int, Seq<char>)>::empty().to_multiset() =~= Multiset::empty());
        }
        edits.push(entry);
        proof {
            assert(edits@.drop_last() =~= orig);
            assert(edits@.last() == entry);
            assert(edit_ops(entry).to_multiset() =~= Multiset::empty().insert(op_of(file, ind)));
            assert(edits_ops(edits@) =~= edits_ops(orig).insert(op_of(file, ind)));
        }
        return;
    }
    // The file already has an edit: put the new operation at its place in
    // positional order.
    let ghost old_entry = orig[m as int];
    proof {
        lemma_edits_ops_remove(orig, m as int);
        assert forall|j: int| 0 <= j < old_entry.edit.indels@.len() implies indel_separated(
            #[trigger] old_entry.edit.indels@[j],
            ind,
        ) by {
            let op = edit_ops(old_entry)[j];
            edit_ops(old_entry).to_multiset_ensures();
            assert(edit_ops(old_entry).contains(op));
            assert(edits_ops(orig).count(op) >= edit_ops(old_entry).to_multiset().count(op));
            assert(edits_ops(orig).contains(op));
            assert(op == op_of(old_entry.file_id, old_entry.edit.indels@[j]));
            assert(op_separated(op, op_of(file, ind)));
        }
    }
    let mut entry = edits.remove(m);
    let ghost removed = edits@;
    let mut k: usize = 0;
    while k < entry.edit.indels.len() && entry.edit.indels[k].before(&ind)
        invariant
            entry == old_entry,
            k <= entry.edit.indels@.len(),
            forall|j: int| 0 <= j < k ==> indel_before(#[trigger] entry.edit.indels@[j], ind),
        decreases entry.edit.indels@.len() - k,
    {
        k += 1;
    }
    proof {
        if k < entry.edit.indels@.len() {
            assert(indel_separated(entry.edit.indels@[k as int], ind));
            assert(indel_before(ind, entry.edit.indels@[k as int]));
        }
    }
    let ghost old_indels = entry.edit.indels@;
    entry.edit.indels.insert(k, ind);
    proof {
        let s = old_indels;
        let t = entry.edit.indels@;
        assert(t == s.insert(k as int, ind));
        // Order around the insertion point.
        assert forall|x: int, y: int| 0 <= x < y < t.len() implies indel_before(
            #[trigger] t[x],
            #[trigger] t[y],
        ) by {
            if y < k {
                assert(t[x] == s[x] && t[y] == s[y]);
            } else if x > k {
                assert(t[x] == s[x - 1] && t[y] == s[y - 1]);
            } else if x == k {
                assert(t[x] == ind && t[y] == s[y - 1]);
                if y - 1 > k {
                    assert(indel_before(ind, s[k as int]));
                    assert(indel_before(s[k as int], s[y - 1]));
                } else {
                    assert(indel_before(ind, s[y - 1]));
                }
            } else if y == k {
                assert(t[x] == s[x] && t[y] == ind);
            } else {
                // x < k < y
                assert(t[x] == s[x] && t[y] == s[y - 1]);
                if y - 1 == k {
                    assert(indel_before(s[x], ind));
                } else {
                    assert(indel_before(s[x], s[y - 1]));
                }
            }
        }
        // The multiset of the file's operations grew by the new one.
        let f = |q: int, d: Indel| op_of(file, d);
        let news = entry;
        assert(news.file_id == old_entry.file_id);
        assert(edit_ops(news) =~= edit_ops(old_entry).insert(k as int, op_of(file, ind))) by {
            assert forall|q: int| 0 <= q < edit_ops(news).len() implies edit_ops(news)[q]
                == edit_ops(old_entry).insert(k as int, op_of(file, ind))[q] by {
                s.insert_ensures(k as int, ind);
                edit_ops(old_entry).insert_ensures(k as int, op_of(file, ind));
            }
        }
        let e0 = edit_ops(old_entry);
        let x = op_of(file, ind);
        assert(e0.insert(k as int, x) == e0.subrange(0, k as int).push(x) + e0.subrange(
            k as int,
            e0.len() as int,
        ));
        lemma_multiset_commutative(e0.subrange(0, k as int).push(x), e0.subrange(
            k as int,
            e0.len() as int,
        ));
        lemma_multiset_commutative(e0.subrange(0, k as int), e0.subrange(k as int, e0.len() as int));
        assert(e0.subrange(0, k as int) + e0.subrange(k as int, e0.len() as int) =~= e0);
        e0.subrange(0, k as int).to_multiset_ensures();
        assert(edit_ops(news).to_multiset() =~= e0.to_multiset().insert(x)) by {
            assert(e0.subrange(0, k as int).push(x).to_multiset() =~= e0.subrange(
                0,
                k as int,
            ).to_multiset().insert(x));
            broadcast use vstd::multiset::group_multiset_axioms;

            assert(edit_ops(news).to_multiset() =~= e0.subrange(0, k as int).to_multiset().insert(
                x,
            ).add(e0.subrange(k as int, e0.len() as int).to_multiset()));
            assert(e0.to_multiset() =~= e0.subrange(0, k as int).to_multiset().add(e0.subrange(
                k as int,
                e0.len() as int,
            ).to_multiset()));
        }
    }
    edits.push(entry);
    proof {
        assert(edits@.drop_last() =~= removed);
        assert(edits_ops(edits@) =~= edits_ops(removed).add(
            edit_ops(old_entry).to_multiset().insert(op_of(file, ind)),
        ));
        broadcast use vstd::multiset::group_multiset_axioms;

        assert(edits_ops(edits@) =~= edits_ops(orig).insert(op_of(file, ind)));
        // Distinct files: the re-inserted entry keeps the only edit for
        // this file, and every other entry kept its file.
        assert forall|x: int, y: int|
            0 <= x < y < edits@.len() implies (#[trigger] edits@[x]).file_id.0 != (
        #[trigger] edits@[y]).file_id.0 by {
            orig.remove_ensures(m as int);
            if y == edits@.len() - 1 {
                assert(edits@[y].file_id.0 == file.0);
                if x < m {
                    assert(edits@[x] == orig[x]);
                } else {
                    assert(edits@[x] == orig[x + 1]);
                }
            } else {
                if x < m {
                    assert(edits@[x] == orig[x]);
                } else {
                    assert(edits@[x] == orig[x + 1]);
                }
                if y < m {
                    assert(edits@[y] == orig[y]);
                } else {
                    assert(edits@[y] == orig[y + 1]);
                }
            }
        }
    }
}

} // verus!
