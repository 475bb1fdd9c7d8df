//! The rename engine: strategies, dispatch, and the error taxonomy.
//!
//! All semantic queries (reference resolution, classification of the
//! position, module sources, enclosing functions) are external: their
//! answers arrive as plain values in a [`Snapshot`]. Every function here
//! is pure; the caller applies the returned [`SourceChange`] itself.

use crate::chars::str_chars;
use crate::edit::{
    change_ops, op_of, ops_model, ops_wf, FileMove, Indel, SourceChange,
};
use crate::ident::{classify_name, spec_classify, NameKind};
use crate::location::{FileId, FilePosition, RangeInfo, TextRange};
use vstd::prelude::*;
use vstd::string::StringExecFns;

verus! {

/// Why a rename was refused. Every variant is terminal for the request;
/// nothing is retried and no partial change is ever returned.
#[derive(Clone, Copy, PartialEq, Eq, Structural, Debug)]
pub enum RenameErrorKind {
    /// The proposed name is not one bare identifier or wildcard.
    InvalidIdentifier,
    /// Reference resolution failed or found nothing to edit.
    NoReferencesFound,
    /// A receiver conversion was asked for outside any function.
    NoSurroundingFunction,
    /// The function has no parameter to turn into a receiver.
    NoParameterList,
    /// The function already declares a receiver.
    AlreadyHasSelf,
    /// The first parameter's type is not a plain reference type.
    UnsupportedParamType,
    /// No resolved reference lies in the first parameter's declaration.
    ParameterNotFound,
    /// The enclosing implementation's subject type could not be named.
    NoTargetTypeFound,
}

/// A refused rename: the kind of failure and a one-line message.
#[derive(Debug)]
pub struct RenameError {
    pub kind: RenameErrorKind,
    pub message: String,
}

impl RenameError {
    /// The user-facing one-line message.
    pub fn render(&self) -> (r: &str)
        ensures
            r@ == self.message@,
    {
        self.message.as_str()
    }
}

/// The role a resolved occurrence plays.
#[derive(Clone, Copy, PartialEq, Eq, Structural, Debug)]
pub enum ReferenceKind {
    /// The field side of a record-shorthand occurrence.
    FieldShorthandForField,
    /// The bound-local side of a record-shorthand occurrence.
    FieldShorthandForLocal,
    /// Any plain occurrence.
    Other,
}

/// One resolved occurrence of the symbol being renamed.
#[derive(Clone, Copy, PartialEq, Eq, Structural, Debug)]
pub struct Reference {
    pub file_id: FileId,
    pub range: TextRange,
    pub kind: ReferenceKind,
}

/// The answer of the reference-resolution query: the primary range at the
/// cursor and every occurrence of the symbol.
#[derive(Debug)]
pub struct SymbolRefs {
    pub range: TextRange,
    pub references: Vec<Reference>,
}

/// Resolved references are well-formed occurrences: each range runs
/// forward, and two occurrences in one file never touch, since two
/// identifier tokens always have other text between them.
pub open spec fn references_wf(rs: Seq<Reference>) -> bool {
    &&& forall|i: int| 0 <= i < rs.len() ==> (#[trigger] rs[i]).range.wf()
    &&& forall|i: int, j: int|
        0 <= i < rs.len() && 0 <= j < rs.len() && i != j && (#[trigger] rs[i]).file_id == (
        #[trigger] rs[j]).file_id ==> rs[i].range.end < rs[j].range.start || rs[j].range.end
            < rs[i].range.start
}

pub open spec fn symbol_refs_wf(sr: SymbolRefs) -> bool {
    sr.range.wf() && references_wf(sr.references@)
}

/// The operation one occurrence turns into, as a plain value. A plain
/// occurrence is replaced by the new name; a shorthand occurrence is
/// expanded by inserting one half of the explicit `field: local` pair
/// next to it, leaving the occurrence's own text untouched.
pub open spec fn ref_op(r: Reference, nn: Seq<char>) -> (int, int, int, Seq<char>) {
    match r.kind {
        ReferenceKind::FieldShorthandForField => (
            r.file_id.0 as int,
            r.range.start as int,
            r.range.start as int,
            nn + ": "@,
        ),
        ReferenceKind::FieldShorthandForLocal => (
            r.file_id.0 as int,
            r.range.end as int,
            r.range.end as int,
            ": "@ + nn,
        ),
        ReferenceKind::Other => (
            r.file_id.0 as int,
            r.range.start as int,
            r.range.end as int,
            nn,
        ),
    }
}

/// The operations of a whole reference list, in resolution order.
pub open spec fn refs_ops(rs: Seq<Reference>, nn: Seq<char>) -> Seq<(int, int, int, Seq<char>)> {
    rs.map(|k: int, r: Reference| ref_op(r, nn))
}

/// Turns one resolved occurrence into its file's operation.
pub fn source_edit_from_reference(reference: &Reference, new_name: &str) -> (r: (FileId, Indel))
    requires
        reference.range.wf(),
    ensures
        r.0 == reference.file_id,
        r.1.wf(),
        reference.range.start <= r.1.delete.start,
        r.1.delete.end <= reference.range.end,
        op_of(r.0, r.1) == ref_op(*reference, new_name@),
{
    match reference.kind {
        ReferenceKind::FieldShorthandForField => {
            let mut text = new_name.to_owned();
            text.append(": ");
            (
                reference.file_id,
                Indel::replace(TextRange::empty(reference.range.start), text),
            )
        },
        ReferenceKind::FieldShorthandForLocal => {
            let mut text = String::from_str(": ");
            text.append(new_name);
            (
                reference.file_id,
                Indel::replace(TextRange::empty(reference.range.end), text),
            )
        },
        ReferenceKind::Other => (
            reference.file_id,
            Indel::replace(reference.range, new_name.to_owned()),
        ),
    }
}

pub open spec fn msg_invalid_name(nn: Seq<char>) -> Seq<char> {
    "Invalid name `"@ + nn + "`: not an identifier"@
}

pub open spec fn msg_no_references() -> Seq<char> {
    "No references found at position"@
}

pub open spec fn msg_no_reference() -> Seq<char> {
    "No reference found at position"@
}

pub open spec fn msg_no_function() -> Seq<char> {
    "No surrounding method declaration found"@
}

pub open spec fn msg_no_parameters() -> Seq<char> {
    "Method has no parameters"@
}

pub open spec fn msg_already_self() -> Seq<char> {
    "Method already has a self parameter"@
}

pub open spec fn msg_other_type() -> Seq<char> {
    "Not renaming other types"@
}

pub open spec fn msg_parameter_not_found() -> Seq<char> {
    "Parameter to rename not found"@
}

pub open spec fn msg_no_target_type() -> Seq<char> {
    "No target type found"@
}

/// The result is the given failure, message included.
pub open spec fn failed_with(
    r: Result<RangeInfo<SourceChange>, RenameError>,
    kind: RenameErrorKind,
    msg: Seq<char>,
) -> bool {
    r matches Err(e) && e.kind == kind && e.message@ == msg
}

fn fail(kind: RenameErrorKind, text: &str) -> (r: RenameError)
    ensures
        r.kind == kind,
        r.message@ == text@,
{
    RenameError { kind, message: text.to_owned() }
}

/// What the general reference-rename strategy returns: an error when
/// resolution failed or produced nothing, otherwise the change whose
/// operations are exactly those of the resolved occurrences, with no file
/// move.
pub open spec fn reference_rename_post(
    refs: Option<SymbolRefs>,
    nn: Seq<char>,
    r: Result<RangeInfo<SourceChange>, RenameError>,
) -> bool {
    match refs {
        None => failed_with(r, RenameErrorKind::NoReferencesFound, msg_no_references()),
        Some(sr) => {
            if sr.references@.len() == 0 {
                failed_with(r, RenameErrorKind::NoReferencesFound, msg_no_references())
            } else {
                r matches Ok(ri) && {
                    &&& ri.range == sr.range
                    &&& ri.info.wf()
                    &&& change_ops(ri.info) == refs_ops(sr.references@, nn).to_multiset()
                    &&& ri.info.file_moves@.len() == 0
                    &&& ri.info.is_snippet == false
                }
            }
        },
    }
}

/// Builds the per-occurrence operations of a reference list. Shared by the
/// strategies that turn every occurrence into the same replacement.
fn ops_from_references(references: &Vec<Reference>, new_name: &str) -> (ops: Vec<(FileId, Indel)>)
    requires
        references_wf(references@),
    ensures
        ops_wf(ops@),
        ops@.len() == references@.len(),
        ops_model(ops@) == refs_ops(references@, new_name@),
        forall|k: int|
            0 <= k < ops@.len() ==> (#[trigger] ops@[k]).0 == references@[k].file_id
                && references@[k].range.start <= ops@[k].1.delete.start && ops@[k].1.delete.end
                <= references@[k].range.end,
{
    let mut ops: Vec<(FileId, Indel)> = Vec::new();
    let mut i: usize = 0;
    while i < references.len()
        invariant
            references_wf(references@),
            i <= references@.len(),
            ops@.len() == i,
            forall|k: int|
                0 <= k < i ==> (#[trigger] ops@[k]).0 == references@[k].file_id && ops@[k].1.wf()
                    && references@[k].range.start <= ops@[k].1.delete.start && ops@[k].1.delete.end
                    <= references@[k].range.end && op_of(ops@[k].0, ops@[k].1) == ref_op(
                    references@[k],
                    new_name@,
                ),
        decreases references@.len() - i,
    {
        let op = source_edit_from_reference(&references[i], new_name);
        ops.push(op);
        i += 1;
    }
    proof {
        assert(ops_model(ops@) =~= refs_ops(references@, new_name@));
        assert forall|x: int, y: int|
            0 <= x < ops@.len() && 0 <= y < ops@.len() && x != y && (#[trigger] ops@[x]).0 == (
            #[trigger] ops@[y]).0 implies crate::edit::indel_separated(ops@[x].1, ops@[y].1) by {
            assert(references@[x].file_id == references@[y].file_id);
        }
    }
    ops
}

/// The general strategy: every resolved occurrence becomes one operation.
pub fn rename_reference(refs: Option<SymbolRefs>, new_name: &str) -> (r: Result<
    RangeInfo<SourceChange>,
    RenameError,
>)
    requires
        refs matches Some(sr) ==> symbol_refs_wf(sr),
    ensures
        reference_rename_post(refs, new_name@, r),
{
    let sr = match refs {
        None => {
            return Err(fail(RenameErrorKind::NoReferencesFound, "No references found at position"));
        },
        Some(sr) => sr,
    };
    let ops = ops_from_references(&sr.references, new_name);
    proof {
        assert(ops_model(ops@).len() == ops@.len());
        assert(refs_ops(sr.references@, new_name@).len() == sr.references@.len());
        assert(ops@.len() == sr.references@.len());
    }
    if ops.len() == 0 {
        return Err(fail(RenameErrorKind::NoReferencesFound, "No references found at position"));
    }
    let change = SourceChange::from_ops(&ops, Vec::new());
    Ok(RangeInfo::new(sr.range, change))
}

/// Where a module's definition lives: its own backing file, or an inline
/// block in some other file.
#[derive(Clone, Copy, PartialEq, Eq, Structural, Debug)]
pub enum ModuleBacking {
    /// The module is a whole source file; `is_mod_rs` says whether that
    /// file is the directory-style entry file of the module.
    SourceFile { file_id: FileId, is_mod_rs: bool },
    /// The module is an inline block; renaming it moves no file.
    Inline,
}

/// The `mod <name>;` declaration site, when it exists apart from the
/// module's definition: the file holding it and the range of the name
/// token alone.
#[derive(Clone, Copy, PartialEq, Eq, Structural, Debug)]
pub struct ModuleDeclSite {
    pub file_id: FileId,
    pub name_range: TextRange,
}

/// Everything the semantic model reports about a module under rename.
#[derive(Clone, Copy, PartialEq, Eq, Structural, Debug)]
pub struct ModuleInfo {
    pub backing: ModuleBacking,
    pub declaration: Option<ModuleDeclSite>,
}

/// The declaration site's name token is a well-formed range and never
/// touches a resolved reference in the same file: the resolution query
/// reports reference sites apart from the declaration.
pub open spec fn module_wf(info: ModuleInfo, refs: Option<SymbolRefs>) -> bool {
    &&& (info.declaration matches Some(d) ==> d.name_range.wf())
    &&& match (info.declaration, refs) {
        (Some(d), Some(sr)) => forall|i: int|
            0 <= i < sr.references@.len() && (#[trigger] sr.references@[i]).file_id == d.file_id
                ==> sr.references@[i].range.end < d.name_range.start || d.name_range.end
                < sr.references@[i].range.start,
        _ => true,
    }
}

/// The destination path of the module's backing file: the directory-style
/// entry file moves to a sibling directory named after the new name, any
/// other file is renamed in place, keeping its extension.
pub open spec fn module_dst(is_mod_rs: bool, nn: Seq<char>) -> Seq<char> {
    if is_mod_rs {
        "../"@ + nn + "/mod.rs"@
    } else {
        nn + ".rs"@
    }
}

/// The operations of a module rename: one per path reference, and one for
/// the declaration site when the module has one.
pub open spec fn module_ops(info: ModuleInfo, rs: Seq<Reference>, nn: Seq<char>) -> Seq<
    (int, int, int, Seq<char>),
> {
    refs_ops(rs, nn) + (match info.declaration {
        Some(d) => seq![
            (d.file_id.0 as int, d.name_range.start as int, d.name_range.end as int, nn),
        ],
        None => Seq::empty(),
    })
}

/// What the module strategy returns: failure when reference resolution
/// itself failed, otherwise the change set with at most one file move and
/// exactly one operation per reference plus one for a separate
/// declaration site; a reference count of zero is legitimate here.
pub open spec fn module_rename_post(
    info: ModuleInfo,
    refs: Option<SymbolRefs>,
    nn: Seq<char>,
    r: Result<RangeInfo<SourceChange>, RenameError>,
) -> bool {
    match refs {
        None => failed_with(r, RenameErrorKind::NoReferencesFound, msg_no_references()),
        Some(sr) => r matches Ok(ri) && {
            &&& ri.range == sr.range
            &&& ri.info.wf()
            &&& change_ops(ri.info) == module_ops(info, sr.references@, nn).to_multiset()
            &&& change_ops(ri.info).len() == sr.references@.len() + (
            if info.declaration is Some {
                1int
            } else {
                0int
            })
            &&& ri.info.file_moves@.len() <= 1
            &&& match info.backing {
                ModuleBacking::SourceFile { file_id, is_mod_rs } => {
                    &&& ri.info.file_moves@.len() == 1
                    &&& ri.info.file_moves@[0].src == file_id
                    &&& ri.info.file_moves@[0].anchor == file_id
                    &&& ri.info.file_moves@[0].dst@ == module_dst(is_mod_rs, nn)
                },
                ModuleBacking::Inline => ri.info.file_moves@.len() == 0,
            }
            &&& ri.info.is_snippet == false
        },
    }
}

/// The module strategy: schedule the backing-file move, rewrite the
/// declaration site's name token, and substitute every path reference.
pub fn rename_mod(info: ModuleInfo, refs: Option<SymbolRefs>, new_name: &str) -> (r: Result<
    RangeInfo<SourceChange>,
    RenameError,
>)
    requires
        refs matches Some(sr) ==> symbol_refs_wf(sr),
        module_wf(info, refs),
    ensures
        module_rename_post(info, refs, new_name@, r),
{
    let mut file_moves: Vec<FileMove> = Vec::new();
    match info.backing {
        ModuleBacking::SourceFile { file_id, is_mod_rs } => {
            let dst = if is_mod_rs {
                let mut d = String::from_str("../");
                d.append(new_name);
                d.append("/mod.rs");
                d
            } else {
                let mut d = new_name.to_owned();
                d.append(".rs");
                d
            };
            file_moves.push(FileMove { src: file_id, anchor: file_id, dst });
        },
        ModuleBacking::Inline => {},
    }
    let sr = match refs {
        None => {
            return Err(fail(RenameErrorKind::NoReferencesFound, "No references found at position"));
        },
        Some(sr) => sr,
    };
    let mut ops = ops_from_references(&sr.references, new_name);
    let ghost ref_only = ops@;
    match &info.declaration {
        Some(d) => {
            let ind = Indel::replace(d.name_range, new_name.to_owned());
            proof {
                assert(ops@.len() == sr.references@.len());
                assert(ind.wf());
                assert forall|x: int, y: int|
                    0 <= x < ops@.len() + 1 && 0 <= y < ops@.len() + 1 && x != y && (
                    #[trigger] ops@.push((d.file_id, ind))[x]).0 == (#[trigger] ops@.push(
                        (d.file_id, ind),
                    )[y]).0 implies crate::edit::indel_separated(
                    ops@.push((d.file_id, ind))[x].1,
                    ops@.push((d.file_id, ind))[y].1,
                ) by {
                    let t = ops@.push((d.file_id, ind));
                    if x < ops@.len() && y < ops@.len() {
                        assert(t[x] == ops@[x] && t[y] == ops@[y]);
                    } else if x < ops@.len() {
                        assert(t[y] == (d.file_id, ind));
                        assert(ops@[x].0 == sr.references@[x].file_id);
                        assert(sr.references@[x].file_id == d.file_id);
                    } else {
                        assert(t[x] == (d.file_id, ind));
                        assert(ops@[y].0 == sr.references@[y].file_id);
                        assert(sr.references@[y].file_id == d.file_id);
                    }
                }
            }
            ops.push((d.file_id, ind));
            proof {
                assert(ops_model(ops@) =~= module_ops(info, sr.references@, new_name@));
            }
        },
        None => {
            proof {
                assert(ops_model(ops@) =~= module_ops(info, sr.references@, new_name@));
            }
        },
    }
    proof {
        ops_model(ops@).to_multiset_ensures();
        assert(ops_model(ops@).len() == ops@.len());
    }
    let change = SourceChange::from_ops(&ops, file_moves);
    Ok(RangeInfo::new(sr.range, change))
}

/// The declared type of a function's first parameter, as far as the
/// receiver conversion cares: a possibly-mutable reference type, or
/// anything else.
#[derive(Clone, Copy, PartialEq, Eq, Structural, Debug)]
pub enum ParamTypeShape {
    RefType { mutable: bool },
    Other,
}

/// The first declared parameter: the range of its whole declaration and
/// the shape of its declared type.
#[derive(Clone, Copy, PartialEq, Eq, Structural, Debug)]
pub struct ParamInfo {
    pub range: TextRange,
    pub shape: ParamTypeShape,
}

/// What the syntax tree reports about the function enclosing the cursor.
#[derive(Clone, Copy, PartialEq, Eq, Structural, Debug)]
pub struct FnContext {
    pub has_param_list: bool,
    pub has_self_param: bool,
    pub first_param: Option<ParamInfo>,
}

pub open spec fn fn_context_wf(c: FnContext) -> bool {
    c.first_param matches Some(p) ==> p.range.wf()
}

/// The new receiver declaration, carrying over the parameter type's
/// mutability.
pub open spec fn receiver_text(mutable: bool) -> Seq<char> {
    if mutable {
        "&mut self"@
    } else {
        "&self"@
    }
}

/// The references that lie outside the first parameter's own declaration:
/// these are the in-body usages to rewrite to the receiver keyword.
pub open spec fn usages_outside(rs: Seq<Reference>, param: TextRange) -> Seq<Reference> {
    rs.filter(|r: Reference| !param.spec_intersects(r.range))
}

/// The operations of a parameter-to-receiver conversion: every usage
/// becomes the receiver keyword, and the whole declaration becomes the
/// receiver declaration.
pub open spec fn to_self_ops(
    position: FilePosition,
    param: TextRange,
    mutable: bool,
    rs: Seq<Reference>,
) -> Seq<(int, int, int, Seq<char>)> {
    refs_ops(usages_outside(rs, param), "self"@) + seq![
        (
            position.file_id.0 as int,
            param.start as int,
            param.end as int,
            receiver_text(mutable),
        ),
    ]
}

/// What the parameter-to-receiver strategy returns, error by error in the
/// order the checks run; on success, exactly the usage rewrites plus the
/// declaration rewrite.
pub open spec fn to_self_post(
    position: FilePosition,
    ctx: Option<FnContext>,
    refs: Option<SymbolRefs>,
    r: Result<RangeInfo<SourceChange>, RenameError>,
) -> bool {
    match ctx {
        None => failed_with(r, RenameErrorKind::NoSurroundingFunction, msg_no_function()),
        Some(c) => {
            if !c.has_param_list {
                failed_with(r, RenameErrorKind::NoParameterList, msg_no_parameters())
            } else if c.has_self_param {
                failed_with(r, RenameErrorKind::AlreadyHasSelf, msg_already_self())
            } else {
                match c.first_param {
                    None => failed_with(r, RenameErrorKind::NoParameterList, msg_no_parameters()),
                    Some(p) => match p.shape {
                        ParamTypeShape::Other => failed_with(
                            r,
                            RenameErrorKind::UnsupportedParamType,
                            msg_other_type(),
                        ),
                        ParamTypeShape::RefType { mutable } => match refs {
                            None => failed_with(
                                r,
                                RenameErrorKind::NoReferencesFound,
                                msg_no_reference(),
                            ),
                            Some(sr) => {
                                if forall|i: int|
                                    0 <= i < sr.references@.len() ==> !p.range.spec_intersects(
                                        (#[trigger] sr.references@[i]).range,
                                    ) {
                                    failed_with(
                                        r,
                                        RenameErrorKind::ParameterNotFound,
                                        msg_parameter_not_found(),
                                    )
                                } else {
                                    r matches Ok(ri) && {
                                        &&& ri.range == sr.range
                                        &&& ri.info.wf()
                                        &&& change_ops(ri.info) == to_self_ops(
                                            position,
                                            p.range,
                                            mutable,
                                            sr.references@,
                                        ).to_multiset()
                                        &&& ri.info.file_moves@.len() == 0
                                        &&& ri.info.is_snippet == false
                                    }
                                }
                            },
                        },
                    },
                }
            }
        },
    }
}

/// The parameter-to-receiver strategy: rewrite the first parameter's
/// declaration to a receiver declaration and every other resolved
/// occurrence to the receiver keyword.
pub fn rename_to_self(position: FilePosition, ctx: Option<FnContext>, refs: Option<SymbolRefs>) -> (
    r: Result<RangeInfo<SourceChange>, RenameError>)
    requires
        refs matches Some(sr) ==> symbol_refs_wf(sr),
        ctx matches Some(c) ==> fn_context_wf(c),
    ensures
        to_self_post(position, ctx, refs, r),
{
    let c = match ctx {
        None => {
            return Err(
                fail(
                    RenameErrorKind::NoSurroundingFunction,
                    "No surrounding method declaration found",
                ),
            );
        },
        Some(c) => c,
    };
    if !c.has_param_list {
        return Err(fail(RenameErrorKind::NoParameterList, "Method has no parameters"));
    }
    if c.has_self_param {
        return Err(fail(RenameErrorKind::AlreadyHasSelf, "Method already has a self parameter"));
    }
    let p = match c.first_param {
        None => {
            return Err(fail(RenameErrorKind::NoParameterList, "Method has no parameters"));
        },
        Some(p) => p,
    };
    let mutable = match p.shape {
        ParamTypeShape::RefType { mutable } => mutable,
        ParamTypeShape::Other => {
            return Err(fail(RenameErrorKind::UnsupportedParamType, "Not renaming other types"));
        },
    };
    let sr = match refs {
        None => {
            return Err(fail(RenameErrorKind::NoReferencesFound, "No reference found at position"));
        },
        Some(sr) => sr,
    };
    let mut ops: Vec<(FileId, Indel)> = Vec::new();
    let ghost pred = |r: Reference| !p.range.spec_intersects(r.range);
    let mut found_param = false;
    let mut i: usize = 0;
    while i < sr.references.len()
        invariant
            symbol_refs_wf(sr),
            p.range.wf(),
            i <= sr.references@.len(),
            pred == (|r: Reference| !p.range.spec_intersects(r.range)),
            found_param == exists|j: int|
                0 <= j < i && p.range.spec_intersects((#[trigger] sr.references@[j]).range),
            ops_model(ops@) == refs_ops(sr.references@.take(i as int).filter(pred), "self"@),
            forall|k: int|
                0 <= k < ops@.len() ==> exists|j: int|
                    0 <= j < i && (#[trigger] ops@[k]).0 == sr.references@[j].file_id
                        && ops@[k].1.wf() && sr.references@[j].range.start <= ops@[k].1.delete.start
                        && ops@[k].1.delete.end <= sr.references@[j].range.end
                        && !p.range.spec_intersects(sr.references@[j].range),
            ops_wf(ops@),
        decreases sr.references@.len() - i,
    {
        let refc = sr.references[i];
        let ghost fs_old = sr.references@.take(i as int).filter(pred);
        proof {
            reveal(Seq::filter);
            assert(sr.references@.take(i + 1).drop_last() =~= sr.references@.take(i as int));
            assert(sr.references@.take(i + 1).last() == sr.references@[i as int]);
        }
        if p.range.intersects(refc.range) {
            found_param = true;
            proof {
                assert(p.range.spec_intersects(sr.references@[i as int].range));
                assert(sr.references@.take(i + 1).filter(pred) =~= fs_old);
            }
        } else {
            let op = source_edit_from_reference(&refc, "self");
            proof {
                let fs_new = sr.references@.take(i + 1).filter(pred);
                assert(fs_new =~= fs_old.push(sr.references@[i as int]));
                assert forall|x: int|
                    0 <= x < ops@.len() && (#[trigger] ops@[x]).0 == op.0 implies crate::edit::indel_separated(
                    ops@[x].1,
                    op.1,
                ) by {
                    let j = choose|j: int|
                        0 <= j < i && ops@[x].0 == sr.references@[j].file_id && ops@[x].1.wf()
                            && sr.references@[j].range.start <= ops@[x].1.delete.start
                            && ops@[x].1.delete.end <= sr.references@[j].range.end
                            && !p.range.spec_intersects(sr.references@[j].range);
                    assert(sr.references@[j].file_id == sr.references@[i as int].file_id);
                    assert(sr.references@[j].range.end < sr.references@[i as int].range.start
                        || sr.references@[i as int].range.end < sr.references@[j].range.start);
                }
            }
            let ghost prev = ops@;
            ops.push(op);
            proof {
                let fs_new = sr.references@.take(i + 1).filter(pred);
                let here = sr.references@[i as int];
                assert(ops_model(ops@) =~= ops_model(prev).push(op_of(op.0, op.1)));
                assert(refs_ops(fs_old.push(here), "self"@) =~= refs_ops(fs_old, "self"@).push(
                    ref_op(here, "self"@),
                ));
                assert(refs_ops(fs_new, "self"@) == refs_ops(fs_old.push(here), "self"@));
                assert(ops_model(ops@) =~= refs_ops(fs_new, "self"@));
            }
        }
        i += 1;
    }
    if !found_param {
        return Err(fail(RenameErrorKind::ParameterNotFound, "Parameter to rename not found"));
    }
    let receiver = if mutable {
        String::from_str("&mut self")
    } else {
        String::from_str("&self")
    };
    let ind = Indel::replace(p.range, receiver);
    proof {
        assert(sr.references@.take(sr.references@.len() as int) =~= sr.references@);
        assert forall|x: int|
            0 <= x < ops@.len() && (#[trigger] ops@[x]).0 == position.file_id implies crate::edit::indel_separated(
            ops@[x].1,
            ind,
        ) by {
            let n = sr.references@.len() as int;
            let j = choose|j: int|
                0 <= j < n && ops@[x].0 == sr.references@[j].file_id && ops@[x].1.wf()
                    && sr.references@[j].range.start <= ops@[x].1.delete.start
                    && ops@[x].1.delete.end <= sr.references@[j].range.end
                    && !p.range.spec_intersects(sr.references@[j].range);
            assert(sr.references@[j].range.end < p.range.start || p.range.end
                < sr.references@[j].range.start);
        }
    }
    ops.push((position.file_id, ind));
    proof {
        assert(ops_model(ops@) =~= to_self_ops(position, p.range, mutable, sr.references@));
    }
    let change = SourceChange::from_ops(&ops, Vec::new());
    Ok(RangeInfo::new(sr.range, change))
}

/// The declared receiver parameter of the enclosing function: the range
/// of its whole declaration and whether it is declared mutable.
#[derive(Clone, Copy, PartialEq, Eq, Structural, Debug)]
pub struct SelfParamInfo {
    pub range: TextRange,
    pub is_mut: bool,
}

/// What the syntax tree reports around a receiver-keyword occurrence
/// under the cursor.
#[derive(Debug)]
pub struct ReceiverContext {
    /// The keyword token the cursor is on.
    pub token_range: TextRange,
    /// The span of the enclosing function, when there is one.
    pub fn_range: Option<TextRange>,
    /// The function's receiver declaration, when it has one.
    pub self_param: Option<SelfParamInfo>,
    /// The name of the enclosing implementation's subject type, when it
    /// could be determined.
    pub impl_type_name: Option<String>,
}

/// A genuine receiver-keyword token at offset `i`: the keyword's four
/// characters, not embedded in a longer identifier on either side.
pub open spec fn self_kw_at(text: Seq<char>, i: int) -> bool {
    &&& 0 <= i && i + 4 <= text.len()
    &&& text[i] == 's' && text[i + 1] == 'e' && text[i + 2] == 'l' && text[i + 3] == 'f'
    &&& (i == 0 || !crate::chars::is_ident_continue(text[i - 1]))
    &&& (i + 4 == text.len() || !crate::chars::is_ident_continue(text[i + 4]))
}

/// A keyword occurrence the scan acts on: a genuine token whose offset
/// lies within the enclosing function's span, boundary included.
pub open spec fn scan_hit(text: Seq<char>, fr: TextRange, i: int) -> bool {
    self_kw_at(text, i) && fr.start <= i && i <= fr.end
}

/// The occurrence offsets below `n`, in ascending order.
pub open spec fn occurrences_before(text: Seq<char>, fr: TextRange, n: int) -> Seq<int>
    decreases n,
{
    if n <= 0 {
        Seq::empty()
    } else {
        occurrences_before(text, fr, n - 1) + (if scan_hit(text, fr, n - 1) {
            seq![n - 1]
        } else {
            Seq::empty()
        })
    }
}

/// Whether offset `i` lies within the receiver declaration: such an
/// occurrence is the declaration itself, not a usage.
pub open spec fn inside_decl(sp: SelfParamInfo, i: int) -> bool {
    sp.range.start <= i && i + 4 <= sp.range.end
}

/// The parameter declaration that replaces the receiver declaration,
/// preserving the declared mutability.
pub open spec fn param_text(nn: Seq<char>, is_mut: bool, ty: Seq<char>) -> Seq<char> {
    nn + ": "@ + (if is_mut {
        "&mut "@
    } else {
        "&"@
    }) + ty
}

/// The operation one occurrence turns into: the declaration is replaced
/// wholesale by a parameter declaration, a usage by the new name.
pub open spec fn receiver_occ_op(
    position: FilePosition,
    sp: Option<SelfParamInfo>,
    i: int,
    nn: Seq<char>,
    ty: Seq<char>,
) -> (int, int, int, Seq<char>) {
    match sp {
        Some(s) => {
            if inside_decl(s, i) {
                (position.file_id.0 as int, s.range.start as int, s.range.end as int, param_text(
                    nn,
                    s.is_mut,
                    ty,
                ))
            } else {
                (position.file_id.0 as int, i, i + 4, nn)
            }
        },
        None => (position.file_id.0 as int, i, i + 4, nn),
    }
}

/// The operations of a receiver-to-parameter conversion, one per
/// occurrence in ascending order.
pub open spec fn self_to_param_ops(
    position: FilePosition,
    sp: Option<SelfParamInfo>,
    ty: Seq<char>,
    occs: Seq<int>,
    nn: Seq<char>,
) -> Seq<(int, int, int, Seq<char>)> {
    occs.map(|k: int, i: int| receiver_occ_op(position, sp, i, nn, ty))
}

/// The subject type's name as a character sequence, empty when unknown.
pub open spec fn impl_type_view(t: Option<String>) -> Seq<char> {
    match t {
        Some(s) => s@,
        None => Seq::empty(),
    }
}

/// The syntax facts the scan relies on: a declaration range that runs
/// forward, and occurrences that are each either the one declaration
/// token or clear of the declaration range, as they are in a parsed
/// function.
pub open spec fn receiver_ctx_wf(rc: ReceiverContext, text: Seq<char>) -> bool {
    &&& text.len() <= u32::MAX
    &&& rc.token_range.wf()
    &&& (rc.fn_range matches Some(fr) ==> fr.wf())
    &&& (rc.self_param matches Some(sp) ==> sp.range.wf())
    &&& match (rc.fn_range, rc.self_param) {
        (Some(fr), Some(sp)) => {
            &&& forall|i: int|
                #[trigger] scan_hit(text, fr, i) ==> inside_decl(sp, i) || i + 4 <= sp.range.start
                    || sp.range.end <= i
            &&& forall|i: int, j: int|
                #[trigger] scan_hit(text, fr, i) && #[trigger] scan_hit(text, fr, j) && inside_decl(
                    sp,
                    i,
                ) && inside_decl(sp, j) ==> i == j
        },
        _ => true,
    }
}

/// The primary range to report: the whole receiver declaration when the
/// cursor's token is part of it, otherwise the token itself.
pub open spec fn receiver_primary_range(rc: ReceiverContext) -> TextRange {
    match rc.self_param {
        Some(sp) => {
            if sp.range.spec_covers(rc.token_range) {
                sp.range
            } else {
                rc.token_range
            }
        },
        None => rc.token_range,
    }
}

/// What the receiver-to-parameter strategy returns: an error without an
/// enclosing function, an error when the declaration must be rewritten
/// but the subject type is unknown, otherwise one operation per confirmed
/// keyword occurrence; an empty result is legitimate.
pub open spec fn self_to_param_post(
    position: FilePosition,
    rc: ReceiverContext,
    text: Seq<char>,
    nn: Seq<char>,
    r: Result<RangeInfo<SourceChange>, RenameError>,
) -> bool {
    match rc.fn_range {
        None => failed_with(r, RenameErrorKind::NoSurroundingFunction, msg_no_function()),
        Some(fr) => {
            let needs_type = rc.self_param matches Some(sp) && exists|i: int|
                #[trigger] scan_hit(text, fr, i) && inside_decl(sp, i);
            if needs_type && rc.impl_type_name is None {
                failed_with(r, RenameErrorKind::NoTargetTypeFound, msg_no_target_type())
            } else {
                r matches Ok(ri) && {
                    &&& ri.range == receiver_primary_range(rc)
                    &&& ri.info.wf()
                    &&& change_ops(ri.info) == self_to_param_ops(
                        position,
                        rc.self_param,
                        impl_type_view(rc.impl_type_name),
                        occurrences_before(text, fr, text.len() as int),
                        nn,
                    ).to_multiset()
                    &&& ri.info.file_moves@.len() == 0
                    &&& ri.info.is_snippet == false
                }
            }
        },
    }
}

/// Where an occurrence's operation deletes: the declaration's range for
/// the declaration occurrence, the keyword's own four characters for a
/// usage.
pub open spec fn occ_indel_src(sp: Option<SelfParamInfo>, j: int, ind: Indel) -> bool {
    match sp {
        Some(s) => {
            if inside_decl(s, j) {
                ind.delete == s.range
            } else {
                ind.delete.start as int == j && ind.delete.end as int == j + 4
            }
        },
        None => ind.delete.start as int == j && ind.delete.end as int == j + 4,
    }
}

/// Two genuine keyword occurrences never overlap and never touch: the
/// keyword cannot overlap itself, and a directly adjoining occurrence
/// would extend the first into a longer identifier.
proof fn lemma_hits_apart(text: Seq<char>, i: int, j: int)
    requires
        self_kw_at(text, i),
        self_kw_at(text, j),
        i < j,
    ensures
        i + 4 < j,
{
    if j == i + 1 {
        assert(text[j] == 'e');
    } else if j == i + 2 {
        assert(text[j] == 'l');
    } else if j == i + 3 {
        assert(text[j] == 'f');
    } else if j == i + 4 {
        assert(text[j] == 's');
        assert(crate::chars::is_ident_continue('s'));
    }
}

/// The receiver-to-parameter strategy: scan the enclosing function's span
/// for genuine receiver-keyword tokens; rewrite the declaration to a
/// parameter declaration named after the new name and typed by the
/// implementation's subject type, and every usage to the new name.
pub fn rename_self_to_param(
    position: FilePosition,
    rc: &ReceiverContext,
    text: &Vec<char>,
    new_name: &str,
) -> (r: Result<RangeInfo<SourceChange>, RenameError>)
    requires
        receiver_ctx_wf(*rc, text@),
    ensures
        self_to_param_post(position, *rc, text@, new_name@, r),
{
    let fr = match rc.fn_range {
        None => {
            return Err(
                fail(
                    RenameErrorKind::NoSurroundingFunction,
                    "No surrounding method declaration found",
                ),
            );
        },
        Some(fr) => fr,
    };
    let ghost ty = impl_type_view(rc.impl_type_name);
    let ghost nn = new_name@;
    let ghost mut srcs: Seq<int> = Seq::empty();
    let mut ops: Vec<(FileId, Indel)> = Vec::new();
    let mut i: usize = 0;
    while i < text.len()
        invariant
            receiver_ctx_wf(*rc, text@),
            rc.fn_range == Some(fr),
            i <= text@.len(),
            ty == impl_type_view(rc.impl_type_name),
            nn == new_name@,
            ops_model(ops@) == self_to_param_ops(
                position,
                rc.self_param,
                ty,
                occurrences_before(text@, fr, i as int),
                nn,
            ),
            srcs.len() == ops@.len(),
            forall|k: int|
                0 <= k < ops@.len() ==> 0 <= #[trigger] srcs[k] < i && scan_hit(text@, fr, srcs[k])
                    && occ_indel_src(rc.self_param, srcs[k], ops@[k].1) && ops@[k].0
                    == position.file_id && ops@[k].1.wf(),
            ops_wf(ops@),
            rc.impl_type_name is None ==> forall|j: int|
                0 <= j < i && #[trigger] scan_hit(text@, fr, j) ==> !(rc.self_param matches Some(sp)
                    && inside_decl(sp, j)),
        decreases text@.len() - i,
    {
        let n = text.len();
        let mut hit = n >= 4 && i <= n - 4 && text[i] == 's' && text[i + 1] == 'e' && text[i + 2]
            == 'l' && text[i + 3] == 'f';
        if hit && i > 0 {
            hit = !crate::chars::ident_continue_check(text[i - 1]);
        }
        if hit && i + 4 < n {
            hit = !crate::chars::ident_continue_check(text[i + 4]);
        }
        if hit {
            hit = fr.contains_inclusive(i as u32);
        }
        proof {
            assert(hit == scan_hit(text@, fr, i as int));
            assert(occurrences_before(text@, fr, i + 1) == occurrences_before(text@, fr, i as int)
                + (if scan_hit(text@, fr, i as int) {
                seq![i as int]
            } else {
                Seq::<int>::empty()
            }));
        }
        if hit {
            let is_decl = match rc.self_param {
                Some(sp) => sp.range.start as usize <= i && i + 4 <= sp.range.end as usize,
                None => false,
            };
            proof {
                assert(is_decl == (rc.self_param matches Some(sp) && inside_decl(sp, i as int)));
            }
            let op: (FileId, Indel) = if is_decl {
                let sp = match rc.self_param {
                    Some(sp) => sp,
                    None => {
                        proof {
                            assert(false);
                        }
                        SelfParamInfo { range: fr, is_mut: false }
                    },
                };
                let t = match &rc.impl_type_name {
                    None => {
                        proof {
                            assert(scan_hit(text@, fr, i as int) && inside_decl(sp, i as int));
                        }
                        return Err(
                            fail(RenameErrorKind::NoTargetTypeFound, "No target type found"),
                        );
                    },
                    Some(t) => t,
                };
                let mut replacement = new_name.to_owned();
                replacement.append(": ");
                if sp.is_mut {
                    replacement.append("&mut ");
                } else {
                    replacement.append("&");
                }
                replacement.append(t.as_str());
                (position.file_id, Indel::replace(sp.range, replacement))
            } else {
                (
                    position.file_id,
                    Indel::replace(TextRange::new(i as u32, i as u32 + 4), new_name.to_owned()),
                )
            };
            proof {
                assert(op_of(op.0, op.1) == receiver_occ_op(
                    position,
                    rc.self_param,
                    i as int,
                    nn,
                    ty,
                ));
                assert(occ_indel_src(rc.self_param, i as int, op.1));
                assert forall|x: int|
                    0 <= x < ops@.len() && (#[trigger] ops@[x]).0 == op.0 implies crate::edit::indel_separated(
                    ops@[x].1,
                    op.1,
                ) by {
                    let j = srcs[x];
                    lemma_hits_apart(text@, j, i as int);
                    if rc.self_param is Some {
                        let sp = rc.self_param->0;
                        assert(inside_decl(sp, j) || j + 4 <= sp.range.start || sp.range.end <= j);
                        assert(inside_decl(sp, i as int) || i + 4 <= sp.range.start || sp.range.end
                            <= i);
                        if inside_decl(sp, j) && inside_decl(sp, i as int) {
                            assert(j == i as int);
                            assert(false);
                        }
                    }
                }
            }
            let ghost prev = ops@;
            ops.push(op);
            proof {
                srcs = srcs.push(i as int);
                let occs_new = occurrences_before(text@, fr, i + 1);
                let occs_old = occurrences_before(text@, fr, i as int);
                assert(occs_new =~= occs_old.push(i as int));
                assert(ops_model(ops@) =~= ops_model(prev).push(op_of(op.0, op.1)));
                assert(self_to_param_ops(position, rc.self_param, ty, occs_new, nn)
                    =~= self_to_param_ops(position, rc.self_param, ty, occs_old, nn).push(
                    receiver_occ_op(position, rc.self_param, i as int, nn, ty),
                ));
                assert(ops_model(ops@) =~= self_to_param_ops(
                    position,
                    rc.self_param,
                    ty,
                    occs_new,
                    nn,
                ));
                assert forall|k: int| 0 <= k < ops@.len() implies 0 <= #[trigger] srcs[k] < i + 1
                    && scan_hit(text@, fr, srcs[k]) && occ_indel_src(
                    rc.self_param,
                    srcs[k],
                    ops@[k].1,
                ) && ops@[k].0 == position.file_id && ops@[k].1.wf() by {
                    if k < prev.len() {
                        assert(ops@[k] == prev[k]);
                        assert(srcs[k] == srcs.drop_last()[k]);
                    } else {
                        assert(ops@[k] == op);
                        assert(srcs[k] == i as int);
                    }
                }
            }
        } else {
            proof {
                assert(occurrences_before(text@, fr, i + 1) =~= occurrences_before(
                    text@,
                    fr,
                    i as int,
                ));
            }
        }
        i += 1;
    }
    let primary = match rc.self_param {
        Some(sp) => {
            if sp.range.covers(rc.token_range) {
                sp.range
            } else {
                rc.token_range
            }
        },
        None => rc.token_range,
    };
    proof {
        if rc.impl_type_name is None {
            assert forall|j: int| #[trigger] scan_hit(text@, fr, j) implies !(
            rc.self_param matches Some(sp) && inside_decl(sp, j)) by {
                assert(0 <= j < text@.len());
            }
        }
    }
    let change = SourceChange::from_ops(&ops, Vec::new());
    Ok(RangeInfo::new(primary, change))
}

/// What the position classifier decides: the one strategy family that
/// will run, as a closed set of variants, each carrying the semantic
/// facts its strategy consumes.
#[derive(Debug)]
pub enum PositionClass {
    /// The position names a module.
    Module(ModuleInfo),
    /// The token at the position is the receiver keyword.
    ReceiverKeyword(ReceiverContext),
    /// Any other symbol: binding, field, function, type, variant.
    Symbol,
}

/// The external semantic model's answers about one position, taken from a
/// read-only snapshot of the source tree: whether the identifier at the
/// position resolves to a module, whether the token there is the
/// receiver keyword, the reference-resolution result, the enclosing
/// function, and the position's file text.
#[derive(Debug)]
pub struct Snapshot {
    /// The module the identifier at the position resolves to, if any.
    pub module_at_position: Option<ModuleInfo>,
    /// The receiver-keyword token at the position, if there is one.
    pub receiver_at_position: Option<ReceiverContext>,
    /// The reference-resolution answer for the position.
    pub refs: Option<SymbolRefs>,
    /// The function enclosing the position, if any.
    pub fn_context: Option<FnContext>,
    /// The current text of the position's file.
    pub file_text: String,
}

/// The classification the priority chain arrives at: module resolution
/// is consulted before the bare keyword check, which is consulted before
/// the generic fallback.
pub open spec fn spec_position_class(s: Snapshot) -> PositionClass {
    match s.module_at_position {
        Some(info) => PositionClass::Module(info),
        None => match s.receiver_at_position {
            Some(rc) => PositionClass::ReceiverKeyword(rc),
            None => PositionClass::Symbol,
        },
    }
}

/// The position classifier: routes to exactly one strategy family, in
/// priority order. It decides nothing else.
pub fn classify_position(
    module: Option<ModuleInfo>,
    receiver: Option<ReceiverContext>,
) -> (r: PositionClass)
    ensures
        module matches Some(info) ==> r == PositionClass::Module(info),
        module is None ==> (receiver matches Some(rc) ==> r == PositionClass::ReceiverKeyword(rc)),
        module is None && receiver is None ==> r == PositionClass::Symbol,
{
    match module {
        Some(info) => PositionClass::Module(info),
        None => match receiver {
            Some(rc) => PositionClass::ReceiverKeyword(rc),
            None => PositionClass::Symbol,
        },
    }
}

/// The facts a parsed source tree guarantees about the model's answers.
pub open spec fn snapshot_wf(s: Snapshot) -> bool {
    &&& (s.refs matches Some(sr) ==> symbol_refs_wf(sr))
    &&& (s.fn_context matches Some(c) ==> fn_context_wf(c))
    &&& (s.module_at_position matches Some(info) ==> module_wf(info, s.refs))
    &&& (s.receiver_at_position matches Some(rc) ==> receiver_ctx_wf(rc, s.file_text@))
}

/// The whole engine's contract. The proposed name is validated first: an
/// invalid name fails with [`RenameErrorKind::InvalidIdentifier`] whatever
/// is under the cursor, and the receiver keyword redirects to the
/// parameter-to-receiver conversion. Otherwise exactly one strategy runs,
/// picked by the position's classification.
pub open spec fn rename_post(
    position: FilePosition,
    nn: Seq<char>,
    s: Snapshot,
    r: Result<RangeInfo<SourceChange>, RenameError>,
) -> bool {
    match spec_classify(nn) {
        NameKind::SelfKeyword => to_self_post(position, s.fn_context, s.refs, r),
        NameKind::Invalid => failed_with(
            r,
            RenameErrorKind::InvalidIdentifier,
            msg_invalid_name(nn),
        ),
        _ => match spec_position_class(s) {
            PositionClass::Module(info) => module_rename_post(info, s.refs, nn, r),
            PositionClass::ReceiverKeyword(rc) => self_to_param_post(
                position,
                rc,
                s.file_text@,
                nn,
                r,
            ),
            PositionClass::Symbol => reference_rename_post(s.refs, nn, r),
        },
    }
}

/// Computes the complete change for renaming the entity at `position` to
/// `new_name`, from the semantic model's answers in `snapshot`. Either
/// the full change is returned or an error, never a partial result; the
/// caller applies the edits and moves itself.
pub fn rename(position: FilePosition, new_name: &str, snapshot: Snapshot) -> (r: Result<
    RangeInfo<SourceChange>,
    RenameError,
>)
    requires
        snapshot_wf(snapshot),
    ensures
        rename_post(position, new_name@, snapshot, r),
{
    let name_chars = str_chars(new_name);
    match classify_name(&name_chars) {
        NameKind::Ident => {},
        NameKind::Underscore => {},
        NameKind::SelfKeyword => {
            return rename_to_self(position, snapshot.fn_context, snapshot.refs);
        },
        NameKind::Invalid => {
            let mut m = String::from_str("Invalid name `");
            m.append(new_name);
            m.append("`: not an identifier");
            return Err(RenameError { kind: RenameErrorKind::InvalidIdentifier, message: m });
        },
    }
    match classify_position(snapshot.module_at_position, snapshot.receiver_at_position) {
        PositionClass::Module(info) => rename_mod(info, snapshot.refs, new_name),
        PositionClass::ReceiverKeyword(rc) => {
            let text = str_chars(snapshot.file_text.as_str());
            rename_self_to_param(position, &rc, &text, new_name)
        },
        PositionClass::Symbol => rename_reference(snapshot.refs, new_name),
    }
}

} // verus!
