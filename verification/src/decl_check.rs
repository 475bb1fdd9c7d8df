//! The naming-convention check for item declarations.
//!
//! Functions, arguments, variables and fields are expected in
//! lower_snake_case; structures, enums and enum variants in CamelCase;
//! constants and statics in UPPER_SNAKE_CASE. A declaration whose name
//! departs from its expected case yields one diagnostic carrying the
//! offending name, its location, and the suggested spelling. Walking the
//! item tree and locating name tokens is the semantic model's work; each
//! declaration reaches this check as its kind, name and location.

use crate::case_conv::{
    camel_suggestion, lower_snake_suggestion, suggestion_view, to_camel_case, to_lower_snake_case,
    to_upper_snake_case, upper_snake_suggestion,
};
use crate::location::{FileId, TextRange};
use vstd::prelude::*;
use vstd::string::StringExecFns;

verus! {

/// The case a declaration's name is expected to have.
#[derive(Clone, Copy, PartialEq, Eq, Structural, Debug)]
pub enum CaseType {
    LowerSnakeCase,
    UpperSnakeCase,
    UpperCamelCase,
}

/// The kind of declaration a name belongs to.
#[derive(Clone, Copy, PartialEq, Eq, Structural, Debug)]
pub enum IdentKind {
    Function,
    Argument,
    Variable,
    Structure,
    Field,
    Enum,
    Variant,
    Constant,
    StaticVariable,
}

/// The case each kind of declaration is expected in.
pub open spec fn expected_case(kind: IdentKind) -> CaseType {
    match kind {
        IdentKind::Function => CaseType::LowerSnakeCase,
        IdentKind::Argument => CaseType::LowerSnakeCase,
        IdentKind::Variable => CaseType::LowerSnakeCase,
        IdentKind::Field => CaseType::LowerSnakeCase,
        IdentKind::Structure => CaseType::UpperCamelCase,
        IdentKind::Enum => CaseType::UpperCamelCase,
        IdentKind::Variant => CaseType::UpperCamelCase,
        IdentKind::Constant => CaseType::UpperSnakeCase,
        IdentKind::StaticVariable => CaseType::UpperSnakeCase,
    }
}

/// What the converter for a given case suggests for a name.
pub open spec fn case_suggestion(case: CaseType, name: Seq<char>) -> Option<Seq<char>> {
    match case {
        CaseType::LowerSnakeCase => lower_snake_suggestion(name),
        CaseType::UpperSnakeCase => upper_snake_suggestion(name),
        CaseType::UpperCamelCase => camel_suggestion(name),
    }
}

/// One diagnostic: a declared name that departs from its expected case.
#[derive(Debug)]
pub struct IncorrectCase {
    /// The file holding the declaration.
    pub file: FileId,
    /// The range of the name token itself.
    pub ident_range: TextRange,
    /// What kind of declaration carries the name.
    pub ident_type: IdentKind,
    /// The case the name should have.
    pub expected_case: CaseType,
    /// The name as declared.
    pub ident_text: String,
    /// The conforming spelling to suggest.
    pub suggested_text: String,
}

/// Checks one declared name: `None` when the name already has the case
/// its kind expects, otherwise the diagnostic with the suggested
/// spelling.
pub fn check_case(kind: IdentKind, name: &str, file: FileId, range: TextRange) -> (r: Option<
    IncorrectCase,
>)
    ensures
        case_suggestion(expected_case(kind), name@) is None <==> r is None,
        r matches Some(d) ==> {
            &&& d.file == file
            &&& d.ident_range == range
            &&& d.ident_type == kind
            &&& d.expected_case == expected_case(kind)
            &&& d.ident_text@ == name@
            &&& Some(d.suggested_text@) == case_suggestion(expected_case(kind), name@)
        },
{
    let (case, suggestion): (CaseType, Option<String>) = match kind {
        IdentKind::Function | IdentKind::Argument | IdentKind::Variable | IdentKind::Field => (
            CaseType::LowerSnakeCase,
            to_lower_snake_case(name),
        ),
        IdentKind::Structure | IdentKind::Enum | IdentKind::Variant => (
            CaseType::UpperCamelCase,
            to_camel_case(name),
        ),
        IdentKind::Constant | IdentKind::StaticVariable => (
            CaseType::UpperSnakeCase,
            to_upper_snake_case(name),
        ),
    };
    match suggestion {
        None => None,
        Some(suggested_text) => Some(
            IncorrectCase {
                file,
                ident_range: range,
                ident_type: kind,
                expected_case: case,
                ident_text: name.to_owned(),
                suggested_text,
            },
        ),
    }
}

/// One declaration, as the semantic model lists them while walking the
/// item tree: its kind, its name, and the name token's location.
#[derive(Debug)]
pub struct Declaration {
    pub kind: IdentKind,
    pub name: String,
    pub file: FileId,
    pub range: TextRange,
}

/// Whether a declaration's name departs from the case its kind expects.
pub open spec fn decl_flagged(d: Declaration) -> bool {
    case_suggestion(expected_case(d.kind), d.name@) is Some
}

/// Checks a whole list of declarations in order: exactly one diagnostic
/// per declaration whose name departs from its expected case, each
/// carrying the declaration's location and the suggested spelling.
pub fn check_declarations(decls: &Vec<Declaration>) -> (r: Vec<IncorrectCase>)
    ensures
        ({
            let flagged = decls@.filter(|d: Declaration| decl_flagged(d));
            &&& r@.len() == flagged.len()
            &&& forall|k: int|
                0 <= k < r@.len() ==> {
                    &&& (#[trigger] r@[k]).file == flagged[k].file
                    &&& r@[k].ident_range == flagged[k].range
                    &&& r@[k].ident_type == flagged[k].kind
                    &&& r@[k].expected_case == expected_case(flagged[k].kind)
                    &&& r@[k].ident_text@ == flagged[k].name@
                    &&& case_suggestion(expected_case(flagged[k].kind), flagged[k].name@) == Some(
                        r@[k].suggested_text@,
                    )
                }
        }),
{
    let ghost pred = |d: Declaration| decl_flagged(d);
    let mut r: Vec<IncorrectCase> = Vec::new();
    let mut i: usize = 0;
    while i < decls.len()
        invariant
            i <= decls@.len(),
            pred == (|d: Declaration| decl_flagged(d)),
            ({
                let flagged = decls@.take(i as int).filter(pred);
                &&& r@.len() == flagged.len()
                &&& forall|k: int|
                    0 <= k < r@.len() ==> {
                        &&& (#[trigger] r@[k]).file == flagged[k].file
                        &&& r@[k].ident_range == flagged[k].range
                        &&& r@[k].ident_type == flagged[k].kind
                        &&& r@[k].expected_case == expected_case(flagged[k].kind)
                        &&& r@[k].ident_text@ == flagged[k].name@
                        &&& case_suggestion(expected_case(flagged[k].kind), flagged[k].name@)
                            == Some(r@[k].suggested_text@)
                    }
            }),
        decreases decls@.len() - i,
    {
        let d = &decls[i];
        proof {
            reveal(Seq::filter);
            assert(decls@.take(i + 1).drop_last() =~= decls@.take(i as int));
            assert(decls@.take(i + 1).last() == decls@[i as int]);
        }
        let ghost flagged_old = decls@.take(i as int).filter(pred);
        match check_case(d.kind, d.name.as_str(), d.file, d.range) {
            None => {
                proof {
                    assert(!decl_flagged(decls@[i as int]));
                    assert(decls@.take(i + 1).filter(pred) =~= flagged_old);
                }
            },
            Some(diagnostic) => {
                proof {
                    assert(decl_flagged(decls@[i as int]));
                    assert(decls@.take(i + 1).filter(pred) =~= flagged_old.push(
                        decls@[i as int],
                    ));
                }
                r.push(diagnostic);
            },
        }
        i += 1;
    }
    proof {
        assert(decls@.take(decls@.len() as int) =~= decls@);
    }
    r
}

/// The words a diagnostic names its declaration kind with.
pub open spec fn kind_text(kind: IdentKind) -> Seq<char> {
    match kind {
        IdentKind::Function => "Function"@,
        IdentKind::Argument => "Argument"@,
        IdentKind::Variable => "Variable"@,
        IdentKind::Structure => "Structure"@,
        IdentKind::Field => "Field"@,
        IdentKind::Enum => "Enum"@,
        IdentKind::Variant => "Variant"@,
        IdentKind::Constant => "Constant"@,
        IdentKind::StaticVariable => "Static variable"@,
    }
}

/// The words a diagnostic names the expected case with.
pub open spec fn case_text(case: CaseType) -> Seq<char> {
    match case {
        CaseType::LowerSnakeCase => "snake_case"@,
        CaseType::UpperSnakeCase => "UPPER_SNAKE_CASE"@,
        CaseType::UpperCamelCase => "CamelCase"@,
    }
}

/// The diagnostic's one-line message.
pub open spec fn spec_message(d: IncorrectCase) -> Seq<char> {
    kind_text(d.ident_type) + " `"@ + d.ident_text@ + "` should have "@ + case_text(
        d.expected_case,
    ) + " name, e.g. `"@ + d.suggested_text@ + "`"@
}

impl IncorrectCase {
    /// Renders the user-facing message.
    pub fn message(&self) -> (r: String)
        ensures
            r@ == spec_message(*self),
    {
        let mut m = match self.ident_type {
            IdentKind::Function => String::from_str("Function"),
            IdentKind::Argument => String::from_str("Argument"),
            IdentKind::Variable => String::from_str("Variable"),
            IdentKind::Structure => String::from_str("Structure"),
            IdentKind::Field => String::from_str("Field"),
            IdentKind::Enum => String::from_str("Enum"),
            IdentKind::Variant => String::from_str("Variant"),
            IdentKind::Constant => String::from_str("Constant"),
            IdentKind::StaticVariable => String::from_str("Static variable"),
        };
        m.append(" `");
        m.append(self.ident_text.as_str());
        m.append("` should have ");
        match self.expected_case {
            CaseType::LowerSnakeCase => m.append("snake_case"),
            CaseType::UpperSnakeCase => m.append("UPPER_SNAKE_CASE"),
            CaseType::UpperCamelCase => m.append("CamelCase"),
        }
        m.append(" name, e.g. `");
        m.append(self.suggested_text.as_str());
        m.append("`");
        m
    }
}

} // verus!
