//! The rename engine's behaviour on concrete sources. The semantic
//! model's answers (reference resolution, classification, module and
//! function facts) are supplied by hand for each fixture, as the
//! resolver of the surrounding tooling would report them.

use rename_engine::edit::SourceChange;
use rename_engine::location::{FileId, FilePosition, TextRange};
use rename_engine::rename::{
    rename, FnContext, ModuleBacking, ModuleDeclSite, ModuleInfo, ParamInfo, ParamTypeShape,
    ReceiverContext, Reference, ReferenceKind, SelfParamInfo, Snapshot, SymbolRefs,
};

fn cursor_marker(fixture: &str) -> (String, u32) {
    let idx = fixture.find("<|>").expect("fixture has a cursor marker");
    (fixture.replace("<|>", ""), idx as u32)
}

fn is_word_byte(b: u8) -> bool {
    b == b'_' || b.is_ascii_alphanumeric()
}

/// The `n`-th (0-based) whole-word occurrence of `name` in `text`.
fn word_occurrence(text: &str, name: &str, n: usize) -> (u32, u32) {
    let mut count = 0;
    let mut from = 0;
    while let Some(pos) = text[from..].find(name) {
        let s = from + pos;
        let e = s + name.len();
        let before_ok = s == 0 || !is_word_byte(text.as_bytes()[s - 1]);
        let after_ok = e == text.len() || !is_word_byte(text.as_bytes()[e]);
        if before_ok && after_ok {
            if count == n {
                return (s as u32, e as u32);
            }
            count += 1;
        }
        from = s + 1;
    }
    panic!("occurrence {} of `{}` not found", n, name);
}

fn reference_at(range: (u32, u32), kind: ReferenceKind) -> Reference {
    Reference { file_id: FileId(0), range: TextRange { start: range.0, end: range.1 }, kind }
}

fn apply_to_file(text: &str, file: FileId, change: &SourceChange) -> String {
    let mut s: Vec<char> = text.chars().collect();
    for e in &change.source_file_edits {
        if e.file_id == file {
            for ind in e.edit.indels.iter().rev() {
                let start = ind.delete.start as usize;
                let end = ind.delete.end as usize;
                let ins: Vec<char> = ind.insert.chars().collect();
                s.splice(start..end, ins);
            }
        }
    }
    s.into_iter().collect()
}

fn symbol_snapshot(primary: (u32, u32), refs: Vec<Reference>) -> Snapshot {
    Snapshot {
        module_at_position: None,
        receiver_at_position: None,
        refs: Some(SymbolRefs {
            range: TextRange { start: primary.0, end: primary.1 },
            references: refs,
        }),
        fn_context: None,
        file_text: String::new(),
    }
}

/// Runs a symbol rename whose references are the listed whole-word
/// occurrences of `old` (occurrence index, kind), and compares the
/// edited text.
fn check_symbol_rename(
    new_name: &str,
    fixture: &str,
    expected: &str,
    old: &str,
    refs: &[(usize, ReferenceKind)],
    primary_occurrence: usize,
) {
    let (text, _offset) = cursor_marker(fixture);
    let references: Vec<Reference> = refs
        .iter()
        .map(|&(n, kind)| reference_at(word_occurrence(&text, old, n), kind))
        .collect();
    let primary = word_occurrence(&text, old, primary_occurrence);
    let snapshot = symbol_snapshot(primary, references);
    let position = FilePosition { file_id: FileId(0), offset: _offset };
    let result = rename(position, new_name, snapshot);
    if let Some(message) = expected.strip_prefix("error:") {
        let err = result.err().expect("rename should fail");
        assert_eq!(message.trim(), err.message);
    } else {
        let info = result.expect("rename should succeed");
        assert_eq!(expected, apply_to_file(&text, FileId(0), &info.info));
    }
}

#[test]
fn test_rename_to_underscore() {
    check_symbol_rename(
        "_",
        r#"fn main() { let i<|> = 1; }"#,
        r#"fn main() { let _ = 1; }"#,
        "i",
        &[(0, ReferenceKind::Other)],
        0,
    );
}

#[test]
fn test_rename_to_raw_identifier() {
    check_symbol_rename(
        "r#fn",
        r#"fn main() { let i<|> = 1; }"#,
        r#"fn main() { let r#fn = 1; }"#,
        "i",
        &[(0, ReferenceKind::Other)],
        0,
    );
}

#[test]
fn test_rename_to_invalid_identifier1() {
    check_symbol_rename(
        "invalid!",
        r#"fn main() { let i<|> = 1; }"#,
        "error: Invalid name `invalid!`: not an identifier",
        "i",
        &[(0, ReferenceKind::Other)],
        0,
    );
}

#[test]
fn test_rename_to_invalid_identifier2() {
    check_symbol_rename(
        "multiple tokens",
        r#"fn main() { let i<|> = 1; }"#,
        "error: Invalid name `multiple tokens`: not an identifier",
        "i",
        &[(0, ReferenceKind::Other)],
        0,
    );
}

#[test]
fn test_rename_to_invalid_identifier3() {
    check_symbol_rename(
        "let",
        r#"fn main() { let i<|> = 1; }"#,
        "error: Invalid name `let`: not an identifier",
        "i",
        &[(0, ReferenceKind::Other)],
        0,
    );
}

#[test]
fn test_rename_for_local() {
    check_symbol_rename(
        "k",
        r#"
fn main() {
    let mut i = 1;
    let j = 1;
    i = i<|> + j;

    { i = 0; }

    i = 5;
}
"#,
        r#"
fn main() {
    let mut k = 1;
    let j = 1;
    k = k + j;

    { k = 0; }

    k = 5;
}
"#,
        "i",
        &[
            (0, ReferenceKind::Other),
            (1, ReferenceKind::Other),
            (2, ReferenceKind::Other),
            (3, ReferenceKind::Other),
            (4, ReferenceKind::Other),
        ],
        2,
    );
}

#[test]
fn test_rename_unresolved_reference() {
    let (text, offset) = cursor_marker(r#"fn main() { let _ = unresolved_ref<|>; }"#);
    let snapshot = Snapshot {
        module_at_position: None,
        receiver_at_position: None,
        refs: None,
        fn_context: None,
        file_text: text,
    };
    let position = FilePosition { file_id: FileId(0), offset };
    let err = rename(position, "new_name", snapshot).err().expect("unresolved symbol");
    assert_eq!("No references found at position", err.message);
}

#[test]
fn test_rename_for_macro_args() {
    check_symbol_rename(
        "b",
        r#"
macro_rules! foo {($i:ident) => {$i} }
fn main() {
    let a<|> = "test";
    foo!(a);
}
"#,
        r#"
macro_rules! foo {($i:ident) => {$i} }
fn main() {
    let b = "test";
    foo!(b);
}
"#,
        "a",
        &[(0, ReferenceKind::Other), (1, ReferenceKind::Other)],
        0,
    );
}

#[test]
fn test_rename_for_macro_args_rev() {
    check_symbol_rename(
        "b",
        r#"
macro_rules! foo {($i:ident) => {$i} }
fn main() {
    let a = "test";
    foo!(a<|>);
}
"#,
        r#"
macro_rules! foo {($i:ident) => {$i} }
fn main() {
    let b = "test";
    foo!(b);
}
"#,
        "a",
        &[(0, ReferenceKind::Other), (1, ReferenceKind::Other)],
        1,
    );
}

#[test]
fn test_rename_for_macro_define_fn() {
    check_symbol_rename(
        "bar",
        r#"
macro_rules! define_fn {($id:ident) => { fn $id{} }}
define_fn!(foo);
fn main() {
    fo<|>o();
}
"#,
        r#"
macro_rules! define_fn {($id:ident) => { fn $id{} }}
define_fn!(bar);
fn main() {
    bar();
}
"#,
        "foo",
        &[(0, ReferenceKind::Other), (1, ReferenceKind::Other)],
        1,
    );
}

#[test]
fn test_rename_for_macro_define_fn_rev() {
    check_symbol_rename(
        "bar",
        r#"
macro_rules! define_fn {($id:ident) => { fn $id{} }}
define_fn!(fo<|>o);
fn main() {
    foo();
}
"#,
        r#"
macro_rules! define_fn {($id:ident) => { fn $id{} }}
define_fn!(bar);
fn main() {
    bar();
}
"#,
        "foo",
        &[(0, ReferenceKind::Other), (1, ReferenceKind::Other)],
        0,
    );
}

#[test]
fn test_rename_for_param_inside() {
    check_symbol_rename(
        "j",
        r#"fn foo(i : u32) -> u32 { i<|> }"#,
        r#"fn foo(j : u32) -> u32 { j }"#,
        "i",
        &[(0, ReferenceKind::Other), (1, ReferenceKind::Other)],
        1,
    );
}

#[test]
fn test_rename_refs_for_fn_param() {
    check_symbol_rename(
        "j",
        r#"fn foo(i<|> : u32) -> u32 { i }"#,
        r#"fn foo(j : u32) -> u32 { j }"#,
        "i",
        &[(0, ReferenceKind::Other), (1, ReferenceKind::Other)],
        0,
    );
}

#[test]
fn test_rename_for_mut_param() {
    check_symbol_rename(
        "j",
        r#"fn foo(mut i<|> : u32) -> u32 { i }"#,
        r#"fn foo(mut j : u32) -> u32 { j }"#,
        "i",
        &[(0, ReferenceKind::Other), (1, ReferenceKind::Other)],
        0,
    );
}

#[test]
fn test_rename_struct_field() {
    check_symbol_rename(
        "j",
        r#"
struct Foo { i<|>: i32 }

impl Foo {
    fn new(i: i32) -> Self {
        Self { i: i }
    }
}
"#,
        r#"
struct Foo { j: i32 }

impl Foo {
    fn new(i: i32) -> Self {
        Self { j: i }
    }
}
"#,
        "i",
        &[(0, ReferenceKind::Other), (2, ReferenceKind::Other)],
        0,
    );
}

#[test]
fn test_rename_struct_field_for_shorthand() {
    check_symbol_rename(
        "j",
        r#"
struct Foo { i<|>: i32 }

impl Foo {
    fn new(i: i32) -> Self {
        Self { i }
    }
}
"#,
        r#"
struct Foo { j: i32 }

impl Foo {
    fn new(i: i32) -> Self {
        Self { j: i }
    }
}
"#,
        "i",
        &[(0, ReferenceKind::Other), (2, ReferenceKind::FieldShorthandForField)],
        0,
    );
}

#[test]
fn test_rename_local_for_field_shorthand() {
    check_symbol_rename(
        "j",
        r#"
struct Foo { i: i32 }

impl Foo {
    fn new(i<|>: i32) -> Self {
        Self { i }
    }
}
"#,
        r#"
struct Foo { i: i32 }

impl Foo {
    fn new(j: i32) -> Self {
        Self { i: j }
    }
}
"#,
        "i",
        &[(1, ReferenceKind::Other), (2, ReferenceKind::FieldShorthandForLocal)],
        1,
    );
}

#[test]
fn test_field_shorthand_correct_struct() {
    check_symbol_rename(
        "j",
        r#"
struct Foo { i<|>: i32 }
struct Bar { i: i32 }

impl Bar {
    fn new(i: i32) -> Self {
        Self { i }
    }
}
"#,
        r#"
struct Foo { j: i32 }
struct Bar { i: i32 }

impl Bar {
    fn new(i: i32) -> Self {
        Self { i }
    }
}
"#,
        "i",
        &[(0, ReferenceKind::Other)],
        0,
    );
}

#[test]
fn test_shadow_local_for_struct_shorthand() {
    check_symbol_rename(
        "j",
        r#"
struct Foo { i: i32 }

fn baz(i<|>: i32) -> Self {
     let x = Foo { i };
     {
         let i = 0;
         Foo { i }
     }
}
"#,
        r#"
struct Foo { i: i32 }

fn baz(j: i32) -> Self {
     let x = Foo { i: j };
     {
         let i = 0;
         Foo { i }
     }
}
"#,
        "i",
        &[(1, ReferenceKind::Other), (2, ReferenceKind::FieldShorthandForLocal)],
        1,
    );
}

fn module_snapshot(info: ModuleInfo, primary: (u32, u32), refs: Vec<Reference>) -> Snapshot {
    Snapshot {
        module_at_position: Some(info),
        receiver_at_position: None,
        refs: Some(SymbolRefs {
            range: TextRange { start: primary.0, end: primary.1 },
            references: refs,
        }),
        fn_context: None,
        file_text: String::new(),
    }
}

#[test]
fn test_rename_mod() {
    // lib.rs (0): "mod bar;" / bar.rs (1): "mod foo;" / bar/foo.rs (2).
    let bar_rs = "mod foo;\n";
    let decl = word_occurrence(bar_rs, "foo", 0);
    let info = ModuleInfo {
        backing: ModuleBacking::SourceFile { file_id: FileId(2), is_mod_rs: false },
        declaration: Some(ModuleDeclSite {
            file_id: FileId(1),
            name_range: TextRange { start: decl.0, end: decl.1 },
        }),
    };
    let snapshot = module_snapshot(info, decl, Vec::new());
    let position = FilePosition { file_id: FileId(1), offset: decl.0 };
    let result = rename(position, "foo2", snapshot).expect("module rename succeeds");
    assert_eq!(result.range, TextRange { start: 4, end: 7 });
    let change = result.info;
    assert!(!change.is_snippet);
    assert_eq!(1, change.source_file_edits.len());
    assert_eq!(FileId(1), change.source_file_edits[0].file_id);
    assert_eq!(1, change.source_file_edits[0].edit.indels.len());
    assert_eq!("foo2", change.source_file_edits[0].edit.indels[0].insert);
    assert_eq!(
        TextRange { start: 4, end: 7 },
        change.source_file_edits[0].edit.indels[0].delete
    );
    assert_eq!(1, change.file_moves.len());
    assert_eq!(FileId(2), change.file_moves[0].src);
    assert_eq!(FileId(2), change.file_moves[0].anchor);
    assert_eq!("foo2.rs", change.file_moves[0].dst);
}

#[test]
fn test_rename_mod_in_use_tree() {
    // main.rs (0) / foo.rs (1) / bar.rs (2): "use crate::foo::FooContent;".
    let main_rs = "pub mod foo;\npub mod bar;\nfn main() {}\n";
    let bar_rs = "use crate::foo::FooContent;\n";
    let decl = word_occurrence(main_rs, "foo", 0);
    let use_site = word_occurrence(bar_rs, "foo", 0);
    let info = ModuleInfo {
        backing: ModuleBacking::SourceFile { file_id: FileId(1), is_mod_rs: false },
        declaration: Some(ModuleDeclSite {
            file_id: FileId(0),
            name_range: TextRange { start: decl.0, end: decl.1 },
        }),
    };
    let refs = vec![Reference {
        file_id: FileId(2),
        range: TextRange { start: use_site.0, end: use_site.1 },
        kind: ReferenceKind::Other,
    }];
    let snapshot = module_snapshot(info, use_site, refs);
    let position = FilePosition { file_id: FileId(2), offset: use_site.0 };
    let result = rename(position, "quux", snapshot).expect("module rename succeeds");
    assert_eq!(result.range, TextRange { start: 11, end: 14 });
    let change = result.info;
    assert_eq!(2, change.source_file_edits.len());
    let decl_edit = change
        .source_file_edits
        .iter()
        .find(|e| e.file_id == FileId(0))
        .expect("declaration edit");
    assert_eq!(1, decl_edit.edit.indels.len());
    assert_eq!("quux", decl_edit.edit.indels[0].insert);
    assert_eq!(TextRange { start: 8, end: 11 }, decl_edit.edit.indels[0].delete);
    let ref_edit = change
        .source_file_edits
        .iter()
        .find(|e| e.file_id == FileId(2))
        .expect("reference edit");
    assert_eq!(1, ref_edit.edit.indels.len());
    assert_eq!("quux", ref_edit.edit.indels[0].insert);
    assert_eq!(TextRange { start: 11, end: 14 }, ref_edit.edit.indels[0].delete);
    assert_eq!(1, change.file_moves.len());
    assert_eq!(FileId(1), change.file_moves[0].src);
    assert_eq!(FileId(1), change.file_moves[0].anchor);
    assert_eq!("quux.rs", change.file_moves[0].dst);
}

#[test]
fn test_rename_mod_in_dir() {
    // lib.rs (0): "mod foo;" / foo/mod.rs (1).
    let lib_rs = "mod foo;\n";
    let decl = word_occurrence(lib_rs, "foo", 0);
    let info = ModuleInfo {
        backing: ModuleBacking::SourceFile { file_id: FileId(1), is_mod_rs: true },
        declaration: Some(ModuleDeclSite {
            file_id: FileId(0),
            name_range: TextRange { start: decl.0, end: decl.1 },
        }),
    };
    let snapshot = module_snapshot(info, decl, Vec::new());
    let position = FilePosition { file_id: FileId(0), offset: decl.0 };
    let result = rename(position, "foo2", snapshot).expect("module rename succeeds");
    assert_eq!(result.range, TextRange { start: 4, end: 7 });
    let change = result.info;
    assert_eq!(1, change.source_file_edits.len());
    assert_eq!(FileId(0), change.source_file_edits[0].file_id);
    assert_eq!("foo2", change.source_file_edits[0].edit.indels[0].insert);
    assert_eq!(
        TextRange { start: 4, end: 7 },
        change.source_file_edits[0].edit.indels[0].delete
    );
    assert_eq!(1, change.file_moves.len());
    assert_eq!(FileId(1), change.file_moves[0].src);
    assert_eq!(FileId(1), change.file_moves[0].anchor);
    assert_eq!("../foo2/mod.rs", change.file_moves[0].dst);
}

#[test]
fn test_rename_unusually_nested_mod() {
    // lib.rs (0): "mod outer { mod foo; }" / outer/foo.rs (1).
    let lib_rs = "mod outer { mod foo; }\n";
    let decl = word_occurrence(lib_rs, "foo", 0);
    let info = ModuleInfo {
        backing: ModuleBacking::SourceFile { file_id: FileId(1), is_mod_rs: false },
        declaration: Some(ModuleDeclSite {
            file_id: FileId(0),
            name_range: TextRange { start: decl.0, end: decl.1 },
        }),
    };
    let snapshot = module_snapshot(info, decl, Vec::new());
    let position = FilePosition { file_id: FileId(0), offset: decl.0 };
    let result = rename(position, "bar", snapshot).expect("module rename succeeds");
    assert_eq!(result.range, TextRange { start: 16, end: 19 });
    let change = result.info;
    assert_eq!(1, change.source_file_edits.len());
    assert_eq!("bar", change.source_file_edits[0].edit.indels[0].insert);
    assert_eq!(
        TextRange { start: 16, end: 19 },
        change.source_file_edits[0].edit.indels[0].delete
    );
    assert_eq!(1, change.file_moves.len());
    assert_eq!("bar.rs", change.file_moves[0].dst);
}

#[test]
fn test_module_rename_in_path() {
    let fixture = r#"
mod <|>foo { pub fn bar() {} }

fn main() { foo::bar(); }
"#;
    let expected = r#"
mod baz { pub fn bar() {} }

fn main() { baz::bar(); }
"#;
    let (text, offset) = cursor_marker(fixture);
    let decl = word_occurrence(&text, "foo", 0);
    let path_ref = word_occurrence(&text, "foo", 1);
    let info = ModuleInfo {
        backing: ModuleBacking::Inline,
        declaration: Some(ModuleDeclSite {
            file_id: FileId(0),
            name_range: TextRange { start: decl.0, end: decl.1 },
        }),
    };
    let refs = vec![reference_at(path_ref, ReferenceKind::Other)];
    let snapshot = module_snapshot(info, decl, refs);
    let position = FilePosition { file_id: FileId(0), offset };
    let result = rename(position, "baz", snapshot).expect("module rename succeeds");
    assert!(result.info.file_moves.is_empty());
    assert_eq!(expected, apply_to_file(&text, FileId(0), &result.info));
}

#[test]
fn test_rename_mod_filename_and_path() {
    // lib.rs (0) / bar.rs (1): "pub mod foo;" / bar/foo.rs (2).
    let lib_rs = "mod bar;\nfn f() {\n    bar::foo::fun()\n}\n";
    let bar_rs = "pub mod foo;\n";
    let decl = word_occurrence(bar_rs, "foo", 0);
    let path_ref = word_occurrence(lib_rs, "foo", 0);
    let info = ModuleInfo {
        backing: ModuleBacking::SourceFile { file_id: FileId(2), is_mod_rs: false },
        declaration: Some(ModuleDeclSite {
            file_id: FileId(1),
            name_range: TextRange { start: decl.0, end: decl.1 },
        }),
    };
    let refs = vec![Reference {
        file_id: FileId(0),
        range: TextRange { start: path_ref.0, end: path_ref.1 },
        kind: ReferenceKind::Other,
    }];
    let snapshot = module_snapshot(info, decl, refs);
    let position = FilePosition { file_id: FileId(1), offset: decl.0 };
    let result = rename(position, "foo2", snapshot).expect("module rename succeeds");
    assert_eq!(result.range, TextRange { start: 8, end: 11 });
    let change = result.info;
    assert_eq!(2, change.source_file_edits.len());
    let decl_edit = change
        .source_file_edits
        .iter()
        .find(|e| e.file_id == FileId(1))
        .expect("declaration edit");
    assert_eq!("foo2", decl_edit.edit.indels[0].insert);
    assert_eq!(TextRange { start: 8, end: 11 }, decl_edit.edit.indels[0].delete);
    let ref_edit = change
        .source_file_edits
        .iter()
        .find(|e| e.file_id == FileId(0))
        .expect("path reference edit");
    assert_eq!("foo2", ref_edit.edit.indels[0].insert);
    assert_eq!(TextRange { start: 27, end: 30 }, ref_edit.edit.indels[0].delete);
    assert_eq!(1, change.file_moves.len());
    assert_eq!(FileId(2), change.file_moves[0].src);
    assert_eq!("foo2.rs", change.file_moves[0].dst);
}

#[test]
fn test_enum_variant_from_module_1() {
    check_symbol_rename(
        "Baz",
        r#"
mod foo {
    pub enum Foo { Bar<|> }
}

fn func(f: foo::Foo) {
    match f {
        foo::Foo::Bar => {}
    }
}
"#,
        r#"
mod foo {
    pub enum Foo { Baz }
}

fn func(f: foo::Foo) {
    match f {
        foo::Foo::Baz => {}
    }
}
"#,
        "Bar",
        &[(0, ReferenceKind::Other), (1, ReferenceKind::Other)],
        0,
    );
}

#[test]
fn test_enum_variant_from_module_2() {
    check_symbol_rename(
        "baz",
        r#"
mod foo {
    pub struct Foo { pub bar<|>: uint }
}

fn foo(f: foo::Foo) {
    let _ = f.bar;
}
"#,
        r#"
mod foo {
    pub struct Foo { pub baz: uint }
}

fn foo(f: foo::Foo) {
    let _ = f.baz;
}
"#,
        "bar",
        &[(0, ReferenceKind::Other), (1, ReferenceKind::Other)],
        0,
    );
}

#[test]
fn test_parameter_to_self() {
    let fixture = r#"
struct Foo { i: i32 }

impl Foo {
    fn f(foo<|>: &mut Foo) -> i32 {
        foo.i
    }
}
"#;
    let expected = r#"
struct Foo { i: i32 }

impl Foo {
    fn f(&mut self) -> i32 {
        self.i
    }
}
"#;
    let (text, offset) = cursor_marker(fixture);
    let param_start = word_occurrence(&text, "foo", 0).0;
    let param_end = param_start + "foo: &mut Foo".len() as u32;
    let decl = word_occurrence(&text, "foo", 0);
    let usage = word_occurrence(&text, "foo", 1);
    let snapshot = Snapshot {
        module_at_position: None,
        receiver_at_position: None,
        refs: Some(SymbolRefs {
            range: TextRange { start: decl.0, end: decl.1 },
            references: vec![
                reference_at(decl, ReferenceKind::Other),
                reference_at(usage, ReferenceKind::Other),
            ],
        }),
        fn_context: Some(FnContext {
            has_param_list: true,
            has_self_param: false,
            first_param: Some(ParamInfo {
                range: TextRange { start: param_start, end: param_end },
                shape: ParamTypeShape::RefType { mutable: true },
            }),
        }),
        file_text: text.clone(),
    };
    let position = FilePosition { file_id: FileId(0), offset };
    let result = rename(position, "self", snapshot).expect("conversion succeeds");
    assert_eq!(expected, apply_to_file(&text, FileId(0), &result.info));
}

fn receiver_fixture_snapshot(text: &str, token: (u32, u32), is_mut: bool) -> Snapshot {
    let fn_start = text.find("fn f").expect("fixture has the method") as u32;
    let fn_end = text.rfind("    }").expect("fixture has the method body") as u32 + 5;
    let decl_text = if is_mut { "&mut self" } else { "&self" };
    let decl_start = text.find(decl_text).expect("fixture declares the receiver") as u32;
    let decl_end = decl_start + decl_text.len() as u32;
    Snapshot {
        module_at_position: None,
        receiver_at_position: Some(ReceiverContext {
            token_range: TextRange { start: token.0, end: token.1 },
            fn_range: Some(TextRange { start: fn_start, end: fn_end }),
            self_param: Some(SelfParamInfo {
                range: TextRange { start: decl_start, end: decl_end },
                is_mut,
            }),
            impl_type_name: Some("Foo".to_string()),
        }),
        refs: None,
        fn_context: None,
        file_text: text.to_string(),
    }
}

#[test]
fn test_self_to_parameter() {
    let fixture = r#"
struct Foo { i: i32 }

impl Foo {
    fn f(&mut <|>self) -> i32 {
        self.i
    }
}
"#;
    let expected = r#"
struct Foo { i: i32 }

impl Foo {
    fn f(foo: &mut Foo) -> i32 {
        foo.i
    }
}
"#;
    let (text, offset) = cursor_marker(fixture);
    let token = word_occurrence(&text, "self", 0);
    let snapshot = receiver_fixture_snapshot(&text, token, true);
    let position = FilePosition { file_id: FileId(0), offset };
    let result = rename(position, "foo", snapshot).expect("conversion succeeds");
    assert_eq!(expected, apply_to_file(&text, FileId(0), &result.info));
}

#[test]
fn test_self_in_path_to_parameter() {
    let fixture = r#"
struct Foo { i: i32 }

impl Foo {
    fn f(&self) -> i32 {
        let self_var = 1;
        self<|>.i
    }
}
"#;
    let expected = r#"
struct Foo { i: i32 }

impl Foo {
    fn f(foo: &Foo) -> i32 {
        let self_var = 1;
        foo.i
    }
}
"#;
    let (text, offset) = cursor_marker(fixture);
    let token = word_occurrence(&text, "self", 1);
    let snapshot = receiver_fixture_snapshot(&text, token, false);
    let position = FilePosition { file_id: FileId(0), offset };
    let result = rename(position, "foo", snapshot).expect("conversion succeeds");
    assert_eq!(expected, apply_to_file(&text, FileId(0), &result.info));
}
