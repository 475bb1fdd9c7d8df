//! A verified rename-refactoring engine for a multi-file symbolic source tree.
//!
//! Given a cursor position and a proposed new identifier, the engine computes
//! the complete set of textual edits, and any required file relocation, that
//! renames the entity at that position, as one atomic change description.
//! Reference resolution, parsing and all other semantic queries are external
//! collaborators: their answers are handed in as plain values, and every
//! decision taken on those answers is verified here.
//!
//! A naming-convention checker for declarations (snake_case, CamelCase,
//! UPPER_SNAKE_CASE) lives alongside the engine in [`case_conv`] and
//! [`decl_check`].

pub mod apply;
pub mod case_conv;
pub mod chars;
pub mod decl_check;
pub mod edit;
pub mod ident;
pub mod laws;
pub mod rename;
pub mod location;

pub use location::{FileId, FilePosition, RangeInfo, TextRange};
