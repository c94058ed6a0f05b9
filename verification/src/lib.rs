//! The semantic core of a source analysis for a language with structs,
//! enums and unions, pattern matching and a result type.
//!
//! The crate has three parts.
//!
//! The first is the model of algebraic data types: [`adt`] lowers the
//! syntax of a definition, which [`source`] describes, into values that hold
//! no position in the source, and can give for every field and variant the
//! node that it was lowered from. Both are built by one walk, recorded in a
//! [`trace`], so the index of a field in its [`arena`] is the index of its
//! node in the source map.
//!
//! The second is the validation of function bodies: [`expr`] checks record
//! literals for missing fields, matches for missing arms and tail
//! expressions for a missing `Ok`, from a [`body`], what [`infer`] knows of
//! it and the definitions in a [`db`], and pushes what it finds into a sink
//! of [`diagnostics`].
//!
//! The third is concrete syntax: [`syntax`] holds trees of tokens and
//! nodes, typed views of nodes and the edits that give a changed copy of a
//! tree; [`validation`] finds what the parser lets through and should not;
//! [`codegen`] spells names the way generated code wants them.
//!
//! Every function states what it returns in terms of plain values:
//! sequences, sets and maps, and the view of each type. What the crate
//! takes from other crates is declared in [`ext`], with contracts that are
//! believed and not proved.

pub mod adt;
pub mod arena;
pub mod body;
pub mod codegen;
pub mod db;
pub mod diagnostics;
pub mod expr;
pub mod ext;
pub mod ids;
pub mod infer;
pub mod name;
pub mod source;
pub mod syntax;
pub mod trace;
pub mod ty;
pub mod type_ref;
pub mod validation;
