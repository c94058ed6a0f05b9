//! Identifiers of definitions and of what they hold.
//!
//! A definition's identifier is handed out by name resolution. A local
//! identifier is an index into the arena of the definition that owns it and
//! says nothing outside of it.

use vstd::prelude::*;

verus! {

/// A struct of the program.
#[derive(Clone, Copy, PartialEq, Eq, Structural, Debug, Hash)]
pub struct StructId(pub u32);

/// A union of the program.
#[derive(Clone, Copy, PartialEq, Eq, Structural, Debug, Hash)]
pub struct UnionId(pub u32);

/// An enum of the program.
#[derive(Clone, Copy, PartialEq, Eq, Structural, Debug, Hash)]
pub struct EnumId(pub u32);

/// A function of the program.
#[derive(Clone, Copy, PartialEq, Eq, Structural, Debug, Hash)]
pub struct FunctionId(pub u32);

/// The index of a variant in its enum's arena.
#[derive(Clone, Copy, PartialEq, Eq, Structural, Debug, Hash)]
pub struct LocalEnumVariantId(pub usize);

/// The index of a field in its shape's arena.
#[derive(Clone, Copy, PartialEq, Eq, Structural, Debug, Hash)]
pub struct LocalStructFieldId(pub usize);

/// A variant of an enum: the enum, and the index of the variant in it.
#[derive(Clone, Copy, PartialEq, Eq, Structural, Debug, Hash)]
pub struct EnumVariantId {
    pub parent: EnumId,
    pub local_id: LocalEnumVariantId,
}

/// Anything that has fields: a variant of an enum, a struct or a union.
#[derive(Clone, Copy, PartialEq, Eq, Structural, Debug, Hash)]
pub enum VariantId {
    EnumVariantId(EnumVariantId),
    StructId(StructId),
    UnionId(UnionId),
}

/// A definition of a type: a struct, a union or an enum.
#[derive(Clone, Copy, PartialEq, Eq, Structural, Debug, Hash)]
pub enum AdtId {
    StructId(StructId),
    UnionId(UnionId),
    EnumId(EnumId),
}

/// The index of an expression in its body's arena.
#[derive(Clone, Copy, PartialEq, Eq, Structural, Debug, Hash)]
pub struct ExprId(pub usize);

/// The index of a pattern in its body's arena.
#[derive(Clone, Copy, PartialEq, Eq, Structural, Debug, Hash)]
pub struct PatId(pub usize);

} // verus!
