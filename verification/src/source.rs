//! What the lowering reads of a definition's concrete syntax.
//!
//! Each record stands for one node: `ptr` says which node it is, the other
//! fields hold what the node's children say, each absent where the source
//! omits it.

use vstd::prelude::*;
use crate::syntax::kind::AstPtr;
use crate::type_ref::VisibilityKind;

verus! {

/// The file that a piece of syntax belongs to.
#[derive(Clone, Copy, PartialEq, Eq, Structural, Debug, Hash)]
pub struct FileId(pub u32);

/// A value together with the file that it was read from.
#[derive(Debug)]
pub struct InFile<T> {
    pub file_id: FileId,
    pub value: T,
}

impl<T> InFile<T> {
    pub fn new(file_id: FileId, value: T) -> (r: InFile<T>)
        ensures
            r.file_id == file_id,
            r.value == value,
    {
        InFile { file_id, value }
    }

    /// Another value in the same file.
    pub fn with_value<U>(&self, value: U) -> (r: InFile<U>)
        ensures
            r.file_id == self.file_id,
            r.value == value,
    {
        InFile { file_id: self.file_id, value }
    }
}

/// A field of a tuple shape: `pub u32` in `struct S(pub u32);`.
#[derive(Debug)]
pub struct TupleFieldDef {
    pub ptr: AstPtr,
    pub type_ref: Option<String>,
    pub visibility: Option<VisibilityKind>,
}

/// A field of a record shape: `pub x: u32` in `struct S { pub x: u32 }`.
#[derive(Debug)]
pub struct RecordFieldDef {
    pub ptr: AstPtr,
    pub name: Option<String>,
    pub ascribed_type: Option<String>,
    pub visibility: Option<VisibilityKind>,
}

/// The field list of a struct or of an enum's variant, by how it is
/// written.
#[derive(Debug)]
pub enum FieldDefList {
    Tuple(Vec<TupleFieldDef>),
    Record(Vec<RecordFieldDef>),
    Unit,
}

/// A field list that is borrowed from the definition that holds it.
#[derive(Debug)]
pub enum FieldList<'a> {
    Tuple(&'a Vec<TupleFieldDef>),
    Record(&'a Vec<RecordFieldDef>),
    Unit,
}

impl FieldDefList {
    /// The field list, borrowed.
    pub open spec fn spec_as_field_list(&self) -> FieldList<'_> {
        match self {
            FieldDefList::Tuple(fl) => FieldList::Tuple(fl),
            FieldDefList::Record(fl) => FieldList::Record(fl),
            FieldDefList::Unit => FieldList::Unit,
        }
    }

    /// The field list, borrowed.
    #[verifier::when_used_as_spec(spec_as_field_list)]
    pub fn as_field_list(&self) -> (r: FieldList<'_>)
        ensures
            r == self.spec_as_field_list(),
    {
        match self {
            FieldDefList::Tuple(fl) => FieldList::Tuple(fl),
            FieldDefList::Record(fl) => FieldList::Record(fl),
            FieldDefList::Unit => FieldList::Unit,
        }
    }
}

/// A struct: `struct S { .. }`, `struct S(..);` or `struct S;`.
#[derive(Debug)]
pub struct StructDef {
    pub name: Option<String>,
    pub kind: FieldDefList,
}

/// A union has a record field list or, in broken source, none.
#[derive(Debug)]
pub struct UnionDef {
    pub name: Option<String>,
    pub record_field_def_list: Option<Vec<RecordFieldDef>>,
}

impl UnionDef {
    /// The field list of a union: a record list where one is written.
    pub open spec fn spec_kind(&self) -> FieldList<'_> {
        match &self.record_field_def_list {
            Some(fl) => FieldList::Record(fl),
            None => FieldList::Unit,
        }
    }

    #[verifier::when_used_as_spec(spec_kind)]
    pub fn kind(&self) -> (r: FieldList<'_>)
        ensures
            r == self.spec_kind(),
    {
        match &self.record_field_def_list {
            Some(fl) => FieldList::Record(fl),
            None => FieldList::Unit,
        }
    }
}

/// A variant of an enum, with its field list.
#[derive(Debug)]
pub struct EnumVariant {
    pub ptr: AstPtr,
    pub name: Option<String>,
    pub kind: FieldDefList,
}

/// An enum; in broken source it may lack its variant list.
#[derive(Debug)]
pub struct EnumDef {
    pub name: Option<String>,
    pub variant_list: Option<Vec<EnumVariant>>,
}

} // verus!
