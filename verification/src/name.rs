//! Names of definitions, variants and fields.

use vstd::prelude::*;

verus! {

/// The name of a definition, a variant or a field.
///
/// A field of a tuple shape has no written name and is called by its
/// position. Where the source omits a name that the grammar asks for, the
/// name is `Missing`, which equals no written identifier.
#[derive(Debug, Hash)]
pub enum Name {
    Text(String),
    TupleField(usize),
    Missing,
}

/// What a `Name` stands for.
pub enum NameView {
    Text(Seq<char>),
    TupleField(usize),
    Missing,
}

impl View for Name {
    type V = NameView;

    open spec fn view(&self) -> NameView {
        match self {
            Name::Text(s) => NameView::Text(s@),
            Name::TupleField(i) => NameView::TupleField(*i),
            Name::Missing => NameView::Missing,
        }
    }
}

impl PartialEq for Name {
    fn eq(&self, other: &Name) -> (r: bool) {
        match self {
            Name::Text(a) => match other {
                Name::Text(b) => *a == *b,
                _ => false,
            },
            Name::TupleField(a) => match other {
                Name::TupleField(b) => *a == *b,
                _ => false,
            },
            Name::Missing => match other {
                Name::Missing => true,
                _ => false,
            },
        }
    }
}

impl Eq for Name {

}

impl vstd::std_specs::cmp::PartialEqSpecImpl for Name {
    open spec fn obeys_eq_spec() -> bool {
        true
    }

    open spec fn eq_spec(&self, other: &Name) -> bool {
        self@ == other@
    }
}

impl Clone for Name {
    fn clone(&self) -> (r: Name)
        ensures
            r@ == self@,
    {
        match self {
            Name::Text(s) => Name::Text(s.clone()),
            Name::TupleField(i) => Name::TupleField(*i),
            Name::Missing => Name::Missing,
        }
    }
}

impl Name {
    /// The name that stands where the source has none.
    pub fn missing() -> (r: Name)
        ensures
            r@ == NameView::Missing,
    {
        Name::Missing
    }

    /// The name of the field at position `idx` of a tuple shape.
    pub fn new_tuple_field(idx: usize) -> (r: Name)
        ensures
            r@ == NameView::TupleField(idx),
    {
        Name::TupleField(idx)
    }

    /// The name written as `text`.
    pub fn new_text(text: &str) -> (r: Name)
        ensures
            r@ == NameView::Text(text@),
    {
        Name::Text(text.to_owned())
    }

    /// The name of an optional identifier: the identifier where there is
    /// one, `Missing` where there is none.
    pub fn from_opt(text: &Option<String>) -> (r: Name)
        ensures
            r@ == Self::spec_from_opt(*text),
    {
        match text {
            Some(s) => Name::Text(s.clone()),
            None => Name::Missing,
        }
    }

    /// The name of an optional identifier.
    pub open spec fn spec_from_opt(text: Option<String>) -> NameView {
        match text {
            Some(s) => NameView::Text(s@),
            None => NameView::Missing,
        }
    }

    /// Whether this is the stand-in for an omitted name.
    pub fn is_missing(&self) -> (r: bool)
        ensures
            r == (self@ == NameView::Missing),
    {
        match self {
            Name::Missing => true,
            _ => false,
        }
    }

    /// The position that a tuple field's name holds, if it is one.
    pub fn as_tuple_index(&self) -> (r: Option<usize>)
        ensures
            r == (match self@ {
                NameView::TupleField(i) => Some(i),
                _ => None,
            }),
    {
        match self {
            Name::TupleField(i) => Some(*i),
            _ => None,
        }
    }
}

/// The views of a sequence of names, in order.
pub open spec fn name_views(names: Seq<Name>) -> Seq<NameView> {
    Seq::new(names.len(), |i: int| names[i]@)
}

} // verus!
