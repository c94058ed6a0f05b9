//! Types as inference hands them out.

use vstd::prelude::*;
use crate::ids::AdtId;

verus! {

/// Whether a reference or a pointer lets its target be changed.
#[derive(Clone, Copy, PartialEq, Eq, Structural, Debug, Hash)]
pub enum Mutability {
    Shared,
    Mut,
}

/// What a type is built with: a primitive, a definition, or a way of
/// building a type from others.
#[derive(Clone, Copy, PartialEq, Eq, Structural, Debug, Hash)]
pub enum TypeCtor {
    Bool,
    Char,
    Int,
    Str,
    Never,
    Slice,
    Array,
    Adt(AdtId),
    RawPtr(Mutability),
    Ref(Mutability),
    Tuple { cardinality: u16 },
}

/// A constructor applied to its parameters.
#[derive(Debug)]
pub struct ApplicationTy {
    pub ctor: TypeCtor,
    pub parameters: Vec<Ty>,
}

/// A type.
#[derive(Debug)]
pub enum Ty {
    Apply(ApplicationTy),
    /// A type parameter of the item at hand.
    Placeholder(u32),
    /// A variable that inference has not solved.
    Infer(u32),
    Unknown,
}

/// A type as a value: two types are the same when their views are equal.
pub enum TyView {
    Apply { ctor: TypeCtor, parameters: Seq<TyView> },
    Placeholder(u32),
    Infer(u32),
    Unknown,
}

impl View for Ty {
    type V = TyView;

    open spec fn view(&self) -> TyView {
        self.as_value()
    }
}

impl Ty {
    /// The type as a value.
    pub open spec fn as_value(&self) -> TyView
        decreases self,
    {
        match self {
            Ty::Apply(a) => TyView::Apply {
                ctor: a.ctor,
                parameters: Seq::new(
                    a.parameters@.len(),
                    |i: int|
                        if 0 <= i < a.parameters@.len() {
                            a.parameters@[i].as_value()
                        } else {
                            TyView::Unknown
                        },
                ),
            },
            Ty::Placeholder(n) => TyView::Placeholder(*n),
            Ty::Infer(n) => TyView::Infer(*n),
            Ty::Unknown => TyView::Unknown,
        }
    }
}

impl TyView {
    /// The type that a reference refers to, with the kind of the
    /// reference; nothing for a type that is no reference.
    pub open spec fn as_reference(self) -> Option<(TyView, Mutability)> {
        match self {
            TyView::Apply { ctor: TypeCtor::Ref(m), parameters } => if parameters.len() == 1 {
                Some((parameters[0], m))
            } else {
                None
            },
            _ => None,
        }
    }
}

impl Ty {
    /// Whether two types are the same.
    pub fn same(&self, other: &Ty) -> (r: bool)
        ensures
            r == (self@ == other@),
        decreases self,
    {
        match self {
            Ty::Apply(a) => match other {
                Ty::Apply(b) => {
                    if !(a.ctor == b.ctor) || a.parameters.len() != b.parameters.len() {
                        proof {
                            assert(self@->Apply_parameters.len() == a.parameters@.len());
                            assert(other@->Apply_parameters.len() == b.parameters@.len());
                        }
                        return false;
                    }
                    let mut i: usize = 0;
                    while i < a.parameters.len()
                        invariant
                            i <= a.parameters@.len(),
                            a.parameters@.len() == b.parameters@.len(),
                            *self == Ty::Apply(*a),
                            *other == Ty::Apply(*b),
                            forall|j: int| 0 <= j < i ==> a.parameters@[j]@ == b.parameters@[j]@,
                        decreases a.parameters@.len() - i,
                    {
                        if !a.parameters[i].same(&b.parameters[i]) {
                            proof {
                                assert(self@->Apply_parameters[i as int] == a.parameters@[i as int]@);
                                assert(other@->Apply_parameters[i as int]
                                    == b.parameters@[i as int]@);
                            }
                            return false;
                        }
                        i = i + 1;
                    }
                    proof {
                        assert(self@->Apply_parameters =~= other@->Apply_parameters);
                    }
                    true
                },
                _ => false,
            },
            Ty::Placeholder(n) => match other {
                Ty::Placeholder(m) => *n == *m,
                _ => false,
            },
            Ty::Infer(n) => match other {
                Ty::Infer(m) => *n == *m,
                _ => false,
            },
            Ty::Unknown => match other {
                Ty::Unknown => true,
                _ => false,
            },
        }
    }

    /// The type that a reference refers to, with the kind of the
    /// reference.
    pub fn as_reference(&self) -> (r: Option<(&Ty, Mutability)>)
        ensures
            match r {
                Some((ty, m)) => self@.as_reference() == Some((ty@, m)),
                None => self@.as_reference() is None,
            },
    {
        match self {
            Ty::Apply(a) => match a.ctor {
                TypeCtor::Ref(m) => {
                    if a.parameters.len() == 1 {
                        Some((&a.parameters[0], m))
                    } else {
                        None
                    }
                },
                _ => None,
            },
            _ => None,
        }
    }

    /// The application of `ctor` to `parameters`.
    pub fn apply(ctor: TypeCtor, parameters: Vec<Ty>) -> (r: Ty)
        ensures
            r == Ty::Apply(ApplicationTy { ctor, parameters }),
    {
        Ty::Apply(ApplicationTy { ctor, parameters })
    }
}

impl PartialEq for Ty {
    fn eq(&self, other: &Ty) -> (r: bool) {
        self.same(other)
    }
}

impl Eq for Ty {

}

impl vstd::std_specs::cmp::PartialEqSpecImpl for Ty {
    open spec fn obeys_eq_spec() -> bool {
        true
    }

    open spec fn eq_spec(&self, other: &Ty) -> bool {
        self@ == other@
    }
}

} // verus!
