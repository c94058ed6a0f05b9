//! Sets of names, kept in a `rustc_hash::FxHashSet`.
//!
//! `FxHashSet<K>` is std's `HashSet<K, BuildHasherDefault<FxHasher>>`. The
//! hasher is a function of the bytes that are written to it, and `Name`
//! hashes what its `==` compares, so the set tells names apart by their
//! views.

use vstd::prelude::*;
use rustc_hash::FxHashSet;
use crate::name::{Name, NameView};

verus! {

/// `rustc_hash::FxHasher`, the state of the hash function.
#[verifier::external_type_specification]
#[verifier::external_body]
pub struct ExFxHasher(rustc_hash::FxHasher);

/// `core::hash::BuildHasherDefault`, which makes a hasher by `Default`.
#[verifier::external_type_specification]
#[verifier::external_body]
#[verifier::reject_recursive_types(H)]
pub struct ExBuildHasherDefault<H>(core::hash::BuildHasherDefault<H>);

/// The names that a set holds.
pub uninterp spec fn name_set_items(s: FxHashSet<Name>) -> Set<NameView>;

/// `FxHashSet::default`: a set that holds nothing.
#[verifier::external_body]
pub(crate) fn name_set_new() -> (s: FxHashSet<Name>)
    ensures
        name_set_items(s) == Set::<NameView>::empty(),
{
    FxHashSet::default()
}

/// `HashSet::insert`: the set holds what it held, and `name`.
#[verifier::external_body]
pub(crate) fn name_set_insert(s: &mut FxHashSet<Name>, name: Name)
    ensures
        name_set_items(*final(s)) == name_set_items(*old(s)).insert(name@),
{
    s.insert(name);
}

/// `HashSet::contains`: whether the set holds a name equal to `name`.
#[verifier::external_body]
pub(crate) fn name_set_contains(s: &FxHashSet<Name>, name: &Name) -> (b: bool)
    ensures
        b == name_set_items(*s).contains(name@),
{
    s.contains(name)
}

} // verus!
