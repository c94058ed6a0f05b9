//! What type inference found out about a body.

use vstd::prelude::*;
use crate::arena::ArenaMap;
use crate::ids::{ExprId, PatId, VariantId};
use crate::ty::Ty;

verus! {

/// An expression whose type is not the one that its place asks for.
#[derive(Debug)]
pub struct TypeMismatch {
    pub expected: Ty,
    pub actual: Ty,
}

/// The result of inference for one body. Each map is keyed by the index of
/// an expression or a pattern and holds nothing where inference found
/// nothing.
#[derive(Debug)]
pub struct InferenceResult {
    pub type_of_expr: ArenaMap<Ty>,
    pub type_of_pat: ArenaMap<Ty>,
    pub variant_resolutions_for_exprs: ArenaMap<VariantId>,
    pub variant_resolutions_for_pats: ArenaMap<VariantId>,
    pub type_mismatches: ArenaMap<TypeMismatch>,
}

impl InferenceResult {
    /// A result that knows nothing.
    pub fn new() -> (r: InferenceResult)
        ensures
            r.type_of_expr@ == Map::<usize, Ty>::empty(),
            r.type_of_pat@ == Map::<usize, Ty>::empty(),
            r.variant_resolutions_for_exprs@ == Map::<usize, VariantId>::empty(),
            r.variant_resolutions_for_pats@ == Map::<usize, VariantId>::empty(),
            r.type_mismatches@ == Map::<usize, TypeMismatch>::empty(),
    {
        InferenceResult {
            type_of_expr: ArenaMap::new(),
            type_of_pat: ArenaMap::new(),
            variant_resolutions_for_exprs: ArenaMap::new(),
            variant_resolutions_for_pats: ArenaMap::new(),
            type_mismatches: ArenaMap::new(),
        }
    }

    /// What `variant_resolution_for_expr` answers.
    pub open spec fn spec_variant_resolution_for_expr(&self, id: ExprId) -> Option<VariantId> {
        if self.variant_resolutions_for_exprs@.contains_key(id.0) {
            Some(self.variant_resolutions_for_exprs@[id.0])
        } else {
            None
        }
    }

    /// The definition that the record literal `id` builds.
    pub fn variant_resolution_for_expr(&self, id: ExprId) -> (r: Option<VariantId>)
        ensures
            r == self.spec_variant_resolution_for_expr(id),
    {
        match self.variant_resolutions_for_exprs.get(id.0) {
            Some(v) => Some(*v),
            None => None,
        }
    }

    /// What `variant_resolution_for_pat` answers.
    pub open spec fn spec_variant_resolution_for_pat(&self, id: PatId) -> Option<VariantId> {
        if self.variant_resolutions_for_pats@.contains_key(id.0) {
            Some(self.variant_resolutions_for_pats@[id.0])
        } else {
            None
        }
    }

    /// The definition that the record pattern `id` takes apart.
    pub fn variant_resolution_for_pat(&self, id: PatId) -> (r: Option<VariantId>)
        ensures
            r == self.spec_variant_resolution_for_pat(id),
    {
        match self.variant_resolutions_for_pats.get(id.0) {
            Some(v) => Some(*v),
            None => None,
        }
    }

    /// What `type_mismatch_for_expr` answers.
    pub open spec fn spec_type_mismatch_for_expr(&self, id: ExprId) -> Option<TypeMismatch> {
        if self.type_mismatches@.contains_key(id.0) {
            Some(self.type_mismatches@[id.0])
        } else {
            None
        }
    }

    /// The mismatch that was recorded for the expression `id`.
    pub fn type_mismatch_for_expr(&self, id: ExprId) -> (r: Option<&TypeMismatch>)
        ensures
            r == (match self.spec_type_mismatch_for_expr(id) {
                Some(m) => Some(&m),
                None => None,
            }),
    {
        self.type_mismatches.get(id.0)
    }
}

} // verus!
