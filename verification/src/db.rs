//! The facts about a program that the checks consult: the models of its
//! definitions and the bodies of its functions, each under its identifier.

use std::sync::Arc;
use vstd::prelude::*;
use crate::adt::{EnumData, StructData, VariantData};
use crate::body::{Body, BodySourceMap};
use crate::ids::{EnumId, FunctionId, VariantId};

verus! {

/// What is known of one function.
#[derive(Debug)]
pub struct FunctionData {
    pub body: Body,
    pub source_map: BodySourceMap,
    /// What the path of the standard result type resolves to in the
    /// function's scope; nothing where it resolves to no enum.
    pub std_result_enum: Option<EnumId>,
}

/// A snapshot of the program. An identifier is the index of its definition;
/// one that leads nowhere stands for a definition that did not resolve.
#[derive(Debug)]
pub struct HirDatabase {
    pub structs: Vec<Arc<StructData>>,
    pub unions: Vec<Arc<StructData>>,
    pub enums: Vec<Arc<EnumData>>,
    pub functions: Vec<FunctionData>,
}

impl HirDatabase {
    /// A snapshot of a program without definitions.
    pub fn new() -> (r: HirDatabase)
        ensures
            r.structs@.len() == 0,
            r.unions@.len() == 0,
            r.enums@.len() == 0,
            r.functions@.len() == 0,
    {
        HirDatabase { structs: Vec::new(), unions: Vec::new(), enums: Vec::new(), functions: Vec::new() }
    }

    /// What `function` finds.
    pub open spec fn spec_function(&self, func: FunctionId) -> Option<FunctionData> {
        if func.0 < self.functions@.len() {
            Some(self.functions@[func.0 as int])
        } else {
            None
        }
    }

    /// What is known of the function `func`.
    pub fn function(&self, func: FunctionId) -> (r: Option<&FunctionData>)
        ensures
            r == (match self.spec_function(func) {
                Some(f) => Some(&f),
                None => None,
            }),
    {
        if (func.0 as usize) < self.functions.len() {
            Some(&self.functions[func.0 as usize])
        } else {
            None
        }
    }

    /// What `variant_data` finds.
    pub open spec fn spec_variant_data(&self, var: VariantId) -> Option<VariantData> {
        match var {
            VariantId::StructId(it) => if it.0 < self.structs@.len() {
                Some(*self.structs@[it.0 as int].variant_data)
            } else {
                None
            },
            VariantId::UnionId(it) => if it.0 < self.unions@.len() {
                Some(*self.unions@[it.0 as int].variant_data)
            } else {
                None
            },
            VariantId::EnumVariantId(it) => if it.parent.0 < self.enums@.len() && it.local_id.0
                < self.enums@[it.parent.0 as int].variants@.len() {
                Some(
                    *self.enums@[it.parent.0 as int].variants@[it.local_id.0 as int].variant_data,
                )
            } else {
                None
            },
        }
    }

    /// The fields of the struct, union or variant `var`.
    pub fn variant_data(&self, var: VariantId) -> (r: Option<&VariantData>)
        ensures
            r == (match self.spec_variant_data(var) {
                Some(d) => Some(&d),
                None => None,
            }),
    {
        match var {
            VariantId::StructId(it) => {
                if (it.0 as usize) < self.structs.len() {
                    Some(&self.structs[it.0 as usize].variant_data)
                } else {
                    None
                }
            },
            VariantId::UnionId(it) => {
                if (it.0 as usize) < self.unions.len() {
                    Some(&self.unions[it.0 as usize].variant_data)
                } else {
                    None
                }
            },
            VariantId::EnumVariantId(it) => {
                if (it.parent.0 as usize) < self.enums.len() {
                    match self.enums[it.parent.0 as usize].variants.get(it.local_id.0) {
                        Some(v) => Some(&v.variant_data),
                        None => None,
                    }
                } else {
                    None
                }
            },
        }
    }
}

} // verus!
