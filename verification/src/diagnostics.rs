//! The findings of the checks, and the sink that collects them.

use vstd::prelude::*;
use crate::name::{Name, NameView, name_views};
use crate::source::FileId;
use crate::syntax::kind::AstPtr;

verus! {

/// A record literal that leaves fields out.
#[derive(Debug)]
pub struct MissingFields {
    pub file: FileId,
    pub field_list: AstPtr,
    pub missed_fields: Vec<Name>,
}

/// A match that does not cover every value of its scrutinee.
#[derive(Debug)]
pub struct MissingMatchArms {
    pub file: FileId,
    pub match_expr: AstPtr,
    pub arms: AstPtr,
}

/// A tail expression that has the type of a result's success and stands
/// where the result itself is asked for.
#[derive(Debug)]
pub struct MissingOkInTailExpr {
    pub file: FileId,
    pub expr: AstPtr,
}

/// One finding of one of the checks.
#[derive(Debug)]
pub enum Diagnostic {
    MissingFields(MissingFields),
    MissingMatchArms(MissingMatchArms),
    MissingOkInTailExpr(MissingOkInTailExpr),
}

/// A finding as a value.
pub enum DiagnosticView {
    MissingFields { file: FileId, field_list: AstPtr, missed_fields: Seq<NameView> },
    MissingMatchArms { file: FileId, match_expr: AstPtr, arms: AstPtr },
    MissingOkInTailExpr { file: FileId, expr: AstPtr },
}

impl View for Diagnostic {
    type V = DiagnosticView;

    open spec fn view(&self) -> DiagnosticView {
        match self {
            Diagnostic::MissingFields(d) => DiagnosticView::MissingFields {
                file: d.file,
                field_list: d.field_list,
                missed_fields: name_views(d.missed_fields@),
            },
            Diagnostic::MissingMatchArms(d) => DiagnosticView::MissingMatchArms {
                file: d.file,
                match_expr: d.match_expr,
                arms: d.arms,
            },
            Diagnostic::MissingOkInTailExpr(d) => DiagnosticView::MissingOkInTailExpr {
                file: d.file,
                expr: d.expr,
            },
        }
    }
}

/// Collects findings in the order in which they are pushed. Nothing is
/// ever taken out or changed.
#[derive(Debug)]
pub struct DiagnosticSink {
    diagnostics: Vec<Diagnostic>,
}

impl View for DiagnosticSink {
    type V = Seq<DiagnosticView>;

    closed spec fn view(&self) -> Seq<DiagnosticView> {
        Seq::new(self.diagnostics@.len(), |i: int| self.diagnostics@[i]@)
    }
}

impl DiagnosticSink {
    pub fn new() -> (r: DiagnosticSink)
        ensures
            r@ == Seq::<DiagnosticView>::empty(),
    {
        let r = DiagnosticSink { diagnostics: Vec::new() };
        assert(r@ =~= Seq::<DiagnosticView>::empty());
        r
    }

    pub fn push(&mut self, d: Diagnostic)
        ensures
            final(self)@ == old(self)@.push(d@),
    {
        self.diagnostics.push(d);
        assert(self@ =~= old(self)@.push(d@));
    }

    pub fn len(&self) -> (n: usize)
        ensures
            n == self@.len(),
    {
        self.diagnostics.len()
    }

    /// The findings in the order in which they came.
    pub fn as_slice(&self) -> (r: &[Diagnostic])
        ensures
            r@.len() == self@.len(),
            forall|i: int| 0 <= i < r@.len() ==> r@[i]@ == self@[i],
    {
        self.diagnostics.as_slice()
    }
}

} // verus!
