pub mod assign;
pub mod assign_and;
pub mod literal;

use crate::code::Code;
use crate::diag::{lemma_merge_assoc, Diags, DiagsView};
use crate::parse::{DiagParse, Parse};
use crate::slice::Slicable;
use assign::{Assign, AssignDiag};
use assign_and::{AssignAnd, AssignAndDiag, AssignAndType};
use core::ops::RangeInclusive;
use literal::LiteralType;
use vstd::prelude::*;

verus! {

/// An assignment, plain or with an operation.
#[derive(PartialEq, Debug, Eq, Hash)]
pub struct AssignExpr<'s> {
    pub type_: AssignExprType,
    pub val: Assign<'s>,
}

#[derive(PartialEq, Debug, Clone, Copy, Eq, Hash)]
pub enum AssignExprType {
    Assign,
    AssignAnd(AssignAndType),
}

#[derive(PartialEq, Debug, Clone, Copy, Eq, Hash)]
pub enum AssignExprDiag {
    Assign(AssignDiag),
    AssignAnd(AssignAndDiag),
}

impl<'s> View for AssignExpr<'s> {
    type V = (AssignExprType, ((int, int), (LiteralType, int, int)));

    open spec fn view(&self) -> (AssignExprType, ((int, int), (LiteralType, int, int))) {
        (self.type_, self.val@)
    }
}

impl<'s> Slicable for AssignExpr<'s> {
    open spec fn spec_start(&self) -> int {
        self.val.spec_start()
    }

    open spec fn spec_end(&self) -> int {
        self.val.spec_end()
    }

    fn get_slice(&self) -> (r: RangeInclusive<usize>) {
        let r = self.val.get_slice();
        assert(r@.start == self.spec_start());
        assert(r@.end == self.spec_end());
        r
    }
}

impl<'s> AssignExpr<'s> {
    /// A copy of the assignment.
    pub fn duplicate(&self) -> (r: Self)
        ensures
            r@ == self@,
            r.val.0.left.0.source == self.val.0.left.0.source,
            r.val.0.right.slice.source == self.val.0.right.slice.source,
    {
        AssignExpr { type_: self.type_, val: self.val.duplicate() }
    }
}

impl<'s> Parse<'s> for AssignExpr<'s> {
    type Diag = AssignExprDiag;

    /// A plain assignment if there is one at `pos`, otherwise one with an operation.
    open spec fn spec_parse(chars: Seq<char>, pos: int) -> (Option<(AssignExprType, ((int, int), (LiteralType, int, int)))>, DiagsView<AssignExprDiag>) {
        let (assign, assign_diags) = Assign::spec_parse(chars, pos);
        match assign {
            Some(v) => (Some((AssignExprType::Assign, v)), DiagsView::empty()),
            None => {
                let (assign_and, assign_and_diags) = AssignAnd::spec_parse(chars, pos);
                let diags = assign_diags.map(|e| AssignExprDiag::Assign(e)).merge(
                    assign_and_diags.map(|e| AssignExprDiag::AssignAnd(e)),
                );
                match assign_and {
                    Some(v) => (Some((AssignExprType::AssignAnd(v.0), v.1)), diags),
                    None => (None, diags),
                }
            },
        }
    }

    open spec fn wf_in(&self, chars: Seq<char>) -> bool {
        self.val.0.wf_in(chars)
    }

    fn parse_at(code: &Code<'s>, pos: usize, diags: &mut Diags<AssignExprDiag>) -> (r: Option<Self>) {
        let ghost start = *old(diags);
        let ghost ad = Assign::spec_parse(code.chars@, pos as int).1.map(
            |e| AssignExprDiag::Assign(e),
        );
        let ghost bd = AssignAnd::spec_parse(code.chars@, pos as int).1.map(
            |e| AssignExprDiag::AssignAnd(e),
        );
        match Assign::diag_at(code, pos) {
            Ok(val) => {
                return Some(AssignExpr { type_: AssignExprType::Assign, val });
            },
            Err(d) => {
                let wrap = |e: AssignDiag| -> (r: AssignExprDiag)
                    ensures
                        r == AssignExprDiag::Assign(e),
                    { AssignExprDiag::Assign(e) };
                diags.absorb(d, wrap, Ghost(|e| AssignExprDiag::Assign(e)));
            },
        }
        match AssignAnd::diag_at(code, pos) {
            Ok(v) => {
                proof {
                    lemma_merge_assoc(start@, ad, bd);
                }
                Some(AssignExpr { type_: AssignExprType::AssignAnd(v.type_), val: v.val })
            },
            Err(d) => {
                let wrap = |e: AssignAndDiag| -> (r: AssignExprDiag)
                    ensures
                        r == AssignExprDiag::AssignAnd(e),
                    { AssignExprDiag::AssignAnd(e) };
                diags.absorb(d, wrap, Ghost(|e| AssignExprDiag::AssignAnd(e)));
                proof {
                    lemma_merge_assoc(start@, ad, bd);
                }
                None
            },
        }
    }
}

impl<'s> DiagParse<'s> for AssignExpr<'s> {

}

} // verus!
