pub mod left_right;

use crate::code::Code;
use crate::diag::{lemma_merge_assoc, Diags, DiagsView};
use crate::items::item::assign_expr::literal::{Literal, LiteralDiag, LiteralType};
use crate::items::item::ident::{Ident, IdentDiag};
use crate::parse::{DiagParse, Parse};
use crate::slice::{slice_text, sliceable, Slicable};
use core::marker::PhantomData;
use core::ops::RangeInclusive;
use left_right::{spec_left_right, LeftRight, LeftRightDiag, Middle};
use vstd::prelude::*;

verus! {

/// `name = literal`.
#[derive(PartialEq, Debug, Eq, Hash)]
pub struct Assign<'s>(pub LeftRight<'s, Ident<'s>, Literal<'s>>);

#[derive(PartialEq, Debug, Clone, Copy, Eq, Hash)]
pub enum AssignDiag {
    LeftRight(LeftRightDiag<IdentDiag, LiteralDiag>),
    /// No `=` where the operator should be.
    ExpectEqual,
}

/// What recognizing `=` at `pos` yields: its position, or the diagnostic that it is missing.
pub open spec fn spec_equal(chars: Seq<char>, pos: int) -> (Option<(int, ())>, DiagsView<AssignDiag>) {
    if pos >= chars.len() {
        (None, DiagsView::empty())
    } else if chars[pos] == '=' {
        (Some((pos, ())), DiagsView::empty())
    } else {
        (None, DiagsView::single(pos, AssignDiag::ExpectEqual))
    }
}

/// Recognizes `=` at `pos` and yields its position.
pub fn parse_equal(code: &Code, pos: usize, diags: &mut Diags<AssignDiag>) -> (r: Option<usize>)
    requires
        code.wf(),
    ensures
        r is Some == spec_equal(code.chars@, pos as int).0 is Some,
        r matches Some(i) ==> i == pos,
        final(diags)@ == old(diags)@.merge(spec_equal(code.chars@, pos as int).1),
        final(diags).warrnings == old(diags).warrnings,
{
    if pos >= code.len() {
        return None;
    }
    if code.get_char(pos) == '=' {
        Some(pos)
    } else {
        diags.extend_one((pos, AssignDiag::ExpectEqual));
        None
    }
}

/// The `=` between the two sides of an assignment.
pub struct EqualSign;

impl<'s> Middle<'s> for EqualSign {
    type Diag = AssignDiag;

    type Out = ();

    open spec fn spec_middle(&self, chars: Seq<char>, pos: int) -> (Option<(int, ())>, DiagsView<AssignDiag>) {
        spec_equal(chars, pos)
    }

    fn parse_middle(&self, code: &Code<'s>, pos: usize, diags: &mut Diags<AssignDiag>) -> (r: Option<(usize, ())>) {
        match parse_equal(code, pos, diags) {
            Some(i) => Some((i, ())),
            None => None,
        }
    }
}

impl<'s> View for Assign<'s> {
    type V = ((int, int), (LiteralType, int, int));

    open spec fn view(&self) -> ((int, int), (LiteralType, int, int)) {
        self.0@
    }
}

impl<'s> Slicable for Assign<'s> {
    open spec fn spec_start(&self) -> int {
        self.0.left@.0
    }

    open spec fn spec_end(&self) -> int {
        self.0.right@.2
    }

    fn get_slice(&self) -> (r: RangeInclusive<usize>) {
        let r = self.0.get_slice();
        assert(r@.start == self.spec_start());
        assert(r@.end == self.spec_end());
        r
    }
}

impl<'s> Assign<'s> {
    /// A copy of the assignment.
    pub fn duplicate(&self) -> (r: Self)
        ensures
            r@ == self@,
            r.0.left.0.source == self.0.left.0.source,
            r.0.right.slice.source == self.0.right.slice.source,
    {
        Assign(self.0.duplicate())
    }

    pub fn new(
        ident_slice: RangeInclusive<usize>,
        literal: (LiteralType, RangeInclusive<usize>),
        code: &Code<'s>,
    ) -> (r: Self)
        requires
            sliceable(code, ident_slice),
            sliceable(code, literal.1),
        ensures
            r.0.left.0.source@ == slice_text(code, ident_slice),
            r.0.right.slice.source@ == slice_text(code, literal.1),
            r.0.right.type_ == literal.0,
            r@ == (
                (ident_slice@.start as int, ident_slice@.end as int),
                (literal.0, literal.1@.start as int, literal.1@.end as int),
            ),
            ident_slice@.start <= ident_slice@.end < code.chars@.len() && literal.1@.start
                <= literal.1@.end < code.chars@.len() ==> r.0.wf_in(code.chars@),
    {
        let (literal_type, literal_slice) = literal;
        Assign(
            LeftRight {
                left: Ident::new(ident_slice, code),
                right: Literal::new(literal_type, literal_slice, code),
                _marker: PhantomData,
            },
        )
    }
}

impl<'s> Parse<'s> for Assign<'s> {
    type Diag = AssignDiag;

    /// A name, `=` and a literal.
    open spec fn spec_parse(chars: Seq<char>, pos: int) -> (Option<((int, int), (LiteralType, int, int))>, DiagsView<AssignDiag>) {
        let (lr, side_diags, equal_diags) = spec_left_right(EqualSign, chars, pos);
        let diags = equal_diags.merge(side_diags.map(|e| AssignDiag::LeftRight(e)));
        match lr {
            Some(v) => (Some((v.0, v.1)), diags),
            None => (None, diags),
        }
    }

    open spec fn wf_in(&self, chars: Seq<char>) -> bool {
        self.0.wf_in(chars)
    }

    fn parse_at(code: &Code<'s>, pos: usize, diags: &mut Diags<AssignDiag>) -> (r: Option<Self>) {
        let ghost start = diags@;
        let mut d: Diags<LeftRightDiag<IdentDiag, LiteralDiag>> = Diags::default();
        let res = LeftRight::parse(code, pos, &mut d, &EqualSign, diags);
        let ghost mid = diags@;
        let wrap = |e: LeftRightDiag<IdentDiag, LiteralDiag>| -> (r: AssignDiag)
            ensures
                r == AssignDiag::LeftRight(e),
            { AssignDiag::LeftRight(e) };
        let ghost (_, side_diags, equal_diags) = spec_left_right(EqualSign, code.chars@, pos as int);
        match res {
            Some((lr, _)) => {
                proof {
                    lemma_merge_assoc(start, equal_diags, side_diags.map(|e| AssignDiag::LeftRight(e)));
                }
                Some(Assign(lr))
            },
            None => {
                diags.absorb(d, wrap, Ghost(|e| AssignDiag::LeftRight(e)));
                proof {
                    lemma_merge_assoc(start, equal_diags, side_diags.map(|e| AssignDiag::LeftRight(e)));
                }
                None
            },
        }
    }
}

impl<'s> DiagParse<'s> for Assign<'s> {

}

} // verus!
