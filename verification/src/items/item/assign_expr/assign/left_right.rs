use crate::code::{skip_ignored, Code};
use crate::diag::{Diags, DiagsView};
use crate::items::item::assign_expr::literal::{Literal, LiteralDiag, LiteralType};
use crate::items::item::ident::{Ident, IdentDiag};
use crate::parse::{DiagParse, Parse};
use crate::slice::Slicable;
use core::marker::PhantomData;
use core::ops::RangeInclusive;
use vstd::prelude::*;

verus! {

/// Two constructs around an operator: `left`, then the operator, then `right`.
#[derive(PartialEq, Debug, Eq, Hash)]
pub struct LeftRight<'s, L, R> {
    pub left: L,
    pub right: R,
    pub _marker: PhantomData<&'s ()>,
}

#[derive(PartialEq, Debug, Clone, Copy, Eq, Hash)]
pub enum LeftRightDiag<L, R> {
    Left(L),
    Right(R),
}

/// The operator between the two sides. It raises its diagnostics into a list of its own.
pub trait Middle<'s> {
    type Diag;

    type Out;

    /// What recognizing the operator at `pos` yields: the position of its last character and
    /// what it reports, and the diagnostics it raises.
    spec fn spec_middle(&self, chars: Seq<char>, pos: int) -> (Option<(int, Self::Out)>, DiagsView<Self::Diag>);

    fn parse_middle(&self, code: &Code<'s>, pos: usize, diags: &mut Diags<Self::Diag>) -> (r: Option<(usize, Self::Out)>)
        requires
            code.wf(),
            old(diags)@.wf(),
        ensures
            r is Some == self.spec_middle(code.chars@, pos as int).0 is Some,
            r matches Some(m) ==> {
                &&& m.0 == self.spec_middle(code.chars@, pos as int).0.unwrap().0
                &&& m.1 == self.spec_middle(code.chars@, pos as int).0.unwrap().1
                &&& pos <= m.0 < code.chars@.len()
            },
            self.spec_middle(code.chars@, pos as int).1.wf(),
            final(diags)@ == old(diags)@.merge(self.spec_middle(code.chars@, pos as int).1),
            final(diags).warrnings == old(diags).warrnings,
    ;
}

/// What recognizing a name, the operator `middle` and a literal at `pos` yields: the models of
/// the name and the literal and what the operator reports, the diagnostics of the two sides,
/// and those of the operator.
pub open spec fn spec_left_right<'s, M: Middle<'s>>(middle: M, chars: Seq<char>, pos: int) -> (
    Option<((int, int), (LiteralType, int, int), M::Out)>,
    DiagsView<LeftRightDiag<IdentDiag, LiteralDiag>>,
    DiagsView<M::Diag>,
) {
    let (left, left_diags) = Ident::spec_parse(chars, pos);
    match left {
        None => (None, left_diags.map(|e| LeftRightDiag::Left(e)), DiagsView::empty()),
        Some(l) => {
            let (mid, mid_diags) = middle.spec_middle(chars, skip_ignored(chars, l.1 + 1));
            match mid {
                None => (None, DiagsView::empty(), mid_diags),
                Some(m) => {
                    let (right, right_diags) = Literal::spec_parse(
                        chars,
                        skip_ignored(chars, m.0 + 1),
                    );
                    match right {
                        None => (None, right_diags.map(|e| LeftRightDiag::Right(e)), mid_diags),
                        Some(r) => (Some((l, r, m.1)), DiagsView::empty(), mid_diags),
                    }
                },
            }
        },
    }
}

impl<'s, L: View, R: View> View for LeftRight<'s, L, R> {
    type V = (L::V, R::V);

    open spec fn view(&self) -> (L::V, R::V) {
        (self.left@, self.right@)
    }
}

impl<'s, L: Slicable, R: Slicable> Slicable for LeftRight<'s, L, R> {
    open spec fn spec_start(&self) -> int {
        self.left.spec_start()
    }

    open spec fn spec_end(&self) -> int {
        self.right.spec_end()
    }

    fn get_slice(&self) -> (r: RangeInclusive<usize>) {
        let r = RangeInclusive::new(self.left.get_start(), self.right.get_end());
        assert(r@.start == self.spec_start());
        assert(r@.end == self.spec_end());
        r
    }
}

impl<'s> LeftRight<'s, Ident<'s>, Literal<'s>> {
    /// A copy of both sides.
    pub fn duplicate(&self) -> (r: Self)
        ensures
            r@ == self@,
            r.left.0.source == self.left.0.source,
            r.right.slice.source == self.right.slice.source,
    {
        LeftRight { left: self.left.duplicate(), right: self.right.duplicate(), _marker: PhantomData }
    }

    /// Both sides hold the text they cover.
    pub open spec fn wf_in(&self, chars: Seq<char>) -> bool {
        self.left.wf_in(chars) && self.right.wf_in(chars)
    }

    /// Recognizes a name at `pos`, then the operator `middle` after the ignored characters that
    /// follow, then a literal. The diagnostics of the two sides go to `diags`, those of the
    /// operator to `middle_diags`.
    pub fn parse<M: Middle<'s>>(
        code: &Code<'s>,
        pos: usize,
        diags: &mut Diags<LeftRightDiag<IdentDiag, LiteralDiag>>,
        middle: &M,
        middle_diags: &mut Diags<M::Diag>,
    ) -> (r: Option<(Self, M::Out)>)
        requires
            code.wf(),
            old(diags)@.wf(),
            old(middle_diags)@.wf(),
        ensures
            r is Some == spec_left_right(*middle, code.chars@, pos as int).0 is Some,
            r matches Some(v) ==> {
                &&& v.0@ == (
                    spec_left_right(*middle, code.chars@, pos as int).0.unwrap().0,
                    spec_left_right(*middle, code.chars@, pos as int).0.unwrap().1,
                )
                &&& v.1 == spec_left_right(*middle, code.chars@, pos as int).0.unwrap().2
                &&& v.0.wf_in(code.chars@)
                &&& pos <= v.0.spec_start() <= v.0.spec_end() < code.chars@.len()
            },
            spec_left_right(*middle, code.chars@, pos as int).1.wf(),
            spec_left_right(*middle, code.chars@, pos as int).2.wf(),
            final(diags)@ == old(diags)@.merge(spec_left_right(*middle, code.chars@, pos as int).1),
            final(diags).warrnings == old(diags).warrnings,
            final(middle_diags)@ == old(middle_diags)@.merge(
                spec_left_right(*middle, code.chars@, pos as int).2,
            ),
            final(middle_diags).warrnings == old(middle_diags).warrnings,
    {
        proof {
            crate::code::lemma_skip_ignored_bounds(code.chars@, pos as int);
        }
        let left = match Ident::diag_at(code, pos) {
            Ok(v) => v,
            Err(d) => {
                let wrap = |e: IdentDiag| -> (r: LeftRightDiag<IdentDiag, LiteralDiag>)
                    ensures
                        r == LeftRightDiag::<IdentDiag, LiteralDiag>::Left(e),
                    { LeftRightDiag::Left(e) };
                diags.absorb(d, wrap, Ghost(|e| LeftRightDiag::Left(e)));
                return None;
            },
        };
        let after_left = code.skip_ignored_from(left.get_end() + 1);
        let (end, out) = match middle.parse_middle(code, after_left, middle_diags) {
            Some(m) => m,
            None => {
                return None;
            },
        };
        let after_middle = code.skip_ignored_from(end + 1);
        let right = match Literal::diag_at(code, after_middle) {
            Ok(v) => v,
            Err(d) => {
                let wrap = |e: LiteralDiag| -> (r: LeftRightDiag<IdentDiag, LiteralDiag>)
                    ensures
                        r == LeftRightDiag::<IdentDiag, LiteralDiag>::Right(e),
                    { LeftRightDiag::Right(e) };
                diags.absorb(d, wrap, Ghost(|e| LeftRightDiag::Right(e)));
                return None;
            },
        };
        Some((LeftRight { left, right, _marker: PhantomData }, out))
    }
}

} // verus!
