use super::assign::left_right::{spec_left_right, LeftRight, LeftRightDiag, Middle};
use super::assign::{parse_equal, spec_equal, Assign, AssignDiag};
use super::literal::{LiteralDiag, LiteralType};
use crate::code::Code;
use crate::diag::{Diags, DiagsView};
use crate::items::item::ident::IdentDiag;
use crate::parse::{DiagParse, Parse};
use crate::slice::{slice_text, sliceable, Slicable};
use core::ops::RangeInclusive;
use vstd::prelude::*;

verus! {

/// `name += literal`, and likewise with `-=`, `*=` and `/=`.
#[derive(PartialEq, Debug, Eq, Hash)]
pub struct AssignAnd<'s> {
    pub type_: AssignAndType,
    pub val: Assign<'s>,
}

#[derive(PartialEq, Debug, Clone, Copy, Eq, Hash)]
pub enum AssignAndType {
    Add,
    Sub,
    Mul,
    Div,
}

#[derive(PartialEq, Debug, Clone, Copy, Eq, Hash)]
pub enum AssignAndDiag {
    Assign(AssignDiag),
    /// No `+`, `-`, `*` or `/` where the operator should start.
    ExpectOperator,
}

/// The operation that `c` stands for, if any.
pub open spec fn spec_operator(c: char) -> Option<AssignAndType> {
    if c == '+' {
        Some(AssignAndType::Add)
    } else if c == '-' {
        Some(AssignAndType::Sub)
    } else if c == '*' {
        Some(AssignAndType::Mul)
    } else if c == '/' {
        Some(AssignAndType::Div)
    } else {
        None
    }
}

fn operator(c: char) -> (r: Option<AssignAndType>)
    ensures
        r == spec_operator(c),
{
    match c {
        '+' => Some(AssignAndType::Add),
        '-' => Some(AssignAndType::Sub),
        '*' => Some(AssignAndType::Mul),
        '/' => Some(AssignAndType::Div),
        _ => None,
    }
}

/// An operation character followed at once by `=`.
pub struct OperatorEqual;

impl<'s> Middle<'s> for OperatorEqual {
    type Diag = AssignAndDiag;

    type Out = AssignAndType;

    open spec fn spec_middle(&self, chars: Seq<char>, pos: int) -> (Option<(int, AssignAndType)>, DiagsView<AssignAndDiag>) {
        if pos >= chars.len() {
            (None, DiagsView::empty())
        } else {
            match spec_operator(chars[pos]) {
                None => (None, DiagsView::single(pos, AssignAndDiag::ExpectOperator)),
                Some(t) => {
                    let (equal, equal_diags) = spec_equal(chars, pos + 1);
                    match equal {
                        Some(e) => (Some((e.0, t)), DiagsView::empty()),
                        None => (None, equal_diags.map(|e| AssignAndDiag::Assign(e))),
                    }
                },
            }
        }
    }

    fn parse_middle(&self, code: &Code<'s>, pos: usize, diags: &mut Diags<AssignAndDiag>) -> (r: Option<(usize, AssignAndType)>) {
        if pos >= code.len() {
            return None;
        }
        let type_ = match operator(code.get_char(pos)) {
            Some(t) => t,
            None => {
                diags.extend_one((pos, AssignAndDiag::ExpectOperator));
                return None;
            },
        };
        let mut d: Diags<AssignDiag> = Diags::default();
        match parse_equal(code, pos + 1, &mut d) {
            Some(i) => Some((i, type_)),
            None => {
                let wrap = |e: AssignDiag| -> (r: AssignAndDiag)
                    ensures
                        r == AssignAndDiag::Assign(e),
                    { AssignAndDiag::Assign(e) };
                diags.absorb(d, wrap, Ghost(|e| AssignAndDiag::Assign(e)));
                None
            },
        }
    }
}

impl<'s> View for AssignAnd<'s> {
    type V = (AssignAndType, ((int, int), (LiteralType, int, int)));

    open spec fn view(&self) -> (AssignAndType, ((int, int), (LiteralType, int, int))) {
        (self.type_, self.val@)
    }
}

impl<'s> Slicable for AssignAnd<'s> {
    open spec fn spec_start(&self) -> int {
        self.val.spec_start()
    }

    open spec fn spec_end(&self) -> int {
        self.val.spec_end()
    }

    fn get_slice(&self) -> (r: RangeInclusive<usize>) {
        let r = self.val.get_slice();
        assert(r@.start == self.spec_start());
        assert(r@.end == self.spec_end());
        r
    }
}

impl<'s> AssignAnd<'s> {
    pub fn new(
        type_: AssignAndType,
        assign: (RangeInclusive<usize>, (LiteralType, RangeInclusive<usize>)),
        code: &Code<'s>,
    ) -> (r: Self)
        requires
            sliceable(code, assign.0),
            sliceable(code, assign.1.1),
        ensures
            r.type_ == type_,
            r.val.0.left.0.source@ == slice_text(code, assign.0),
            r.val.0.right.slice.source@ == slice_text(code, assign.1.1),
            r@ == (
                type_,
                (
                    (assign.0@.start as int, assign.0@.end as int),
                    (assign.1.0, assign.1.1@.start as int, assign.1.1@.end as int),
                ),
            ),
            assign.0@.start <= assign.0@.end < code.chars@.len() && assign.1.1@.start
                <= assign.1.1@.end < code.chars@.len() ==> r.val.0.wf_in(code.chars@),
    {
        let (slice, literal) = assign;
        AssignAnd { type_, val: Assign::new(slice, literal, code) }
    }
}

impl<'s> Parse<'s> for AssignAnd<'s> {
    type Diag = AssignAndDiag;

    /// A name, an operation followed at once by `=`, and a literal. Only the diagnostics of the
    /// operator are kept.
    open spec fn spec_parse(chars: Seq<char>, pos: int) -> (Option<(AssignAndType, ((int, int), (LiteralType, int, int)))>, DiagsView<AssignAndDiag>) {
        let (lr, _, operator_diags) = spec_left_right(OperatorEqual, chars, pos);
        match lr {
            Some(v) => (Some((v.2, (v.0, v.1))), operator_diags),
            None => (None, operator_diags),
        }
    }

    open spec fn wf_in(&self, chars: Seq<char>) -> bool {
        self.val.0.wf_in(chars)
    }

    fn parse_at(code: &Code<'s>, pos: usize, diags: &mut Diags<AssignAndDiag>) -> (r: Option<Self>) {
        let mut d: Diags<LeftRightDiag<IdentDiag, LiteralDiag>> = Diags::default();
        match LeftRight::parse(code, pos, &mut d, &OperatorEqual, diags) {
            Some((lr, type_)) => Some(AssignAnd { type_, val: Assign(lr) }),
            None => None,
        }
    }
}

impl<'s> DiagParse<'s> for AssignAnd<'s> {

}

} // verus!
