pub mod number;
pub mod string;

use crate::code::Code;
use crate::diag::{lemma_merge_assoc, Diags, DiagsView};
use crate::parse::{DiagParse, Parse};
use crate::slice::{slice_text, sliceable, Slicable, Slice};
use core::ops::RangeInclusive;
use number::{Number, NumberDiag};
use string::{String, StringDiag};
use vstd::prelude::*;

verus! {

/// A number or a string.
#[derive(PartialEq, Debug, Eq, Hash)]
pub struct Literal<'s> {
    pub type_: LiteralType,
    pub slice: Slice<'s>,
}

#[derive(PartialEq, Debug, Clone, Copy, Eq, Hash)]
pub enum LiteralType {
    Number,
    String,
}

#[derive(PartialEq, Debug, Clone, Copy, Eq, Hash)]
pub enum LiteralDiag {
    Number(NumberDiag),
    String(StringDiag),
}

impl<'s> View for Literal<'s> {
    type V = (LiteralType, int, int);

    open spec fn view(&self) -> (LiteralType, int, int) {
        (self.type_, self.slice@.0, self.slice@.1)
    }
}

impl<'s> Slicable for Literal<'s> {
    open spec fn spec_start(&self) -> int {
        self.slice@.0
    }

    open spec fn spec_end(&self) -> int {
        self.slice@.1
    }

    fn get_slice(&self) -> (r: RangeInclusive<usize>) {
        let r = self.slice.get_slice();
        assert(r@.start == self.spec_start());
        assert(r@.end == self.spec_end());
        r
    }
}

impl<'s> Literal<'s> {
    /// A copy of the literal.
    pub fn duplicate(&self) -> (r: Self)
        ensures
            r@ == self@,
            r.slice.source == self.slice.source,
    {
        Literal { type_: self.type_, slice: self.slice.duplicate() }
    }

    pub fn new(type_: LiteralType, slice: RangeInclusive<usize>, code: &Code<'s>) -> (r: Self)
        requires
            sliceable(code, slice),
        ensures
            r@ == (type_, slice@.start as int, slice@.end as int),
            r.type_ == type_,
            r.slice.source@ == slice_text(code, slice),
            slice@.start <= slice@.end < code.chars@.len() ==> r.slice.wf_in(code.chars@),
    {
        Literal { type_, slice: Slice::new(slice, code) }
    }
}

impl<'s> Parse<'s> for Literal<'s> {
    type Diag = LiteralDiag;

    /// A number if there is one at `pos`, otherwise a string.
    open spec fn spec_parse(chars: Seq<char>, pos: int) -> (Option<(LiteralType, int, int)>, DiagsView<LiteralDiag>) {
        let (number, number_diags) = Number::spec_parse(chars, pos);
        match number {
            Some(v) => (Some((LiteralType::Number, v.0, v.1)), DiagsView::empty()),
            None => {
                let (string, string_diags) = String::spec_parse(chars, pos);
                let diags = number_diags.map(|e| LiteralDiag::Number(e)).merge(
                    string_diags.map(|e| LiteralDiag::String(e)),
                );
                match string {
                    Some(v) => (Some((LiteralType::String, v.0, v.1)), diags),
                    None => (None, diags),
                }
            },
        }
    }

    open spec fn wf_in(&self, chars: Seq<char>) -> bool {
        self.slice.wf_in(chars)
    }

    fn parse_at(code: &Code<'s>, pos: usize, diags: &mut Diags<LiteralDiag>) -> (r: Option<Self>) {
        let ghost start = *old(diags);
        let ghost nd = Number::spec_parse(code.chars@, pos as int).1.map(
            |e| LiteralDiag::Number(e),
        );
        let ghost sd = String::spec_parse(code.chars@, pos as int).1.map(
            |e| LiteralDiag::String(e),
        );
        match Number::diag_at(code, pos) {
            Ok(v) => {
                return Some(Literal { type_: LiteralType::Number, slice: v.0 });
            },
            Err(d) => {
                let wrap = |e: NumberDiag| -> (r: LiteralDiag)
                    ensures
                        r == LiteralDiag::Number(e),
                    { LiteralDiag::Number(e) };
                diags.absorb(d, wrap, Ghost(|e| LiteralDiag::Number(e)));
            },
        }
        match String::diag_at(code, pos) {
            Ok(v) => {
                proof {
                    lemma_merge_assoc(start@, nd, sd);
                }
                Some(Literal { type_: LiteralType::String, slice: v.0 })
            },
            Err(d) => {
                let wrap = |e: StringDiag| -> (r: LiteralDiag)
                    ensures
                        r == LiteralDiag::String(e),
                    { LiteralDiag::String(e) };
                diags.absorb(d, wrap, Ghost(|e| LiteralDiag::String(e)));
                proof {
                    lemma_merge_assoc(start@, nd, sd);
                }
                None
            },
        }
    }
}

impl<'s> DiagParse<'s> for Literal<'s> {

}

} // verus!
