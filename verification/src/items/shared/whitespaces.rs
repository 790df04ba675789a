use crate::code::{skip_ignored, Code};
use crate::diag::{Diags, DiagsView};
use crate::parse::{DiagParse, Parse};
use crate::slice::{Slicable, Slice};
use core::ops::RangeInclusive;
use vstd::prelude::*;

verus! {

/// A run of ignored characters (spaces, line breaks, tabs).
#[derive(PartialEq, Debug)]
pub struct Whitespaces<'s>(pub Slice<'s>);

/// Recognizing whitespace raises no diagnostics.
#[derive(Clone, Copy, Debug, PartialEq, Eq, Hash)]
pub struct WhitespacesDiag;

impl<'s> View for Whitespaces<'s> {
    type V = (int, int);

    open spec fn view(&self) -> (int, int) {
        self.0@
    }
}

impl<'s> Slicable for Whitespaces<'s> {
    open spec fn spec_start(&self) -> int {
        self.0@.0
    }

    open spec fn spec_end(&self) -> int {
        self.0@.1
    }

    fn get_slice(&self) -> (r: RangeInclusive<usize>) {
        let r = self.0.get_slice();
        assert(r@.start == self.spec_start());
        assert(r@.end == self.spec_end());
        r
    }
}

impl<'s> Whitespaces<'s> {
    /// The whitespace covering `range` of `code`.
    pub fn new(range: RangeInclusive<usize>, code: &Code<'s>) -> (r: Self)
        requires
            code.wf(),
            range@.start <= range@.end < code.chars@.len(),
        ensures
            r@ == (range@.start as int, range@.end as int),
            r.0.wf_in(code.chars@),
    {
        Whitespaces(Slice::new(range, code))
    }
}

impl<'s> Parse<'s> for Whitespaces<'s> {
    type Diag = WhitespacesDiag;

    /// The longest run of ignored characters that starts at `pos`, if it is not empty.
    open spec fn spec_parse(chars: Seq<char>, pos: int) -> (Option<(int, int)>, DiagsView<WhitespacesDiag>) {
        let end = skip_ignored(chars, pos);
        if end > pos {
            (Some((pos, end - 1)), DiagsView::empty())
        } else {
            (None, DiagsView::empty())
        }
    }

    open spec fn wf_in(&self, chars: Seq<char>) -> bool {
        self.0.wf_in(chars)
    }

    fn parse_at(code: &Code<'s>, pos: usize, diags: &mut Diags<WhitespacesDiag>) -> (r: Option<Self>) {
        let start = pos;
        let end = code.skip_ignored_from(start);
        if end > start {
            Some(Whitespaces::new(RangeInclusive::new(start, end - 1), code))
        } else {
            None
        }
    }
}

impl<'s> DiagParse<'s> for Whitespaces<'s> {

}

} // verus!
