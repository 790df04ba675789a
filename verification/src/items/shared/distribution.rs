use crate::code::{skip_ignored, Code};
use crate::diag::{Diags, DiagsView};
use crate::parse::{DiagParse, Parse};
use crate::slice::{Slicable, Slice};
use core::ops::RangeInclusive;
use vstd::prelude::*;

verus! {

/// The `..` that follows a block or a name to spread it.
#[derive(PartialEq, Debug, Eq, Hash)]
pub struct Distribution<'s>(pub Slice<'s>);

/// Recognizing `..` raises no diagnostics.
#[derive(Clone, Copy, Debug, PartialEq, Eq, Hash)]
pub struct DistributionDiag;

impl<'s> View for Distribution<'s> {
    type V = (int, int);

    open spec fn view(&self) -> (int, int) {
        self.0@
    }
}

impl<'s> Slicable for Distribution<'s> {
    open spec fn spec_start(&self) -> int {
        self.0@.0
    }

    open spec fn spec_end(&self) -> int {
        self.0@.1
    }

    fn get_slice(&self) -> (r: RangeInclusive<usize>) {
        let r = self.0.get_slice();
        assert(r@.start == self.spec_start());
        assert(r@.end == self.spec_end());
        r
    }
}

impl<'s> Distribution<'s> {
    /// A copy of the `..`.
    pub fn duplicate(&self) -> (r: Self)
        ensures
            r@ == self@,
            r.0.source == self.0.source,
    {
        Distribution(self.0.duplicate())
    }
}

impl<'s> Parse<'s> for Distribution<'s> {
    type Diag = DistributionDiag;

    /// After the ignored characters at `pos`, two dots.
    open spec fn spec_parse(chars: Seq<char>, pos: int) -> (Option<(int, int)>, DiagsView<DistributionDiag>) {
        let start = skip_ignored(chars, pos);
        if start + 1 < chars.len() && chars[start] == '.' && chars[start + 1] == '.' {
            (Some((start, start + 1)), DiagsView::empty())
        } else {
            (None, DiagsView::empty())
        }
    }

    open spec fn wf_in(&self, chars: Seq<char>) -> bool {
        self.0.wf_in(chars)
    }

    fn parse_at(code: &Code<'s>, pos: usize, diags: &mut Diags<DistributionDiag>) -> (r: Option<Self>) {
        let start = code.skip_ignored_from(pos);
        if start < code.len() && start + 1 < code.len() && code.get_char(start) == '.' && code.get_char(start + 1) == '.' {
            Some(Distribution(Slice::new(RangeInclusive::new(start, start + 1), code)))
        } else {
            None
        }
    }
}

impl<'s> DiagParse<'s> for Distribution<'s> {

}

} // verus!
