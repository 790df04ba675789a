use crate::code::Code;
use crate::diag::{Diags, DiagsView};
use crate::items::item::ident::{Ident, IdentDiag};
use crate::items::shared::distribution::{Distribution, DistributionDiag};
use crate::parse::{DiagParse, Parse};
use crate::slice::Slicable;
use core::ops::RangeInclusive;
use vstd::prelude::*;

verus! {

/// `name..`: spreads the block of that name.
#[derive(PartialEq, Debug, Eq, Hash)]
pub struct CallBlockDistruct<'s> {
    pub name: Ident<'s>,
    pub dist: Distribution<'s>,
}

#[derive(PartialEq, Debug, Clone, Copy, Eq, Hash)]
pub enum CallBlockDistructDiag {
    Name(IdentDiag),
    Distribution(DistributionDiag),
}

impl<'s> View for CallBlockDistruct<'s> {
    type V = ((int, int), (int, int));

    open spec fn view(&self) -> ((int, int), (int, int)) {
        (self.name@, self.dist@)
    }
}

impl<'s> Slicable for CallBlockDistruct<'s> {
    open spec fn spec_start(&self) -> int {
        self.name@.0
    }

    open spec fn spec_end(&self) -> int {
        self.dist@.1
    }

    fn get_slice(&self) -> (r: RangeInclusive<usize>) {
        let r = RangeInclusive::new(self.name.get_start(), self.dist.get_end());
        assert(r@.start == self.spec_start());
        assert(r@.end == self.spec_end());
        r
    }
}

impl<'s> CallBlockDistruct<'s> {
    /// A copy of the call.
    pub fn duplicate(&self) -> (r: Self)
        ensures
            r@ == self@,
            r.name.0.source == self.name.0.source,
            r.dist.0.source == self.dist.0.source,
    {
        CallBlockDistruct { name: self.name.duplicate(), dist: self.dist.duplicate() }
    }
}

impl<'s> Parse<'s> for CallBlockDistruct<'s> {
    type Diag = CallBlockDistructDiag;

    /// A name, then `..` after it.
    open spec fn spec_parse(chars: Seq<char>, pos: int) -> (Option<((int, int), (int, int))>, DiagsView<CallBlockDistructDiag>) {
        let (name, name_diags) = Ident::spec_parse(chars, pos);
        match name {
            None => (None, name_diags.map(|e| CallBlockDistructDiag::Name(e))),
            Some(n) => {
                let (dist, dist_diags) = Distribution::spec_parse(chars, n.1 + 1);
                match dist {
                    None => (None, dist_diags.map(|e| CallBlockDistructDiag::Distribution(e))),
                    Some(d) => (Some((n, d)), DiagsView::empty()),
                }
            },
        }
    }

    open spec fn wf_in(&self, chars: Seq<char>) -> bool {
        self.name.wf_in(chars) && self.dist.wf_in(chars)
    }

    fn parse_at(code: &Code<'s>, pos: usize, diags: &mut Diags<CallBlockDistructDiag>) -> (r: Option<Self>) {
        let name = match Ident::diag_at(code, pos) {
            Ok(v) => v,
            Err(d) => {
                let wrap = |e: IdentDiag| -> (r: CallBlockDistructDiag)
                    ensures
                        r == CallBlockDistructDiag::Name(e),
                    { CallBlockDistructDiag::Name(e) };
                diags.absorb(d, wrap, Ghost(|e| CallBlockDistructDiag::Name(e)));
                return None;
            },
        };
        let dist = match Distribution::diag_at(code, name.get_end() + 1) {
            Ok(v) => v,
            Err(d) => {
                let wrap = |e: DistributionDiag| -> (r: CallBlockDistructDiag)
                    ensures
                        r == CallBlockDistructDiag::Distribution(e),
                    { CallBlockDistructDiag::Distribution(e) };
                diags.absorb(d, wrap, Ghost(|e| CallBlockDistructDiag::Distribution(e)));
                return None;
            },
        };
        Some(CallBlockDistruct { name, dist })
    }
}

impl<'s> DiagParse<'s> for CallBlockDistruct<'s> {

}

} // verus!
