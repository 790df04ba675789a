use crate::code::{fuel, Code};
use crate::diag::{Diags, DiagsView};
use crate::items::item::block::init::named::{
    named_view, named_wf, spec_named_block, NamedBlock, NamedBlockDiag, NamedBlockV,
};
use crate::items::shared::distribution::{Distribution, DistributionDiag};
use crate::parse::{DiagParse, Parse};
use crate::slice::Slicable;
use core::ops::RangeInclusive;
use vstd::prelude::*;

verus! {

/// `name { items }..`: a named block, written out and spread where it stands.
#[derive(PartialEq, Debug, Eq, Hash)]
pub struct InitBlockDistruct<'s> {
    pub named_block: NamedBlock<'s>,
    pub distr: Distribution<'s>,
}

#[derive(PartialEq, Debug, Clone, Copy, Eq, Hash)]
pub enum InitBlockDistructDiag {
    NamedBlock(NamedBlockDiag),
    Distribution(DistributionDiag),
}

/// Model of a spread named block: the model of the block and the span of the `..`.
pub struct InitBlockDistructV {
    pub named_block: NamedBlockV,
    pub distr: (int, int),
}

impl InitBlockDistructV {
    pub open spec fn start(self) -> int {
        self.named_block.start()
    }

    pub open spec fn end(self) -> int {
        self.distr.1
    }
}

pub open spec fn init_block_distruct_view<'s>(d: InitBlockDistruct<'s>) -> InitBlockDistructV
    decreases d,
{
    InitBlockDistructV { named_block: named_view(d.named_block), distr: d.distr@ }
}

pub open spec fn init_block_distruct_wf<'s>(d: InitBlockDistruct<'s>, chars: Seq<char>) -> bool
    decreases d,
{
    named_wf(d.named_block, chars) && d.distr.wf_in(chars)
}

/// A named block, then `..` after it.
pub open spec fn spec_init_block_distruct(chars: Seq<char>, pos: int) -> (
    Option<InitBlockDistructV>,
    DiagsView<InitBlockDistructDiag>,
)
    decreases fuel(chars, pos), 4int,
{
    let (named, named_diags) = spec_named_block(chars, pos);
    match named {
        None => (None, named_diags.map(|e| InitBlockDistructDiag::NamedBlock(e))),
        Some(n) => {
            let (dist, dist_diags) = Distribution::spec_parse(chars, n.end() + 1);
            match dist {
                None => (None, dist_diags.map(|e| InitBlockDistructDiag::Distribution(e))),
                Some(d) => (
                    Some(InitBlockDistructV { named_block: n, distr: d }),
                    DiagsView::empty(),
                ),
            }
        },
    }
}

impl<'s> InitBlockDistruct<'s> {
    /// A copy of the spread block.
    pub fn duplicate(&self) -> (r: Self)
        ensures
            init_block_distruct_view(r) == init_block_distruct_view(*self),
            crate::items::texts::init_distruct_texts(r) == crate::items::texts::init_distruct_texts(*self),
        decreases self,
    {
        InitBlockDistruct { named_block: self.named_block.duplicate(), distr: self.distr.duplicate() }
    }

    /// Recognizes a spread named block at `pos` of `code`, and adds the diagnostics raised to
    /// `diags`.
    pub fn recognize(code: &Code<'s>, pos: usize, diags: &mut Diags<InitBlockDistructDiag>) -> (r:
        Option<Self>)
        requires
            code.wf(),
            old(diags)@.wf(),
        ensures
            r is Some == spec_init_block_distruct(code.chars@, pos as int).0 is Some,
            r matches Some(v) ==> {
                &&& init_block_distruct_view(v) == spec_init_block_distruct(
                    code.chars@,
                    pos as int,
                ).0.unwrap()
                &&& init_block_distruct_wf(v, code.chars@)
                &&& pos <= v.distr@.1 < code.chars@.len()
            },
            spec_init_block_distruct(code.chars@, pos as int).1.wf(),
            final(diags)@ == old(diags)@.merge(spec_init_block_distruct(code.chars@, pos as int).1),
            final(diags).warrnings == old(diags).warrnings,
        decreases fuel(code.chars@, pos as int), 4int,
    {
        let mut named_diags: Diags<NamedBlockDiag> = Diags::default();
        let named_block = match NamedBlock::recognize(code, pos, &mut named_diags) {
            Some(v) => v,
            None => {
                let wrap = |e: NamedBlockDiag| -> (r: InitBlockDistructDiag)
                    ensures
                        r == InitBlockDistructDiag::NamedBlock(e),
                    { InitBlockDistructDiag::NamedBlock(e) };
                diags.absorb(named_diags, wrap, Ghost(|e| InitBlockDistructDiag::NamedBlock(e)));
                return None;
            },
        };
        let distr = match Distribution::diag_at(code, named_block.block.close_bracket_pos + 1) {
            Ok(v) => v,
            Err(d) => {
                let wrap = |e: DistributionDiag| -> (r: InitBlockDistructDiag)
                    ensures
                        r == InitBlockDistructDiag::Distribution(e),
                    { InitBlockDistructDiag::Distribution(e) };
                diags.absorb(d, wrap, Ghost(|e| InitBlockDistructDiag::Distribution(e)));
                return None;
            },
        };
        Some(InitBlockDistruct { named_block, distr })
    }
}

impl<'s> View for InitBlockDistruct<'s> {
    type V = InitBlockDistructV;

    open spec fn view(&self) -> InitBlockDistructV {
        init_block_distruct_view(*self)
    }
}

impl<'s> Slicable for InitBlockDistruct<'s> {
    open spec fn spec_start(&self) -> int {
        self.named_block.name@.0
    }

    open spec fn spec_end(&self) -> int {
        self.distr@.1
    }

    fn get_slice(&self) -> (r: RangeInclusive<usize>) {
        let r = RangeInclusive::new(self.named_block.name.get_start(), self.distr.get_end());
        assert(r@.start == self.spec_start());
        assert(r@.end == self.spec_end());
        r
    }
}

impl<'s> Parse<'s> for InitBlockDistruct<'s> {
    type Diag = InitBlockDistructDiag;

    open spec fn spec_parse(chars: Seq<char>, pos: int) -> (
        Option<InitBlockDistructV>,
        DiagsView<InitBlockDistructDiag>,
    ) {
        spec_init_block_distruct(chars, pos)
    }

    open spec fn wf_in(&self, chars: Seq<char>) -> bool {
        init_block_distruct_wf(*self, chars)
    }

    fn parse_at(code: &Code<'s>, pos: usize, diags: &mut Diags<InitBlockDistructDiag>) -> (r:
        Option<Self>) {
        Self::recognize(code, pos, diags)
    }
}

impl<'s> DiagParse<'s> for InitBlockDistruct<'s> {

}

} // verus!
