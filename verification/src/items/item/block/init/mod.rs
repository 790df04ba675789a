pub mod named;
pub mod unnamed;

use crate::code::{fuel, Code};
use crate::diag::{lemma_merge_assoc, Diags, DiagsView};
use crate::parse::{DiagParse, Parse};
use crate::slice::Slicable;
use core::ops::RangeInclusive;
use named::{named_view, named_wf, spec_named_block, NamedBlock, NamedBlockDiag, NamedBlockV};
use unnamed::{
    spec_unnamed_block, unnamed_view, unnamed_wf, UnnamedBlock, UnnamedBlockDiag, UnnamedBlockV,
};
use vstd::prelude::*;

verus! {

/// A block that is written out where it stands, with a name or without one.
#[derive(PartialEq, Debug, Eq, Hash)]
pub enum InitBlock<'s> {
    Named(NamedBlock<'s>),
    Unnamed(UnnamedBlock<'s>),
}

#[derive(PartialEq, Debug, Clone, Copy, Eq, Hash)]
pub enum InitBlockDiag {
    Named(NamedBlockDiag),
    Unnamed(UnnamedBlockDiag),
}

pub enum InitBlockV {
    Named(NamedBlockV),
    Unnamed(UnnamedBlockV),
}

impl InitBlockV {
    pub open spec fn start(self) -> int {
        match self {
            InitBlockV::Named(n) => n.start(),
            InitBlockV::Unnamed(u) => u.start(),
        }
    }

    pub open spec fn end(self) -> int {
        match self {
            InitBlockV::Named(n) => n.end(),
            InitBlockV::Unnamed(u) => u.end(),
        }
    }
}

pub open spec fn init_block_view<'s>(b: InitBlock<'s>) -> InitBlockV
    decreases b,
{
    match b {
        InitBlock::Named(n) => InitBlockV::Named(named_view(n)),
        InitBlock::Unnamed(u) => InitBlockV::Unnamed(unnamed_view(u)),
    }
}

pub open spec fn init_block_wf<'s>(b: InitBlock<'s>, chars: Seq<char>) -> bool
    decreases b,
{
    match b {
        InitBlock::Named(n) => named_wf(n, chars),
        InitBlock::Unnamed(u) => unnamed_wf(u, chars),
    }
}

/// A named block if there is one at `pos`, otherwise an unnamed one.
pub open spec fn spec_init_block(chars: Seq<char>, pos: int) -> (
    Option<InitBlockV>,
    DiagsView<InitBlockDiag>,
)
    decreases fuel(chars, pos), 4int,
{
    let (named, named_diags) = spec_named_block(chars, pos);
    match named {
        Some(v) => (Some(InitBlockV::Named(v)), DiagsView::empty()),
        None => {
            let first = named_diags.map(|e| InitBlockDiag::Named(e));
            let (unnamed, unnamed_diags) = spec_unnamed_block(chars, pos);
            match unnamed {
                Some(v) => (Some(InitBlockV::Unnamed(v)), first),
                None => (None, first.merge(unnamed_diags.map(|e| InitBlockDiag::Unnamed(e)))),
            }
        },
    }
}

impl<'s> InitBlock<'s> {
    /// A copy of the block.
    pub fn duplicate(&self) -> (r: Self)
        ensures
            init_block_view(r) == init_block_view(*self),
            crate::items::texts::init_block_texts(r) == crate::items::texts::init_block_texts(*self),
        decreases self,
    {
        match self {
            InitBlock::Named(n) => InitBlock::Named(n.duplicate()),
            InitBlock::Unnamed(u) => InitBlock::Unnamed(u.duplicate()),
        }
    }

    /// Recognizes a block written out at `pos` of `code`, and adds the diagnostics raised to
    /// `diags`.
    pub fn recognize(code: &Code<'s>, pos: usize, diags: &mut Diags<InitBlockDiag>) -> (r: Option<
        Self,
    >)
        requires
            code.wf(),
            old(diags)@.wf(),
        ensures
            r is Some == spec_init_block(code.chars@, pos as int).0 is Some,
            r matches Some(v) ==> {
                &&& init_block_view(v) == spec_init_block(code.chars@, pos as int).0.unwrap()
                &&& init_block_wf(v, code.chars@)
                &&& pos <= init_block_view(v).end() < code.chars@.len()
            },
            spec_init_block(code.chars@, pos as int).1.wf(),
            final(diags)@ == old(diags)@.merge(spec_init_block(code.chars@, pos as int).1),
            final(diags).warrnings == old(diags).warrnings,
        decreases fuel(code.chars@, pos as int), 4int,
    {
        let mut named_diags: Diags<NamedBlockDiag> = Diags::default();
        match NamedBlock::recognize(code, pos, &mut named_diags) {
            Some(v) => {
                return Some(InitBlock::Named(v));
            },
            None => {
                let wrap = |e: NamedBlockDiag| -> (r: InitBlockDiag)
                    ensures
                        r == InitBlockDiag::Named(e),
                    { InitBlockDiag::Named(e) };
                diags.absorb(named_diags, wrap, Ghost(|e| InitBlockDiag::Named(e)));
            },
        }
        let mut unnamed_diags: Diags<UnnamedBlockDiag> = Diags::default();
        match UnnamedBlock::recognize(code, pos, &mut unnamed_diags) {
            Some(v) => Some(InitBlock::Unnamed(v)),
            None => {
                let ghost start = *old(diags);
                let ghost nd = spec_named_block(code.chars@, pos as int).1.map(
                    |e| InitBlockDiag::Named(e),
                );
                let ghost ud = spec_unnamed_block(code.chars@, pos as int).1.map(
                    |e| InitBlockDiag::Unnamed(e),
                );
                let wrap = |e: UnnamedBlockDiag| -> (r: InitBlockDiag)
                    ensures
                        r == InitBlockDiag::Unnamed(e),
                    { InitBlockDiag::Unnamed(e) };
                diags.absorb(unnamed_diags, wrap, Ghost(|e| InitBlockDiag::Unnamed(e)));
                proof {
                    lemma_merge_assoc(start@, nd, ud);
                }
                None
            },
        }
    }
}

impl<'s> View for InitBlock<'s> {
    type V = InitBlockV;

    open spec fn view(&self) -> InitBlockV {
        init_block_view(*self)
    }
}

impl<'s> Slicable for InitBlock<'s> {
    open spec fn spec_start(&self) -> int {
        init_block_view(*self).start()
    }

    open spec fn spec_end(&self) -> int {
        init_block_view(*self).end()
    }

    fn get_slice(&self) -> (r: RangeInclusive<usize>) {
        match self {
            InitBlock::Named(n) => {
                let r = n.get_slice();
                assert(r@.start == self.spec_start());
                assert(r@.end == self.spec_end());
                r
            },
            InitBlock::Unnamed(u) => {
                let r = u.get_slice();
                assert(r@.start == self.spec_start());
                assert(r@.end == self.spec_end());
                r
            },
        }
    }
}

impl<'s> Parse<'s> for InitBlock<'s> {
    type Diag = InitBlockDiag;

    open spec fn spec_parse(chars: Seq<char>, pos: int) -> (
        Option<InitBlockV>,
        DiagsView<InitBlockDiag>,
    ) {
        spec_init_block(chars, pos)
    }

    open spec fn wf_in(&self, chars: Seq<char>) -> bool {
        init_block_wf(*self, chars)
    }

    fn parse_at(code: &Code<'s>, pos: usize, diags: &mut Diags<InitBlockDiag>) -> (r: Option<
        Self,
    >) {
        Self::recognize(code, pos, diags)
    }
}

impl<'s> DiagParse<'s> for InitBlock<'s> {

}

} // verus!
