pub mod distruct;
pub mod init;

use crate::code::{fuel, Code};
use crate::diag::{lemma_merge_assoc, Diags, DiagsView};
use crate::parse::{DiagParse, Parse};
use crate::slice::Slicable;
use core::ops::RangeInclusive;
use distruct::{
    block_distruct_view, block_distruct_wf, spec_block_distruct, BlockDistruct, BlockDistructDiag,
    BlockDistructV,
};
use init::{init_block_view, init_block_wf, spec_init_block, InitBlock, InitBlockDiag, InitBlockV};
use vstd::prelude::*;

verus! {

/// A block: spread where it stands, or written out there.
#[derive(PartialEq, Debug, Eq, Hash)]
pub enum Block<'s> {
    Distruct(BlockDistruct<'s>),
    Init(InitBlock<'s>),
}

#[derive(PartialEq, Debug, Clone, Copy, Eq, Hash)]
pub enum BlockDiag {
    Distruct(BlockDistructDiag),
    Init(InitBlockDiag),
}

pub enum BlockV {
    Distruct(BlockDistructV),
    Init(InitBlockV),
}

impl BlockV {
    pub open spec fn start(self) -> int {
        match self {
            BlockV::Distruct(d) => d.start(),
            BlockV::Init(i) => i.start(),
        }
    }

    pub open spec fn end(self) -> int {
        match self {
            BlockV::Distruct(d) => d.end(),
            BlockV::Init(i) => i.end(),
        }
    }
}

pub open spec fn block_view<'s>(b: Block<'s>) -> BlockV
    decreases b,
{
    match b {
        Block::Distruct(d) => BlockV::Distruct(block_distruct_view(d)),
        Block::Init(i) => BlockV::Init(init_block_view(i)),
    }
}

pub open spec fn block_wf<'s>(b: Block<'s>, chars: Seq<char>) -> bool
    decreases b,
{
    match b {
        Block::Distruct(d) => block_distruct_wf(d, chars),
        Block::Init(i) => init_block_wf(i, chars),
    }
}

/// A spread block if there is one at `pos`, otherwise one written out.
pub open spec fn spec_block(chars: Seq<char>, pos: int) -> (Option<BlockV>, DiagsView<BlockDiag>)
    decreases fuel(chars, pos), 6int,
{
    let (distruct, distruct_diags) = spec_block_distruct(chars, pos);
    match distruct {
        Some(v) => (Some(BlockV::Distruct(v)), DiagsView::empty()),
        None => {
            let first = distruct_diags.map(|e| BlockDiag::Distruct(e));
            let (init, init_diags) = spec_init_block(chars, pos);
            match init {
                Some(v) => (Some(BlockV::Init(v)), first),
                None => (None, first.merge(init_diags.map(|e| BlockDiag::Init(e)))),
            }
        },
    }
}

impl<'s> Block<'s> {
    /// A copy of the block.
    pub fn duplicate(&self) -> (r: Self)
        ensures
            block_view(r) == block_view(*self),
            crate::items::texts::block_texts(r) == crate::items::texts::block_texts(*self),
        decreases self,
    {
        match self {
            Block::Distruct(d) => Block::Distruct(d.duplicate()),
            Block::Init(i) => Block::Init(i.duplicate()),
        }
    }

    /// Recognizes a block at `pos` of `code`, and adds the diagnostics raised to `diags`.
    pub fn recognize(code: &Code<'s>, pos: usize, diags: &mut Diags<BlockDiag>) -> (r: Option<
        Self,
    >)
        requires
            code.wf(),
            old(diags)@.wf(),
        ensures
            r is Some == spec_block(code.chars@, pos as int).0 is Some,
            r matches Some(v) ==> {
                &&& block_view(v) == spec_block(code.chars@, pos as int).0.unwrap()
                &&& block_wf(v, code.chars@)
                &&& pos <= block_view(v).end() < code.chars@.len()
            },
            spec_block(code.chars@, pos as int).1.wf(),
            final(diags)@ == old(diags)@.merge(spec_block(code.chars@, pos as int).1),
            final(diags).warrnings == old(diags).warrnings,
        decreases fuel(code.chars@, pos as int), 6int,
    {
        let mut distruct_diags: Diags<BlockDistructDiag> = Diags::default();
        match BlockDistruct::recognize(code, pos, &mut distruct_diags) {
            Some(v) => {
                return Some(Block::Distruct(v));
            },
            None => {
                let wrap = |e: BlockDistructDiag| -> (r: BlockDiag)
                    ensures
                        r == BlockDiag::Distruct(e),
                    { BlockDiag::Distruct(e) };
                diags.absorb(distruct_diags, wrap, Ghost(|e| BlockDiag::Distruct(e)));
            },
        }
        let mut init_diags: Diags<InitBlockDiag> = Diags::default();
        match InitBlock::recognize(code, pos, &mut init_diags) {
            Some(v) => Some(Block::Init(v)),
            None => {
                let ghost start = *old(diags);
                let ghost dd = spec_block_distruct(code.chars@, pos as int).1.map(
                    |e| BlockDiag::Distruct(e),
                );
                let ghost id = spec_init_block(code.chars@, pos as int).1.map(
                    |e| BlockDiag::Init(e),
                );
                let wrap = |e: InitBlockDiag| -> (r: BlockDiag)
                    ensures
                        r == BlockDiag::Init(e),
                    { BlockDiag::Init(e) };
                diags.absorb(init_diags, wrap, Ghost(|e| BlockDiag::Init(e)));
                proof {
                    lemma_merge_assoc(start@, dd, id);
                }
                None
            },
        }
    }
}

impl<'s> View for Block<'s> {
    type V = BlockV;

    open spec fn view(&self) -> BlockV {
        block_view(*self)
    }
}

impl<'s> Slicable for Block<'s> {
    open spec fn spec_start(&self) -> int {
        block_view(*self).start()
    }

    open spec fn spec_end(&self) -> int {
        block_view(*self).end()
    }

    fn get_slice(&self) -> (r: RangeInclusive<usize>) {
        match self {
            Block::Distruct(d) => {
                let r = d.get_slice();
                assert(r@.start == self.spec_start());
                assert(r@.end == self.spec_end());
                r
            },
            Block::Init(i) => {
                let r = i.get_slice();
                assert(r@.start == self.spec_start());
                assert(r@.end == self.spec_end());
                r
            },
        }
    }
}

impl<'s> Parse<'s> for Block<'s> {
    type Diag = BlockDiag;

    open spec fn spec_parse(chars: Seq<char>, pos: int) -> (Option<BlockV>, DiagsView<BlockDiag>) {
        spec_block(chars, pos)
    }

    open spec fn wf_in(&self, chars: Seq<char>) -> bool {
        block_wf(*self, chars)
    }

    fn parse_at(code: &Code<'s>, pos: usize, diags: &mut Diags<BlockDiag>) -> (r: Option<Self>) {
        Self::recognize(code, pos, diags)
    }
}

impl<'s> DiagParse<'s> for Block<'s> {

}

} // verus!
