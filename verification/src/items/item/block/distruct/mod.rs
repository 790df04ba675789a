pub mod call;
pub mod init;

use crate::code::{fuel, Code};
use crate::diag::{lemma_merge_assoc, Diags, DiagsView};
use crate::parse::{DiagParse, Parse};
use crate::slice::Slicable;
use call::{CallBlockDistruct, CallBlockDistructDiag};
use core::ops::RangeInclusive;
use init::{
    init_block_distruct_view, init_block_distruct_wf, spec_init_block_distruct, InitBlockDistruct,
    InitBlockDistructDiag, InitBlockDistructV,
};
use vstd::prelude::*;

verus! {

/// A block spread where it stands: one written out there, or one called by its name.
#[derive(PartialEq, Debug, Eq, Hash)]
pub enum BlockDistruct<'s> {
    Init(InitBlockDistruct<'s>),
    Call(CallBlockDistruct<'s>),
}

#[derive(PartialEq, Debug, Clone, Copy, Eq, Hash)]
pub enum BlockDistructDiag {
    Init(InitBlockDistructDiag),
    Call(CallBlockDistructDiag),
}

pub enum BlockDistructV {
    Init(InitBlockDistructV),
    Call(((int, int), (int, int))),
}

impl BlockDistructV {
    pub open spec fn start(self) -> int {
        match self {
            BlockDistructV::Init(i) => i.start(),
            BlockDistructV::Call(c) => c.0.0,
        }
    }

    pub open spec fn end(self) -> int {
        match self {
            BlockDistructV::Init(i) => i.end(),
            BlockDistructV::Call(c) => c.1.1,
        }
    }
}

pub open spec fn block_distruct_view<'s>(d: BlockDistruct<'s>) -> BlockDistructV
    decreases d,
{
    match d {
        BlockDistruct::Init(i) => BlockDistructV::Init(init_block_distruct_view(i)),
        BlockDistruct::Call(c) => BlockDistructV::Call(c@),
    }
}

pub open spec fn block_distruct_wf<'s>(d: BlockDistruct<'s>, chars: Seq<char>) -> bool
    decreases d,
{
    match d {
        BlockDistruct::Init(i) => init_block_distruct_wf(i, chars),
        BlockDistruct::Call(c) => c.wf_in(chars),
    }
}

/// A block written out and spread if there is one at `pos`, otherwise a call of one.
pub open spec fn spec_block_distruct(chars: Seq<char>, pos: int) -> (
    Option<BlockDistructV>,
    DiagsView<BlockDistructDiag>,
)
    decreases fuel(chars, pos), 5int,
{
    let (init, init_diags) = spec_init_block_distruct(chars, pos);
    match init {
        Some(v) => (Some(BlockDistructV::Init(v)), DiagsView::empty()),
        None => {
            let first = init_diags.map(|e| BlockDistructDiag::Init(e));
            let (call, call_diags) = CallBlockDistruct::spec_parse(chars, pos);
            match call {
                Some(v) => (Some(BlockDistructV::Call(v)), first),
                None => (None, first.merge(call_diags.map(|e| BlockDistructDiag::Call(e)))),
            }
        },
    }
}

impl<'s> BlockDistruct<'s> {
    /// A copy of the spread block.
    pub fn duplicate(&self) -> (r: Self)
        ensures
            block_distruct_view(r) == block_distruct_view(*self),
            crate::items::texts::distruct_texts(r) == crate::items::texts::distruct_texts(*self),
        decreases self,
    {
        match self {
            BlockDistruct::Init(i) => BlockDistruct::Init(i.duplicate()),
            BlockDistruct::Call(c) => BlockDistruct::Call(c.duplicate()),
        }
    }

    /// Recognizes a spread block at `pos` of `code`, and adds the diagnostics raised to `diags`.
    pub fn recognize(code: &Code<'s>, pos: usize, diags: &mut Diags<BlockDistructDiag>) -> (r:
        Option<Self>)
        requires
            code.wf(),
            old(diags)@.wf(),
        ensures
            r is Some == spec_block_distruct(code.chars@, pos as int).0 is Some,
            r matches Some(v) ==> {
                &&& block_distruct_view(v) == spec_block_distruct(code.chars@, pos as int).0.unwrap()
                &&& block_distruct_wf(v, code.chars@)
                &&& pos <= block_distruct_view(v).end() < code.chars@.len()
            },
            spec_block_distruct(code.chars@, pos as int).1.wf(),
            final(diags)@ == old(diags)@.merge(spec_block_distruct(code.chars@, pos as int).1),
            final(diags).warrnings == old(diags).warrnings,
        decreases fuel(code.chars@, pos as int), 5int,
    {
        let mut init_diags: Diags<InitBlockDistructDiag> = Diags::default();
        match InitBlockDistruct::recognize(code, pos, &mut init_diags) {
            Some(v) => {
                return Some(BlockDistruct::Init(v));
            },
            None => {
                let wrap = |e: InitBlockDistructDiag| -> (r: BlockDistructDiag)
                    ensures
                        r == BlockDistructDiag::Init(e),
                    { BlockDistructDiag::Init(e) };
                diags.absorb(init_diags, wrap, Ghost(|e| BlockDistructDiag::Init(e)));
            },
        }
        match CallBlockDistruct::diag_at(code, pos) {
            Ok(v) => Some(BlockDistruct::Call(v)),
            Err(d) => {
                let ghost start = *old(diags);
                let ghost id = spec_init_block_distruct(code.chars@, pos as int).1.map(
                    |e| BlockDistructDiag::Init(e),
                );
                let ghost cd = CallBlockDistruct::spec_parse(code.chars@, pos as int).1.map(
                    |e| BlockDistructDiag::Call(e),
                );
                let wrap = |e: CallBlockDistructDiag| -> (r: BlockDistructDiag)
                    ensures
                        r == BlockDistructDiag::Call(e),
                    { BlockDistructDiag::Call(e) };
                diags.absorb(d, wrap, Ghost(|e| BlockDistructDiag::Call(e)));
                proof {
                    lemma_merge_assoc(start@, id, cd);
                }
                None
            },
        }
    }
}

impl<'s> View for BlockDistruct<'s> {
    type V = BlockDistructV;

    open spec fn view(&self) -> BlockDistructV {
        block_distruct_view(*self)
    }
}

impl<'s> Slicable for BlockDistruct<'s> {
    open spec fn spec_start(&self) -> int {
        block_distruct_view(*self).start()
    }

    open spec fn spec_end(&self) -> int {
        block_distruct_view(*self).end()
    }

    fn get_slice(&self) -> (r: RangeInclusive<usize>) {
        match self {
            BlockDistruct::Init(i) => {
                let r = i.get_slice();
                assert(r@.start == self.spec_start());
                assert(r@.end == self.spec_end());
                r
            },
            BlockDistruct::Call(c) => {
                let r = c.get_slice();
                assert(r@.start == self.spec_start());
                assert(r@.end == self.spec_end());
                r
            },
        }
    }
}

impl<'s> Parse<'s> for BlockDistruct<'s> {
    type Diag = BlockDistructDiag;

    open spec fn spec_parse(chars: Seq<char>, pos: int) -> (
        Option<BlockDistructV>,
        DiagsView<BlockDistructDiag>,
    ) {
        spec_block_distruct(chars, pos)
    }

    open spec fn wf_in(&self, chars: Seq<char>) -> bool {
        block_distruct_wf(*self, chars)
    }

    fn parse_at(code: &Code<'s>, pos: usize, diags: &mut Diags<BlockDistructDiag>) -> (r: Option<
        Self,
    >) {
        Self::recognize(code, pos, diags)
    }
}

impl<'s> DiagParse<'s> for BlockDistruct<'s> {

}

} // verus!
