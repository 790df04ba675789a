use super::unnamed::{
    spec_unnamed_block, unnamed_view, unnamed_wf, UnnamedBlock, UnnamedBlockDiag, UnnamedBlockV,
};
use crate::code::{fuel, Code};
use crate::diag::{Diags, DiagsView};
use crate::items::item::ident::{lemma_ident_span, Ident, IdentDiag};
use crate::items::item::Item;
use crate::parse::{DiagParse, Parse};
use crate::slice::{slice_text, sliceable, Slicable};
use core::ops::RangeInclusive;
use vstd::prelude::*;

verus! {

/// `name { items }`: a block with a name.
#[derive(PartialEq, Debug, Eq, Hash)]
pub struct NamedBlock<'s> {
    pub name: Ident<'s>,
    pub block: UnnamedBlock<'s>,
}

#[derive(PartialEq, Debug, Clone, Copy, Eq, Hash)]
pub enum NamedBlockDiag {
    Name(IdentDiag),
    UnnamedBlock(UnnamedBlockDiag),
}

/// Model of a named block: the span of its name and the model of its block.
pub struct NamedBlockV {
    pub name: (int, int),
    pub block: UnnamedBlockV,
}

impl NamedBlockV {
    pub open spec fn start(self) -> int {
        self.name.0
    }

    pub open spec fn end(self) -> int {
        self.block.end()
    }
}

pub open spec fn named_view<'s>(n: NamedBlock<'s>) -> NamedBlockV
    decreases n,
{
    NamedBlockV { name: n.name@, block: unnamed_view(n.block) }
}

pub open spec fn named_wf<'s>(n: NamedBlock<'s>, chars: Seq<char>) -> bool
    decreases n,
{
    n.name.wf_in(chars) && unnamed_wf(n.block, chars)
}

/// A name, then an unnamed block after it.
pub open spec fn spec_named_block(chars: Seq<char>, pos: int) -> (
    Option<NamedBlockV>,
    DiagsView<NamedBlockDiag>,
)
    decreases fuel(chars, pos), 3int,
{
    let (name, name_diags) = Ident::spec_parse(chars, pos);
    match name {
        None => (None, name_diags.map(|e| NamedBlockDiag::Name(e))),
        Some(n) => {
            proof {
                lemma_ident_span(chars, pos);
            }
            let (block, block_diags) = spec_unnamed_block(chars, n.1 + 1);
            match block {
                None => (None, block_diags.map(|e| NamedBlockDiag::UnnamedBlock(e))),
                Some(b) => (Some(NamedBlockV { name: n, block: b }), DiagsView::empty()),
            }
        },
    }
}

impl<'s> NamedBlock<'s> {
    /// A copy of the block.
    pub fn duplicate(&self) -> (r: Self)
        ensures
            named_view(r) == named_view(*self),
            crate::items::texts::named_texts(r) == crate::items::texts::named_texts(*self),
            r.name.0.source == self.name.0.source,
        decreases self,
    {
        NamedBlock { name: self.name.duplicate(), block: self.block.duplicate() }
    }

    /// The block named by the text at `ident_slice` of `code`, with `block.0` as its items
    /// between brackets at the positions `block.1`.
    pub fn new(ident_slice: RangeInclusive<usize>, block: (Vec<Item<'s>>, [usize; 2]), code: &Code<
        's,
    >) -> (r: Self)
        requires
            sliceable(code, ident_slice),
        ensures
            r.name@ == (ident_slice@.start as int, ident_slice@.end as int),
            r.name.0.source@ == slice_text(code, ident_slice),
            ident_slice@.start <= ident_slice@.end < code.chars@.len() ==> r.name.wf_in(code.chars@),
            r.block.items.0@ == block.0@,
            r.block.open_bracket_pos == block.1[0],
            r.block.close_bracket_pos == block.1[1],
    {
        let (items, brackets) = block;
        NamedBlock { name: Ident::new(ident_slice, code), block: UnnamedBlock::new(items, brackets) }
    }

    /// Recognizes a named block at `pos` of `code`, and adds the diagnostics raised to `diags`.
    pub fn recognize(code: &Code<'s>, pos: usize, diags: &mut Diags<NamedBlockDiag>) -> (r: Option<
        Self,
    >)
        requires
            code.wf(),
            old(diags)@.wf(),
        ensures
            r is Some == spec_named_block(code.chars@, pos as int).0 is Some,
            r matches Some(v) ==> {
                &&& named_view(v) == spec_named_block(code.chars@, pos as int).0.unwrap()
                &&& named_wf(v, code.chars@)
                &&& pos <= v.block.close_bracket_pos < code.chars@.len()
            },
            spec_named_block(code.chars@, pos as int).1.wf(),
            final(diags)@ == old(diags)@.merge(spec_named_block(code.chars@, pos as int).1),
            final(diags).warrnings == old(diags).warrnings,
        decreases fuel(code.chars@, pos as int), 3int,
    {
        let name = match Ident::diag_at(code, pos) {
            Ok(v) => v,
            Err(d) => {
                let wrap = |e: IdentDiag| -> (r: NamedBlockDiag)
                    ensures
                        r == NamedBlockDiag::Name(e),
                    { NamedBlockDiag::Name(e) };
                diags.absorb(d, wrap, Ghost(|e| NamedBlockDiag::Name(e)));
                return None;
            },
        };
        let mut block_diags: Diags<UnnamedBlockDiag> = Diags::default();
        match UnnamedBlock::recognize(code, name.get_end() + 1, &mut block_diags) {
            Some(block) => Some(NamedBlock { name, block }),
            None => {
                let wrap = |e: UnnamedBlockDiag| -> (r: NamedBlockDiag)
                    ensures
                        r == NamedBlockDiag::UnnamedBlock(e),
                    { NamedBlockDiag::UnnamedBlock(e) };
                diags.absorb(block_diags, wrap, Ghost(|e| NamedBlockDiag::UnnamedBlock(e)));
                None
            },
        }
    }
}

impl<'s> View for NamedBlock<'s> {
    type V = NamedBlockV;

    open spec fn view(&self) -> NamedBlockV {
        named_view(*self)
    }
}

impl<'s> Slicable for NamedBlock<'s> {
    open spec fn spec_start(&self) -> int {
        self.name@.0
    }

    open spec fn spec_end(&self) -> int {
        self.block.close_bracket_pos as int
    }

    fn get_slice(&self) -> (r: RangeInclusive<usize>) {
        let r = RangeInclusive::new(self.name.get_start(), self.block.close_bracket_pos);
        assert(r@.start == self.spec_start());
        assert(r@.end == self.spec_end());
        r
    }
}

impl<'s> Parse<'s> for NamedBlock<'s> {
    type Diag = NamedBlockDiag;

    open spec fn spec_parse(chars: Seq<char>, pos: int) -> (
        Option<NamedBlockV>,
        DiagsView<NamedBlockDiag>,
    ) {
        spec_named_block(chars, pos)
    }

    open spec fn wf_in(&self, chars: Seq<char>) -> bool {
        named_wf(*self, chars)
    }

    fn parse_at(code: &Code<'s>, pos: usize, diags: &mut Diags<NamedBlockDiag>) -> (r: Option<
        Self,
    >) {
        Self::recognize(code, pos, diags)
    }
}

impl<'s> DiagParse<'s> for NamedBlock<'s> {

}

} // verus!
