pub mod assign_expr;
pub mod block;
pub mod ident;

use crate::code::{fuel, lemma_skip_ignored_bounds, skip_ignored, Code};
use crate::diag::{lemma_merge_assoc, Diags, DiagsView};
use crate::parse::{DiagParse, Parse};
use crate::slice::Slicable;
use assign_expr::literal::{Literal, LiteralDiag, LiteralType};
use assign_expr::{AssignExpr, AssignExprDiag, AssignExprType};
use block::distruct::call::CallBlockDistruct;
use block::distruct::init::spec_init_block_distruct;
use block::distruct::spec_block_distruct;
use block::init::named::spec_named_block;
use block::init::spec_init_block;
use block::init::unnamed::spec_unnamed_block;
use block::{block_view, block_wf, spec_block, Block, BlockDiag, BlockV};
use core::ops::RangeInclusive;
use ident::{Ident, IdentDiag};
use vstd::prelude::*;

verus! {

/// One item of a list of items.
#[derive(PartialEq, Debug, Eq, Hash)]
pub enum Item<'s> {
    Block(Block<'s>),
    AssignExpr(AssignExpr<'s>),
    Ident(Ident<'s>),
    Literal(Literal<'s>),
}

#[derive(PartialEq, Debug, Clone, Copy, Eq, Hash)]
pub enum ItemDiag {
    Block(BlockDiag),
    AssignExpr(AssignExprDiag),
    Ident(IdentDiag),
    Literal(LiteralDiag),
}

/// Model of an item: the model of the construct it holds.
pub enum ItemV {
    Block(BlockV),
    AssignExpr((AssignExprType, ((int, int), (LiteralType, int, int)))),
    Ident((int, int)),
    Literal((LiteralType, int, int)),
}

impl ItemV {
    pub open spec fn start(self) -> int {
        match self {
            ItemV::Block(b) => b.start(),
            ItemV::AssignExpr(a) => a.1.0.0,
            ItemV::Ident(i) => i.0,
            ItemV::Literal(l) => l.1,
        }
    }

    pub open spec fn end(self) -> int {
        match self {
            ItemV::Block(b) => b.end(),
            ItemV::AssignExpr(a) => a.1.1.2,
            ItemV::Ident(i) => i.1,
            ItemV::Literal(l) => l.2,
        }
    }
}

pub open spec fn item_view<'s>(i: Item<'s>) -> ItemV
    decreases i,
{
    match i {
        Item::Block(b) => ItemV::Block(block_view(b)),
        Item::AssignExpr(a) => ItemV::AssignExpr(a@),
        Item::Ident(x) => ItemV::Ident(x@),
        Item::Literal(l) => ItemV::Literal(l@),
    }
}

pub open spec fn item_wf<'s>(i: Item<'s>, chars: Seq<char>) -> bool
    decreases i,
{
    match i {
        Item::Block(b) => block_wf(b, chars),
        Item::AssignExpr(a) => a.wf_in(chars),
        Item::Ident(x) => x.wf_in(chars),
        Item::Literal(l) => l.wf_in(chars),
    }
}

/// The first of a block, an assignment, a name and a literal that is recognized at `pos`. The
/// diagnostics are those of the kinds tried before it, or of all four when none is.
pub open spec fn spec_item(chars: Seq<char>, pos: int) -> (Option<ItemV>, DiagsView<ItemDiag>)
    decreases fuel(chars, pos), 7int,
{
    let (block, block_diags) = spec_block(chars, pos);
    match block {
        Some(v) => (Some(ItemV::Block(v)), DiagsView::empty()),
        None => {
            let d1 = block_diags.map(|e| ItemDiag::Block(e));
            let (assign, assign_diags) = AssignExpr::spec_parse(chars, pos);
            match assign {
                Some(v) => (Some(ItemV::AssignExpr(v)), d1),
                None => {
                    let d2 = d1.merge(assign_diags.map(|e| ItemDiag::AssignExpr(e)));
                    let (ident, ident_diags) = Ident::spec_parse(chars, pos);
                    match ident {
                        Some(v) => (Some(ItemV::Ident(v)), d2),
                        None => {
                            let d3 = d2.merge(ident_diags.map(|e| ItemDiag::Ident(e)));
                            let (literal, literal_diags) = Literal::spec_parse(chars, pos);
                            match literal {
                                Some(v) => (Some(ItemV::Literal(v)), d3),
                                None => (None, d3.merge(literal_diags.map(|e| ItemDiag::Literal(e)))),
                            }
                        },
                    }
                },
            }
        },
    }
}

/// Skipping ignored characters twice lands where skipping them once does.
proof fn lemma_skip_twice(chars: Seq<char>, pos: int)
    ensures
        skip_ignored(chars, skip_ignored(chars, pos)) == skip_ignored(chars, pos),
{
    if 0 <= pos {
        lemma_skip_ignored_bounds(chars, pos);
    }
}

/// A name is recognized alike where ignored characters start and where they end.
proof fn lemma_ident_skip(chars: Seq<char>, pos: int)
    ensures
        Ident::spec_parse(chars, pos) == Ident::spec_parse(chars, skip_ignored(chars, pos)),
{
    lemma_skip_twice(chars, pos);
}

/// Every construct an item can be starts by skipping ignored characters, so it is recognized
/// alike where they start and where they end.
proof fn lemma_constructs_skip(chars: Seq<char>, pos: int)
    ensures
        ({
            let at = skip_ignored(chars, pos);
            &&& spec_named_block(chars, pos) == spec_named_block(chars, at)
            &&& spec_unnamed_block(chars, pos) == spec_unnamed_block(chars, at)
            &&& CallBlockDistruct::spec_parse(chars, pos) == CallBlockDistruct::spec_parse(chars, at)
            &&& AssignExpr::spec_parse(chars, pos) == AssignExpr::spec_parse(chars, at)
            &&& Ident::spec_parse(chars, pos) == Ident::spec_parse(chars, at)
            &&& Literal::spec_parse(chars, pos) == Literal::spec_parse(chars, at)
        }),
{
    let at = skip_ignored(chars, pos);
    lemma_skip_twice(chars, pos);
    lemma_ident_skip(chars, pos);
    assert(spec_named_block(chars, pos) == spec_named_block(chars, at));
    assert(spec_unnamed_block(chars, pos) == spec_unnamed_block(chars, at));
    assert(CallBlockDistruct::spec_parse(chars, pos) == CallBlockDistruct::spec_parse(chars, at));
    assert(AssignExpr::spec_parse(chars, pos) == AssignExpr::spec_parse(chars, at));
}

/// Ignored characters in front of an item change nothing: recognizing an item where they start
/// and where they end yields the same item and raises the same diagnostics.
pub proof fn law_item_ignores_leading_whitespace(chars: Seq<char>, pos: int)
    ensures
        spec_item(chars, pos) == spec_item(chars, skip_ignored(chars, pos)),
{
    let at = skip_ignored(chars, pos);
    lemma_constructs_skip(chars, pos);
    assert(spec_init_block_distruct(chars, pos) == spec_init_block_distruct(chars, at));
    assert(spec_block_distruct(chars, pos) == spec_block_distruct(chars, at));
    assert(spec_init_block(chars, pos) == spec_init_block(chars, at));
    assert(spec_block(chars, pos) == spec_block(chars, at));
}

/// An item starts at the first character at or after the position it is looked for at that is
/// not ignored.
pub proof fn law_item_starts_after_blanks(chars: Seq<char>, pos: int)
    ensures
        spec_item(chars, pos).0 matches Some(v) ==> v.start() == skip_ignored(chars, pos),
{
    let at = skip_ignored(chars, pos);
    assert(spec_named_block(chars, pos).0 matches Some(v) ==> v.start() == at);
    assert(spec_unnamed_block(chars, pos).0 matches Some(v) ==> v.start() == at);
    assert(spec_init_block_distruct(chars, pos).0 matches Some(v) ==> v.start() == at);
    assert(spec_block_distruct(chars, pos).0 matches Some(v) ==> v.start() == at);
    assert(spec_init_block(chars, pos).0 matches Some(v) ==> v.start() == at);
    assert(spec_block(chars, pos).0 matches Some(v) ==> v.start() == at);
}

impl<'s> Item<'s> {
    /// A copy of the item.
    pub fn duplicate(&self) -> (r: Self)
        ensures
            item_view(r) == item_view(*self),
            crate::items::texts::item_texts(r) == crate::items::texts::item_texts(*self),
        decreases self,
    {
        match self {
            Item::Block(b) => Item::Block(b.duplicate()),
            Item::AssignExpr(a) => Item::AssignExpr(a.duplicate()),
            Item::Ident(x) => Item::Ident(x.duplicate()),
            Item::Literal(l) => Item::Literal(l.duplicate()),
        }
    }

    /// Recognizes an item at `pos` of `code`, and adds the diagnostics raised to `diags`.
    pub fn recognize(code: &Code<'s>, pos: usize, diags: &mut Diags<ItemDiag>) -> (r: Option<Self>)
        requires
            code.wf(),
            old(diags)@.wf(),
        ensures
            r is Some == spec_item(code.chars@, pos as int).0 is Some,
            r matches Some(v) ==> {
                &&& item_view(v) == spec_item(code.chars@, pos as int).0.unwrap()
                &&& item_wf(v, code.chars@)
                &&& pos <= item_view(v).end() < code.chars@.len()
            },
            spec_item(code.chars@, pos as int).1.wf(),
            final(diags)@ == old(diags)@.merge(spec_item(code.chars@, pos as int).1),
            final(diags).warrnings == old(diags).warrnings,
        decreases fuel(code.chars@, pos as int), 7int,
    {
        let ghost start = *old(diags);
        let ghost chars = code.chars@;
        let ghost d1 = spec_block(chars, pos as int).1.map(|e| ItemDiag::Block(e));
        let ghost d2 = AssignExpr::spec_parse(chars, pos as int).1.map(|e| ItemDiag::AssignExpr(e));
        let ghost d3 = Ident::spec_parse(chars, pos as int).1.map(|e| ItemDiag::Ident(e));
        let ghost d4 = Literal::spec_parse(chars, pos as int).1.map(|e| ItemDiag::Literal(e));
        let mut block_diags: Diags<BlockDiag> = Diags::default();
        match Block::recognize(code, pos, &mut block_diags) {
            Some(v) => {
                return Some(Item::Block(v));
            },
            None => {
                let wrap = |e: BlockDiag| -> (r: ItemDiag)
                    ensures
                        r == ItemDiag::Block(e),
                    { ItemDiag::Block(e) };
                diags.absorb(block_diags, wrap, Ghost(|e| ItemDiag::Block(e)));
            },
        }
        match AssignExpr::diag_at(code, pos) {
            Ok(v) => {
                return Some(Item::AssignExpr(v));
            },
            Err(d) => {
                let wrap = |e: AssignExprDiag| -> (r: ItemDiag)
                    ensures
                        r == ItemDiag::AssignExpr(e),
                    { ItemDiag::AssignExpr(e) };
                diags.absorb(d, wrap, Ghost(|e| ItemDiag::AssignExpr(e)));
                proof {
                    lemma_merge_assoc(start@, d1, d2);
                }
            },
        }
        match Ident::diag_at(code, pos) {
            Ok(v) => {
                return Some(Item::Ident(v));
            },
            Err(d) => {
                let wrap = |e: IdentDiag| -> (r: ItemDiag)
                    ensures
                        r == ItemDiag::Ident(e),
                    { ItemDiag::Ident(e) };
                diags.absorb(d, wrap, Ghost(|e| ItemDiag::Ident(e)));
                proof {
                    lemma_merge_assoc(start@, d1.merge(d2), d3);
                    lemma_merge_assoc(d1, d2, d3);
                }
            },
        }
        match Literal::diag_at(code, pos) {
            Ok(v) => Some(Item::Literal(v)),
            Err(d) => {
                let wrap = |e: LiteralDiag| -> (r: ItemDiag)
                    ensures
                        r == ItemDiag::Literal(e),
                    { ItemDiag::Literal(e) };
                diags.absorb(d, wrap, Ghost(|e| ItemDiag::Literal(e)));
                proof {
                    lemma_merge_assoc(start@, d1.merge(d2).merge(d3), d4);
                    lemma_merge_assoc(d1, d2, d3);
                    lemma_merge_assoc(d1.merge(d2), d3, d4);
                    lemma_merge_assoc(d1, d2, d3.merge(d4));
                }
                None
            },
        }
    }
}

impl<'s> View for Item<'s> {
    type V = ItemV;

    open spec fn view(&self) -> ItemV {
        item_view(*self)
    }
}

impl<'s> Slicable for Item<'s> {
    open spec fn spec_start(&self) -> int {
        item_view(*self).start()
    }

    open spec fn spec_end(&self) -> int {
        item_view(*self).end()
    }

    fn get_slice(&self) -> (r: RangeInclusive<usize>) {
        match self {
            Item::Block(b) => {
                let r = b.get_slice();
                assert(r@.start == self.spec_start());
                assert(r@.end == self.spec_end());
                r
            },
            Item::AssignExpr(a) => {
                let r = a.get_slice();
                assert(r@.start == self.spec_start());
                assert(r@.end == self.spec_end());
                r
            },
            Item::Ident(x) => {
                let r = x.get_slice();
                assert(r@.start == self.spec_start());
                assert(r@.end == self.spec_end());
                r
            },
            Item::Literal(l) => {
                let r = l.get_slice();
                assert(r@.start == self.spec_start());
                assert(r@.end == self.spec_end());
                r
            },
        }
    }
}

impl<'s> Parse<'s> for Item<'s> {
    type Diag = ItemDiag;

    open spec fn spec_parse(chars: Seq<char>, pos: int) -> (Option<ItemV>, DiagsView<ItemDiag>) {
        spec_item(chars, pos)
    }

    open spec fn wf_in(&self, chars: Seq<char>) -> bool {
        item_wf(*self, chars)
    }

    fn parse_at(code: &Code<'s>, pos: usize, diags: &mut Diags<ItemDiag>) -> (r: Option<Self>) {
        Self::recognize(code, pos, diags)
    }
}

impl<'s> DiagParse<'s> for Item<'s> {

}

} // verus!
