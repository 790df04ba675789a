use crate::items::item::block::distruct::init::InitBlockDistruct;
use crate::items::item::block::distruct::BlockDistruct;
use crate::items::item::block::init::named::NamedBlock;
use crate::items::item::block::init::unnamed::UnnamedBlock;
use crate::items::item::block::init::InitBlock;
use crate::items::item::block::Block;
use crate::items::item::{item_view, Item};
use crate::items::Items;
use vstd::prelude::*;

verus! {

/// The texts of the slices of an item, in the order they stand in it. Together with the model,
/// which fixes how many slices each part has, they give the text of every slice.
pub open spec fn item_texts<'s>(i: Item<'s>) -> Seq<Seq<char>>
    decreases i,
{
    match i {
        Item::Block(b) => block_texts(b),
        Item::AssignExpr(a) => seq![a.val.0.left.0.source@, a.val.0.right.slice.source@],
        Item::Ident(x) => seq![x.0.source@],
        Item::Literal(l) => seq![l.slice.source@],
    }
}

pub open spec fn block_texts<'s>(b: Block<'s>) -> Seq<Seq<char>>
    decreases b,
{
    match b {
        Block::Distruct(d) => distruct_texts(d),
        Block::Init(i) => init_block_texts(i),
    }
}

pub open spec fn distruct_texts<'s>(d: BlockDistruct<'s>) -> Seq<Seq<char>>
    decreases d,
{
    match d {
        BlockDistruct::Init(i) => init_distruct_texts(i),
        BlockDistruct::Call(c) => seq![c.name.0.source@, c.dist.0.source@],
    }
}

pub open spec fn init_distruct_texts<'s>(d: InitBlockDistruct<'s>) -> Seq<Seq<char>>
    decreases d,
{
    named_texts(d.named_block) + seq![d.distr.0.source@]
}

pub open spec fn init_block_texts<'s>(i: InitBlock<'s>) -> Seq<Seq<char>>
    decreases i,
{
    match i {
        InitBlock::Named(n) => named_texts(n),
        InitBlock::Unnamed(u) => unnamed_texts(u),
    }
}

pub open spec fn named_texts<'s>(n: NamedBlock<'s>) -> Seq<Seq<char>>
    decreases n,
{
    seq![n.name.0.source@] + unnamed_texts(n.block)
}

pub open spec fn unnamed_texts<'s>(u: UnnamedBlock<'s>) -> Seq<Seq<char>>
    decreases u,
{
    items_texts(u.items)
}

pub open spec fn items_texts<'s>(it: Items<'s>) -> Seq<Seq<char>>
    decreases it,
{
    items_seq_texts(it.0@)
}

/// The texts of the items of `s`, one after another.
pub open spec fn items_seq_texts<'s>(s: Seq<Item<'s>>) -> Seq<Seq<char>>
    decreases s,
{
    if s.len() == 0 {
        Seq::empty()
    } else {
        items_seq_texts(s.drop_last()) + item_texts(s.last())
    }
}

/// `a` holds copies of the items of `b`: the same models and the same texts, one for one.
pub open spec fn copies<'s>(a: Seq<Item<'s>>, b: Seq<Item<'s>>) -> bool {
    &&& a.len() == b.len()
    &&& forall|k: int|
        0 <= k < a.len() ==> item_view(#[trigger] a[k]) == item_view(b[k]) && item_texts(a[k])
            == item_texts(b[k])
}

} // verus!
