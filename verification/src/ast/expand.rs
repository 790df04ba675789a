use super::name_resolve::{refs_view, span, Refs};
use crate::items::item::block::distruct::BlockDistruct;
use crate::items::item::block::init::InitBlock;
use crate::items::item::block::Block;
use crate::items::item::{item_view, Item};
use crate::items::texts::{copies, item_texts};
use crate::items::Items;
use crate::slice::Slicable;
use vstd::prelude::*;

verus! {

/// The target recorded most recently in `refs` for the item at `at`, if any.
pub open spec fn target<'s>(refs: Seq<((int, int), Item<'s>)>, at: (int, int)) -> Option<Item<'s>>
    decreases refs.len(),
{
    if refs.len() == 0 {
        None
    } else if refs.last().0 == at {
        Some(refs.last().1)
    } else {
        target(refs.drop_last(), at)
    }
}

/// The items `s` expanded: every block written out is replaced by its items and every call that
/// `refs` resolves to a named block by the items of that block, each expanded in turn; other
/// calls and named blocks that are not spread are left out, and the other items are kept as
/// they are. At most `budget` calls are followed one inside another; `None` when more would be.
pub open spec fn expansion<'s>(s: Seq<Item<'s>>, refs: Seq<((int, int), Item<'s>)>, budget: nat) -> Option<Seq<Item<'s>>>
    decreases budget, s, 1int,
{
    if s.len() == 0 {
        Some(Seq::empty())
    } else {
        match (expansion(s.drop_last(), refs, budget), expand_one(s.last(), refs, budget)) {
            (Some(a), Some(b)) => Some(a + b),
            _ => None,
        }
    }
}

/// The items that one item expands to.
pub open spec fn expand_one<'s>(item: Item<'s>, refs: Seq<((int, int), Item<'s>)>, budget: nat) -> Option<Seq<Item<'s>>>
    decreases budget, item, 0int,
{
    match item {
        Item::Block(Block::Init(InitBlock::Unnamed(u))) => expansion(u.items.0@, refs, budget),
        Item::Block(Block::Init(InitBlock::Named(_))) => Some(Seq::empty()),
        Item::Block(Block::Distruct(BlockDistruct::Init(d))) => expansion(
            d.named_block.block.items.0@,
            refs,
            budget,
        ),
        Item::Block(Block::Distruct(BlockDistruct::Call(_))) => match target(refs, span(item)) {
            Some(Item::Block(Block::Init(InitBlock::Named(n)))) => if budget == 0 {
                None
            } else {
                expansion(n.block.items.0@, refs, (budget - 1) as nat)
            },
            Some(Item::Block(Block::Distruct(BlockDistruct::Init(d)))) => if budget == 0 {
                None
            } else {
                expansion(d.named_block.block.items.0@, refs, (budget - 1) as nat)
            },
            _ => Some(Seq::empty()),
        },
        _ => Some(seq![item]),
    }
}

/// The target recorded most recently in `refs` for the item at `at`, if any.
fn find_target<'s, 'i>(refs: &Refs<'s, 'i>, at: (usize, usize)) -> (r: Option<&'i Item<'s>>)
    ensures
        match r {
            Some(t) => target(refs_view(refs@), (at.0 as int, at.1 as int)) == Some(*t),
            None => target(refs_view(refs@), (at.0 as int, at.1 as int)) is None,
        },
{
    let ghost all = refs_view(refs@);
    let ghost key = (at.0 as int, at.1 as int);
    assert(all.take(refs@.len() as int) =~= all);
    let mut j = refs.len();
    while j > 0
        invariant
            j <= refs@.len(),
            all == refs_view(refs@),
            key == (at.0 as int, at.1 as int),
            target(all, key) == target(all.take(j as int), key),
        decreases j,
    {
        let (k, t) = refs[j - 1];
        assert(all.take(j as int).last() == ((k.0 as int, k.1 as int), *t));
        if k.0 == at.0 && k.1 == at.1 {
            assert(all.take(j as int).last().0 == key);
            assert(target(all.take(j as int), key) == Some(*t));
            return Some(t);
        }
        assert(all.take(j as int).last().0 != key);
        assert(all.take(j as int).drop_last() =~= all.take(j - 1));
        j = j - 1;
    }
    None
}

/// The items of `items` expanded, following at most `budget` calls one inside another; `None`
/// when more would be followed.
fn expand_within<'s, 'i>(items: &'i Items<'s>, refs: &Refs<'s, 'i>, budget: usize) -> (r: Option<Items<'s>>)
    ensures
        r is Some == expansion(items.0@, refs_view(refs@), budget as nat) is Some,
        r matches Some(x) ==> copies(x.0@, expansion(items.0@, refs_view(refs@), budget as nat).unwrap()),
    decreases budget, items,
{
    let ghost rv = refs_view(refs@);
    let ghost b = budget as nat;
    let mut new_items: Vec<Item<'s>> = Vec::new();
    let mut k: usize = 0;
    assert(items.0@.take(0) =~= Seq::<Item<'s>>::empty());
    while k < items.0.len()
        invariant
            k <= items.0@.len(),
            rv == refs_view(refs@),
            b == budget as nat,
            expansion(items.0@.take(k as int), rv, b) is Some,
            copies(new_items@, expansion(items.0@.take(k as int), rv, b).unwrap()),
        decreases items.0@.len() - k,
    {
        let item: &'i Item<'s> = &items.0[k];
        let ghost taken = items.0@.take(k + 1);
        assert(taken.drop_last() =~= items.0@.take(k as int));
        assert(taken.last() == *item);
        let more: Option<Vec<Item<'s>>> = match item {
            Item::Block(Block::Init(InitBlock::Unnamed(u))) => match expand_within(&u.items, refs, budget) {
                Some(x) => Some(x.0),
                None => None,
            },
            Item::Block(Block::Init(InitBlock::Named(_))) => Some(Vec::new()),
            Item::Block(Block::Distruct(BlockDistruct::Init(d))) => match expand_within(
                &d.named_block.block.items,
                refs,
                budget,
            ) {
                Some(x) => Some(x.0),
                None => None,
            },
            Item::Block(Block::Distruct(BlockDistruct::Call(_))) => {
                match find_target(refs, (item.get_start(), item.get_end())) {
                    Some(Item::Block(Block::Init(InitBlock::Named(n)))) => if budget == 0 {
                        None
                    } else {
                        match expand_within(&n.block.items, refs, budget - 1) {
                            Some(x) => Some(x.0),
                            None => None,
                        }
                    },
                    Some(Item::Block(Block::Distruct(BlockDistruct::Init(d)))) => if budget == 0 {
                        None
                    } else {
                        match expand_within(&d.named_block.block.items, refs, budget - 1) {
                            Some(x) => Some(x.0),
                            None => None,
                        }
                    },
                    _ => Some(Vec::new()),
                }
            },
            _ => {
                let mut one: Vec<Item<'s>> = Vec::new();
                one.push(item.duplicate());
                assert(one@[0] == one@.last());
                assert(copies(one@, seq![*item]));
                Some(one)
            },
        };
        match more {
            Some(mut more) => {
                assert(expand_one(*item, rv, b) is Some);
                assert(copies(more@, expand_one(*item, rv, b).unwrap()));
                proof {
                    lemma_copies_append(
                        new_items@,
                        more@,
                        expansion(items.0@.take(k as int), rv, b).unwrap(),
                        expand_one(*item, rv, b).unwrap(),
                    );
                }
                new_items.append(&mut more);
            },
            None => {
                assert(expand_one(*item, rv, b) is None);
                assert(expansion(taken, rv, b) is None);
                proof {
                    if expansion(items.0@, rv, b) is Some {
                        lemma_expansion_prefix(items.0@, rv, b, k + 1);
                    }
                }
                return None;
            },
        }
        k = k + 1;
    }
    assert(items.0@.take(items.0@.len() as int) =~= items.0@);
    Some(Items(new_items))
}

/// A prefix of a list that expands within the budget expands within it too.
proof fn lemma_expansion_prefix<'s>(s: Seq<Item<'s>>, refs: Seq<((int, int), Item<'s>)>, budget: nat, n: int)
    requires
        0 <= n <= s.len(),
        expansion(s, refs, budget) is Some,
    ensures
        expansion(s.take(n), refs, budget) is Some,
    decreases s.len(),
{
    if n < s.len() {
        assert(s.drop_last().take(n) =~= s.take(n));
        lemma_expansion_prefix(s.drop_last(), refs, budget, n);
    } else {
        assert(s.take(n) =~= s);
    }
}

/// Copies of two lists, one after the other, are copies of the lists joined.
proof fn lemma_copies_append<'s>(a: Seq<Item<'s>>, b: Seq<Item<'s>>, c: Seq<Item<'s>>, d: Seq<Item<'s>>)
    requires
        copies(a, c),
        copies(b, d),
    ensures
        copies(a + b, c + d),
{
    assert forall|k: int| 0 <= k < (a + b).len() implies item_view(#[trigger] (a + b)[k])
        == item_view((c + d)[k]) && item_texts((a + b)[k]) == item_texts((c + d)[k]) by {
        if k < a.len() {
            assert((a + b)[k] == a[k]);
            assert((c + d)[k] == c[k]);
        } else {
            assert((a + b)[k] == b[k - a.len()]);
            assert((c + d)[k] == d[k - a.len()]);
        }
    }
}

/// Nothing that expanding gives is a block: every block written out is opened or dropped, and
/// every call is replaced by the items of what it refers to, or dropped.
pub proof fn law_expansion_has_no_blocks<'s>(s: Seq<Item<'s>>, refs: Seq<((int, int), Item<'s>)>, budget: nat)
    ensures
        expansion(s, refs, budget) matches Some(x) ==> forall|i: int| 0 <= i < x.len() ==> !(#[trigger] x[i] is Block),
    decreases budget, s, 1int,
{
    if s.len() > 0 {
        law_expansion_has_no_blocks(s.drop_last(), refs, budget);
        lemma_expand_one_has_no_blocks(s.last(), refs, budget);
        if expansion(s, refs, budget) is Some {
            let a = expansion(s.drop_last(), refs, budget).unwrap();
            let b = expand_one(s.last(), refs, budget).unwrap();
            assert forall|i: int| 0 <= i < (a + b).len() implies !(#[trigger] (a + b)[i] is Block) by {
                if i < a.len() {
                    assert((a + b)[i] == a[i]);
                } else {
                    assert((a + b)[i] == b[i - a.len()]);
                }
            }
        }
    }
}

/// Expanding two lists one after the other gives their expansions one after the other, and
/// nothing when either gives nothing.
pub proof fn law_expansion_of_joined_lists<'s>(a: Seq<Item<'s>>, b: Seq<Item<'s>>, refs: Seq<((int, int), Item<'s>)>, budget: nat)
    ensures
        expansion(a + b, refs, budget) == match (expansion(a, refs, budget), expansion(b, refs, budget)) {
            (Some(x), Some(y)) => Some(x + y),
            _ => None::<Seq<Item<'s>>>,
        },
    decreases b.len(),
{
    if b.len() == 0 {
        assert(a + b =~= a);
        if expansion(a, refs, budget) is Some {
            assert(expansion(a, refs, budget).unwrap() + Seq::<Item<'s>>::empty() =~= expansion(a, refs, budget).unwrap());
        }
    } else {
        assert((a + b).drop_last() =~= a + b.drop_last());
        assert((a + b).last() == b.last());
        law_expansion_of_joined_lists(a, b.drop_last(), refs, budget);
        let ea = expansion(a, refs, budget);
        let eb = expansion(b.drop_last(), refs, budget);
        let e1 = expand_one(b.last(), refs, budget);
        if ea is Some && eb is Some && e1 is Some {
            assert(ea.unwrap() + eb.unwrap() + e1.unwrap() =~= ea.unwrap() + (eb.unwrap() + e1.unwrap()));
        }
    }
}

/// What one item expands to holds no block.
proof fn lemma_expand_one_has_no_blocks<'s>(item: Item<'s>, refs: Seq<((int, int), Item<'s>)>, budget: nat)
    ensures
        expand_one(item, refs, budget) matches Some(x) ==> forall|i: int| 0 <= i < x.len() ==> !(#[trigger] x[i] is Block),
    decreases budget, item, 0int,
{
    match item {
        Item::Block(Block::Init(InitBlock::Unnamed(u))) => {
            law_expansion_has_no_blocks(u.items.0@, refs, budget);
        },
        Item::Block(Block::Init(InitBlock::Named(_))) => {},
        Item::Block(Block::Distruct(BlockDistruct::Init(d))) => {
            law_expansion_has_no_blocks(d.named_block.block.items.0@, refs, budget);
        },
        Item::Block(Block::Distruct(BlockDistruct::Call(_))) => {
            match target(refs, span(item)) {
                Some(Item::Block(Block::Init(InitBlock::Named(n)))) => if budget > 0 {
                    law_expansion_has_no_blocks(n.block.items.0@, refs, (budget - 1) as nat);
                },
                Some(Item::Block(Block::Distruct(BlockDistruct::Init(d)))) => if budget > 0 {
                    law_expansion_has_no_blocks(d.named_block.block.items.0@, refs, (budget - 1) as nat);
                },
                _ => {},
            }
        },
        _ => {},
    }
}

/// A list that is a single unnamed block expands as the items of the block do: the block is
/// opened and what it holds expanded in turn.
pub proof fn law_unnamed_block_opens<'s>(s: Seq<Item<'s>>, refs: Seq<((int, int), Item<'s>)>, budget: nat)
    requires
        s.len() == 1,
        s[0] matches Item::Block(Block::Init(InitBlock::Unnamed(_))),
    ensures
        s[0] matches Item::Block(Block::Init(InitBlock::Unnamed(u))) && expansion(s, refs, budget)
            == expansion(u.items.0@, refs, budget),
{
    assert(s.drop_last() =~= Seq::<Item<'s>>::empty());
    assert(s.last() == s[0]);
    if let Item::Block(Block::Init(InitBlock::Unnamed(u))) = s[0] {
        assert(expansion(s.drop_last(), refs, budget) == Some(Seq::<Item<'s>>::empty()));
        assert(expand_one(s.last(), refs, budget) == expansion(u.items.0@, refs, budget));
        if expansion(u.items.0@, refs, budget) is Some {
            let x = expansion(u.items.0@, refs, budget).unwrap();
            assert(Seq::<Item<'s>>::empty() + x =~= x);
        }
    }
}

/// Expanding a list in which no item is a block keeps it as it is, whatever the references.
pub proof fn law_expand_keeps_plain_items<'s>(s: Seq<Item<'s>>, refs: Seq<((int, int), Item<'s>)>, budget: nat)
    requires
        forall|i: int| 0 <= i < s.len() ==> !(#[trigger] s[i] is Block),
    ensures
        expansion(s, refs, budget) == Some(s),
    decreases s.len(),
{
    if s.len() > 0 {
        assert forall|i: int| 0 <= i < s.drop_last().len() implies !(#[trigger] s.drop_last()[i] is Block) by {
            assert(s.drop_last()[i] == s[i]);
        }
        law_expand_keeps_plain_items(s.drop_last(), refs, budget);
        let last = s.last();
        assert(!(last is Block));
        assert(expand_one(last, refs, budget) == Some(seq![last]));
        assert(s.drop_last() + seq![last] =~= s);
    }
}

/// The items of `items` expanded along the references `refs`: every block written out is
/// replaced by its items and every call that `refs` resolves to a named block by the items of
/// that block, each expanded in turn. The calls followed must not lead back to themselves.
pub fn expand<'s, 'i>(items: &'i Items<'s>, refs: &Refs<'s, 'i>) -> (r: Items<'s>)
    requires
        expansion(items.0@, refs_view(refs@), refs@.len() as nat) is Some,
    ensures
        copies(r.0@, expansion(items.0@, refs_view(refs@), refs@.len() as nat).unwrap()),
{
    expand_within(items, refs, refs.len()).unwrap()
}

/// Expands `items` as `expand` does when the calls followed do not lead back to themselves, and
/// `None` when they do.
pub fn try_expand<'s, 'i>(items: &'i Items<'s>, refs: &Refs<'s, 'i>) -> (r: Option<Items<'s>>)
    ensures
        r is Some == expansion(items.0@, refs_view(refs@), refs@.len() as nat) is Some,
        r matches Some(x) ==> copies(x.0@, expansion(items.0@, refs_view(refs@), refs@.len() as nat).unwrap()),
{
    expand_within(items, refs, refs.len())
}

} // verus!
