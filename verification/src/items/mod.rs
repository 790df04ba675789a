pub mod item;
pub mod render;
pub mod shared;
pub mod terminal;
pub mod texts;

use crate::code::{fuel, Code};
use crate::diag::{lemma_merge_assoc, Diags, DiagsView};
use crate::slice::Slicable;
use core::ops::RangeInclusive;
use item::{item_view, item_wf, law_item_starts_after_blanks, spec_item, Item, ItemDiag, ItemV};
use crate::code::lemma_skip_ignored_ge;
use vstd::prelude::*;

verus! {

/// A list of items, in the order they stand in the code.
#[derive(PartialEq, Debug, Eq, Hash)]
pub struct Items<'s>(pub Vec<Item<'s>>);

/// The models of the items of `s`, in order.
pub open spec fn items_seq_view<'s>(s: Seq<Item<'s>>) -> Seq<ItemV>
    decreases s,
{
    if s.len() == 0 {
        Seq::empty()
    } else {
        items_seq_view(s.drop_last()).push(item_view(s.last()))
    }
}

pub open spec fn items_view<'s>(it: Items<'s>) -> Seq<ItemV>
    decreases it,
{
    items_seq_view(it.0@)
}

/// Every item of `s` holds the text it covers.
pub open spec fn items_seq_wf<'s>(s: Seq<Item<'s>>, chars: Seq<char>) -> bool
    decreases s,
{
    s.len() == 0 || (items_seq_wf(s.drop_last(), chars) && item_wf(s.last(), chars))
}

pub open spec fn items_wf<'s>(it: Items<'s>, chars: Seq<char>) -> bool
    decreases it,
{
    items_seq_wf(it.0@, chars)
}

pub proof fn lemma_items_seq_view_len<'s>(s: Seq<Item<'s>>)
    ensures
        items_seq_view(s).len() == s.len(),
        forall|k: int| 0 <= k < s.len() ==> #[trigger] items_seq_view(s)[k] == item_view(s[k]),
    decreases s.len(),
{
    if s.len() > 0 {
        lemma_items_seq_view_len(s.drop_last());
    }
}

/// The items recognized one after another from `pos`: where no item is recognized, the
/// diagnostics raised are kept and the next position is tried, up to the last position of the
/// code.
pub open spec fn spec_items_from(chars: Seq<char>, pos: int) -> (Seq<ItemV>, DiagsView<ItemDiag>)
    decreases fuel(chars, pos), 8int,
{
    let (item, diags) = spec_item(chars, pos);
    match item {
        Some(v) => {
            let next = v.end() + 1;
            if pos < next && next < chars.len() - 1 {
                let rest = spec_items_from(chars, next);
                (seq![v] + rest.0, rest.1)
            } else {
                (seq![v], DiagsView::empty())
            }
        },
        None => {
            if pos >= chars.len() - 1 {
                (Seq::empty(), DiagsView::empty())
            } else if pos + 1 >= chars.len() - 1 {
                (Seq::empty(), diags)
            } else {
                let rest = spec_items_from(chars, pos + 1);
                (rest.0, diags.merge(rest.1))
            }
        },
    }
}

/// Whether `c` is at or past the last position of code of length `len`.
fn at_last(c: usize, len: usize) -> (r: bool)
    ensures
        r == (c >= len - 1),
{
    c >= len || c + 1 >= len
}

impl<'s> Items<'s> {
    /// A copy of the items.
    pub fn duplicate(&self) -> (r: Self)
        ensures
            items_view(r) == items_view(*self),
            crate::items::texts::items_texts(r) == crate::items::texts::items_texts(*self),
        decreases self,
    {
        let mut copies: Vec<Item<'s>> = Vec::new();
        let mut k: usize = 0;
        while k < self.0.len()
            invariant
                k <= self.0@.len(),
                items_seq_view(copies@) == items_seq_view(self.0@.take(k as int)),
                crate::items::texts::items_seq_texts(copies@) == crate::items::texts::items_seq_texts(self.0@.take(k as int)),
            decreases self.0@.len() - k,
        {
            let copy = self.0[k].duplicate();
            let ghost before = copies@;
            copies.push(copy);
            assert(copies@.drop_last() =~= before);
            assert(self.0@.take(k + 1).drop_last() =~= self.0@.take(k as int));
            k = k + 1;
        }
        assert(self.0@.take(self.0@.len() as int) =~= self.0@);
        Items(copies)
    }

    /// Recognizes the items of `code` from `pos` on, and adds the diagnostics raised where no
    /// item was recognized to `diags`.
    #[verifier::rlimit(50)]
    pub fn parse_from(code: &Code<'s>, pos: usize, diags: &mut Diags<ItemDiag>) -> (r: Self)
        requires
            code.wf(),
            old(diags)@.wf(),
        ensures
            items_view(r) == spec_items_from(code.chars@, pos as int).0,
            items_wf(r, code.chars@),
            r.0@.len() > 0 ==> pos <= item_view(r.0@.last()).end() < code.chars@.len(),
            forall|i: int, j: int|
                0 <= i < j < items_view(r).len() ==> #[trigger] items_view(r)[i].end()
                    < #[trigger] items_view(r)[j].end(),
            forall|i: int, j: int|
                0 <= i < j < items_view(r).len() ==> #[trigger] items_view(r)[i].end()
                    < #[trigger] items_view(r)[j].start(),
            spec_items_from(code.chars@, pos as int).1.wf(),
            final(diags)@ == old(diags)@.merge(spec_items_from(code.chars@, pos as int).1),
            final(diags).warrnings == old(diags).warrnings,
        decreases fuel(code.chars@, pos as int), 8int,
    {
        let ghost chars = code.chars@;
        let ghost full = spec_items_from(chars, pos as int);
        let ghost start = old(diags)@;
        let ghost w = old(diags).warrnings;
        let mut items: Vec<Item<'s>> = Vec::new();
        let mut c = pos;
        loop
            invariant_except_break
                items_seq_view(items@) + spec_items_from(chars, c as int).0 == full.0,
                start.merge(full.1) == diags@.merge(spec_items_from(chars, c as int).1),
                spec_items_from(chars, c as int).1.wf() ==> full.1.wf(),
            invariant
                code.wf(),
                chars == code.chars@,
                full == spec_items_from(chars, pos as int),
                pos <= c,
                diags@.wf(),
                diags.warrnings == w,
                start.wf(),
                items_seq_wf(items@, chars),
                items@.len() > 0 ==> pos <= item_view(items@.last()).end() < chars.len(),
                forall|i: int| 0 <= i < items@.len() ==> #[trigger] item_view(items@[i]).end() < c,
                forall|i: int, j: int|
                    0 <= i < j < items@.len() ==> #[trigger] item_view(items@[i]).end()
                        < #[trigger] item_view(items@[j]).end(),
                forall|i: int, j: int|
                    0 <= i < j < items@.len() ==> #[trigger] item_view(items@[i]).end()
                        < #[trigger] item_view(items@[j]).start(),
            ensures
                items_seq_view(items@) == full.0,
                start.merge(full.1) == diags@,
                full.1.wf(),
            decreases chars.len() - c,
        {
            let ghost here = spec_items_from(chars, c as int);
            let mut item_diags: Diags<ItemDiag> = Diags::default();
            match Item::recognize(code, c, &mut item_diags) {
                Some(item) => {
                    proof {
                        law_item_starts_after_blanks(chars, c as int);
                        lemma_skip_ignored_ge(chars, c as int);
                    }
                    let end = item.get_end();
                    let ghost before = items@;
                    items.push(item);
                    assert(items@.drop_last() =~= before);
                    c = end + 1;
                    if at_last(c, code.len()) {
                        assert(items_seq_view(items@) =~= full.0);
                        break;
                    }
                    assert(items_seq_view(items@) + spec_items_from(chars, c as int).0 =~= full.0);
                },
                None => {
                    if at_last(c, code.len()) {
                        assert(items_seq_view(items@) =~= full.0);
                        break;
                    }
                    c = c + 1;
                    let ghost before = diags@;
                    diags.merge_in(item_diags);
                    proof {
                        lemma_merge_assoc(before, spec_item(chars, c - 1).1, spec_items_from(chars, c as int).1);
                    }
                    if at_last(c, code.len()) {
                        assert(items_seq_view(items@) =~= full.0);
                        break;
                    }
                },
            }
        }
        proof {
            lemma_items_seq_view_len(items@);
        }
        Items(items)
    }

    /// Recognizes the items of `code` from its cursor on, and adds the diagnostics raised where
    /// no item was recognized to `diags`. The code must not be empty.
    pub fn parse(code: &Code<'s>, diags: &mut Diags<ItemDiag>) -> (r: Option<Self>)
        requires
            code.wf(),
            code.chars@.len() > 0,
            old(diags)@.wf(),
        ensures
            r is Some,
            r matches Some(v) ==> {
                &&& items_view(v) == spec_items_from(code.chars@, code.cursor as int).0
                &&& items_wf(v, code.chars@)
            },
            final(diags)@ == old(diags)@.merge(spec_items_from(code.chars@, code.cursor as int).1),
            final(diags).warrnings == old(diags).warrnings,
    {
        Some(Self::parse_from(code, code.cursor, diags))
    }

    /// The positions from the start of the first item to the end of the last one.
    pub fn get_slice(&self) -> (r: RangeInclusive<usize>)
        requires
            self.0@.len() > 0,
        ensures
            r@.start == items_view(*self)[0].start(),
            r@.end == items_view(*self).last().end(),
    {
        proof {
            lemma_items_seq_view_len(self.0@);
        }
        let n = self.0.len();
        RangeInclusive::new(self.0[0].get_start(), self.0[n - 1].get_end())
    }
}

impl<'s> View for Items<'s> {
    type V = Seq<ItemV>;

    open spec fn view(&self) -> Seq<ItemV> {
        items_view(*self)
    }
}

} // verus!
