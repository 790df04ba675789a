use crate::code::{fuel, lemma_skip_ignored_ge, skip_ignored, Code};
use crate::diag::{Diags, DiagsView};
use crate::items::item::{Item, ItemDiag, ItemV};
use crate::items::{
    items_seq_view, items_view, items_wf, lemma_items_seq_view_len, spec_items_from, Items,
};
use crate::parse::{DiagParse, Parse};
use crate::slice::Slicable;
use core::ops::RangeInclusive;
use vstd::prelude::*;

verus! {

/// `{ items }`: a block without a name.
#[derive(PartialEq, Debug, Eq, Hash)]
pub struct UnnamedBlock<'s> {
    pub items: Items<'s>,
    pub open_bracket_pos: usize,
    pub close_bracket_pos: usize,
}

#[derive(PartialEq, Debug, Clone, Copy, Eq, Hash)]
pub enum UnnamedBlockDiag {
    /// No `{` where the block should start.
    StartsOpenBracket,
    /// No `}` after the items of the block.
    EndsOpenBracket,
}

/// Model of an unnamed block: the models of its items and the positions of its brackets.
pub struct UnnamedBlockV {
    pub items: Seq<ItemV>,
    pub open: int,
    pub close: int,
}

pub open spec fn unnamed_view<'s>(u: UnnamedBlock<'s>) -> UnnamedBlockV
    decreases u,
{
    UnnamedBlockV {
        items: items_view(u.items),
        open: u.open_bracket_pos as int,
        close: u.close_bracket_pos as int,
    }
}

/// The items hold the text they cover and the brackets lie in order inside the code.
pub open spec fn unnamed_wf<'s>(u: UnnamedBlock<'s>, chars: Seq<char>) -> bool
    decreases u,
{
    &&& items_wf(u.items, chars)
    &&& u.open_bracket_pos < u.close_bracket_pos < chars.len()
}

/// After the ignored characters at `pos`, a `{`, the items after it, and after ignored
/// characters a `}`. The diagnostics of the items are not kept.
pub open spec fn spec_unnamed_block(chars: Seq<char>, pos: int) -> (
    Option<UnnamedBlockV>,
    DiagsView<UnnamedBlockDiag>,
)
    decreases fuel(chars, pos), 2int,
{
    let open = skip_ignored(chars, pos);
    if open >= chars.len() {
        (None, DiagsView::empty())
    } else if chars[open] != '{' {
        (None, DiagsView::single(open, UnnamedBlockDiag::StartsOpenBracket))
    } else {
        proof {
            lemma_skip_ignored_ge(chars, pos);
        }
        let items = spec_items_from(chars, open + 1).0;
        let after = if items.len() > 0 {
            items.last().end() + 1
        } else {
            open + 1
        };
        let close = skip_ignored(chars, after);
        if close >= chars.len() {
            (None, DiagsView::single(chars.len() - 1, UnnamedBlockDiag::EndsOpenBracket))
        } else if chars[close] != '}' {
            (None, DiagsView::single(close, UnnamedBlockDiag::EndsOpenBracket))
        } else {
            (Some(UnnamedBlockV { items, open, close }), DiagsView::empty())
        }
    }
}

impl UnnamedBlockV {
    pub open spec fn start(self) -> int {
        self.open
    }

    pub open spec fn end(self) -> int {
        self.close
    }
}

impl<'s> UnnamedBlock<'s> {
    /// A copy of the block.
    pub fn duplicate(&self) -> (r: Self)
        ensures
            unnamed_view(r) == unnamed_view(*self),
            crate::items::texts::unnamed_texts(r) == crate::items::texts::unnamed_texts(*self),
        decreases self,
    {
        UnnamedBlock {
            items: self.items.duplicate(),
            open_bracket_pos: self.open_bracket_pos,
            close_bracket_pos: self.close_bracket_pos,
        }
    }

    /// The block with `items` between brackets at `brackets[0]` and `brackets[1]`.
    pub fn new(items: Vec<Item<'s>>, brackets: [usize; 2]) -> (r: Self)
        ensures
            r.items.0@ == items@,
            r.open_bracket_pos == brackets[0],
            r.close_bracket_pos == brackets[1],
    {
        UnnamedBlock {
            items: Items(items),
            open_bracket_pos: brackets[0],
            close_bracket_pos: brackets[1],
        }
    }

    /// Recognizes an unnamed block at `pos` of `code`, and adds the diagnostics raised to
    /// `diags`.
    pub fn recognize(code: &Code<'s>, pos: usize, diags: &mut Diags<UnnamedBlockDiag>) -> (r:
        Option<Self>)
        requires
            code.wf(),
            old(diags)@.wf(),
        ensures
            r is Some == spec_unnamed_block(code.chars@, pos as int).0 is Some,
            r matches Some(v) ==> {
                &&& unnamed_view(v) == spec_unnamed_block(code.chars@, pos as int).0.unwrap()
                &&& unnamed_wf(v, code.chars@)
                &&& pos <= v.close_bracket_pos
            },
            spec_unnamed_block(code.chars@, pos as int).1.wf(),
            final(diags)@ == old(diags)@.merge(spec_unnamed_block(code.chars@, pos as int).1),
            final(diags).warrnings == old(diags).warrnings,
        decreases fuel(code.chars@, pos as int), 2int,
    {
        proof {
            lemma_skip_ignored_ge(code.chars@, pos as int);
        }
        let open = code.skip_ignored_from(pos);
        if open >= code.len() {
            return None;
        }
        if code.get_char(open) != '{' {
            diags.extend_one((open, UnnamedBlockDiag::StartsOpenBracket));
            return None;
        }
        let mut item_diags: Diags<ItemDiag> = Diags::default();
        let items = Items::parse_from(code, open + 1, &mut item_diags);
        let n = items.0.len();
        proof {
            lemma_items_seq_view_len(items.0@);
        }
        let after = if n > 0 {
            items.0[n - 1].get_end() + 1
        } else {
            open + 1
        };
        proof {
            lemma_skip_ignored_ge(code.chars@, after as int);
        }
        let close = code.skip_ignored_from(after);
        if close >= code.len() {
            diags.extend_one((code.len() - 1, UnnamedBlockDiag::EndsOpenBracket));
            return None;
        }
        if code.get_char(close) != '}' {
            diags.extend_one((close, UnnamedBlockDiag::EndsOpenBracket));
            return None;
        }
        Some(UnnamedBlock { items, open_bracket_pos: open, close_bracket_pos: close })
    }
}

impl<'s> View for UnnamedBlock<'s> {
    type V = UnnamedBlockV;

    open spec fn view(&self) -> UnnamedBlockV {
        unnamed_view(*self)
    }
}

impl<'s> Slicable for UnnamedBlock<'s> {
    open spec fn spec_start(&self) -> int {
        self.open_bracket_pos as int
    }

    open spec fn spec_end(&self) -> int {
        self.close_bracket_pos as int
    }

    fn get_slice(&self) -> (r: RangeInclusive<usize>) {
        let r = RangeInclusive::new(self.open_bracket_pos, self.close_bracket_pos);
        assert(r@.start == self.spec_start());
        assert(r@.end == self.spec_end());
        r
    }
}

impl<'s> Parse<'s> for UnnamedBlock<'s> {
    type Diag = UnnamedBlockDiag;

    open spec fn spec_parse(chars: Seq<char>, pos: int) -> (
        Option<UnnamedBlockV>,
        DiagsView<UnnamedBlockDiag>,
    ) {
        spec_unnamed_block(chars, pos)
    }

    open spec fn wf_in(&self, chars: Seq<char>) -> bool {
        unnamed_wf(*self, chars)
    }

    fn parse_at(code: &Code<'s>, pos: usize, diags: &mut Diags<UnnamedBlockDiag>) -> (r: Option<
        Self,
    >) {
        Self::recognize(code, pos, diags)
    }
}

impl<'s> DiagParse<'s> for UnnamedBlock<'s> {

}

} // verus!
