use crate::code::{is_decimal_digit, scan_while, skip_ignored, Code, char_is_decimal_digit};
use crate::diag::{Diags, DiagsView};
use crate::parse::{DiagParse, Parse};
use crate::slice::{slice_text, sliceable, Slicable, Slice};
use crate::std_facts::{alphabetic, char_is_alphabetic};
use core::ops::RangeInclusive;
use vstd::prelude::*;

verus! {

/// A name: a letter or `_`, then letters, `_` and digits.
#[derive(PartialEq, Debug, Eq, Hash)]
pub struct Ident<'s>(pub Slice<'s>);

#[derive(PartialEq, Debug, Clone, Copy, Eq, Hash)]
pub enum IdentDiag {
    /// The name starts with something other than a letter or `_`.
    StartsWithNotNumber,
}

/// A character a name may start with.
pub open spec fn ident_start(c: char) -> bool {
    alphabetic(c) || c == '_'
}

/// A character a name may go on with.
pub open spec fn ident_continue(c: char) -> bool {
    ident_start(c) || is_decimal_digit(c)
}

pub fn char_ident_start(c: char) -> (r: bool)
    ensures
        r == ident_start(c),
{
    char_is_alphabetic(c) || c == '_'
}

pub fn char_ident_continue(c: char) -> (r: bool)
    ensures
        r == ident_continue(c),
{
    char_ident_start(c) || char_is_decimal_digit(c)
}

/// The first position at or after `k` that does not hold a name character.
pub open spec fn scan_ident(chars: Seq<char>, k: int) -> int {
    scan_while(chars, k, |c: char| ident_continue(c))
}

impl<'s> View for Ident<'s> {
    type V = (int, int);

    open spec fn view(&self) -> (int, int) {
        self.0@
    }
}

impl<'s> Slicable for Ident<'s> {
    open spec fn spec_start(&self) -> int {
        self.0@.0
    }

    open spec fn spec_end(&self) -> int {
        self.0@.1
    }

    fn get_slice(&self) -> (r: RangeInclusive<usize>) {
        let r = self.0.get_slice();
        assert(r@.start == self.spec_start());
        assert(r@.end == self.spec_end());
        r
    }
}

impl<'s> Ident<'s> {
    /// A copy of the name.
    pub fn duplicate(&self) -> (r: Self)
        ensures
            r@ == self@,
            r.0.source == self.0.source,
    {
        Ident(self.0.duplicate())
    }

    pub fn new(range: RangeInclusive<usize>, code: &Code<'s>) -> (r: Self)
        requires
            sliceable(code, range),
        ensures
            r@ == (range@.start as int, range@.end as int),
            r.0.source@ == slice_text(code, range),
            range@.start <= range@.end < code.chars@.len() ==> r.0.wf_in(code.chars@),
    {
        Ident(Slice::new(range, code))
    }
}

impl<'s> Parse<'s> for Ident<'s> {
    type Diag = IdentDiag;

    /// After the ignored characters at `pos`, a letter or `_` and all the name characters that
    /// follow it.
    open spec fn spec_parse(chars: Seq<char>, pos: int) -> (Option<(int, int)>, DiagsView<IdentDiag>) {
        let start = skip_ignored(chars, pos);
        if start >= chars.len() {
            (None, DiagsView::empty())
        } else if !ident_start(chars[start]) {
            (None, DiagsView::single(start, IdentDiag::StartsWithNotNumber))
        } else {
            (Some((start, scan_ident(chars, start + 1) - 1)), DiagsView::empty())
        }
    }

    open spec fn wf_in(&self, chars: Seq<char>) -> bool {
        self.0.wf_in(chars)
    }

    fn parse_at(code: &Code<'s>, pos: usize, diags: &mut Diags<IdentDiag>) -> (r: Option<Self>) {
        let start = code.skip_ignored_from(pos);
        if start >= code.len() {
            return None;
        }
        if !char_ident_start(code.get_char(start)) {
            diags.extend_one((start, IdentDiag::StartsWithNotNumber));
            return None;
        }
        proof {
            crate::code::lemma_scan_while_bounds(code.chars@, start + 1, |c: char| ident_continue(c));
        }
        let mut end = start + 1;
        while end < code.len() && char_ident_continue(code.get_char(end))
            invariant
                code.wf(),
                start < end <= code.chars@.len(),
                scan_ident(code.chars@, end as int) == scan_ident(code.chars@, start + 1),
            decreases code.chars@.len() - end,
        {
            end = end + 1;
        }
        Some(Ident::new(RangeInclusive::new(start, end - 1), code))
    }
}

/// A recognized name lies at or after the position it was looked for at, inside the code.
pub proof fn lemma_ident_span(chars: Seq<char>, pos: int)
    ensures
        Ident::spec_parse(chars, pos).0 matches Some(v) ==> pos <= v.0 <= v.1 < chars.len(),
{
    crate::code::lemma_skip_ignored_ge(chars, pos);
    let start = skip_ignored(chars, pos);
    if 0 <= start + 1 {
        crate::code::lemma_scan_while_bounds(chars, start + 1, |c: char| ident_continue(c));
    }
}

impl<'s> DiagParse<'s> for Ident<'s> {

}

} // verus!
