use crate::code::{
    char_is_decimal_digit, char_is_ignore, is_decimal_digit, is_ignore, scan_digits, scan_while,
    skip_ignored, Code,
};
use crate::diag::{Diags, DiagsView};
use crate::parse::{DiagParse, Parse};
use crate::slice::{Slicable, Slice};
use core::ops::RangeInclusive;
use vstd::prelude::*;

verus! {

/// A number: decimal digits up to an ignored character or the end of the code.
#[derive(PartialEq, Debug, Eq, Hash)]
pub struct Number<'s>(pub Slice<'s>);

#[derive(PartialEq, Debug, Clone, Copy, Eq, Hash)]
pub enum NumberDiag {
    /// The number does not start with a digit.
    StartsWithNumber,
    /// Something other than a digit follows the digits before a separator.
    MustBeNumber,
}

impl<'s> View for Number<'s> {
    type V = (int, int);

    open spec fn view(&self) -> (int, int) {
        self.0@
    }
}

impl<'s> Slicable for Number<'s> {
    open spec fn spec_start(&self) -> int {
        self.0@.0
    }

    open spec fn spec_end(&self) -> int {
        self.0@.1
    }

    fn get_slice(&self) -> (r: RangeInclusive<usize>) {
        let r = self.0.get_slice();
        assert(r@.start == self.spec_start());
        assert(r@.end == self.spec_end());
        r
    }
}

impl<'s> Parse<'s> for Number<'s> {
    type Diag = NumberDiag;

    /// After the ignored characters at `pos`, a digit and the digits that follow it, which must
    /// end at an ignored character or at the end of the code.
    open spec fn spec_parse(chars: Seq<char>, pos: int) -> (Option<(int, int)>, DiagsView<NumberDiag>) {
        let start = skip_ignored(chars, pos);
        if start >= chars.len() {
            (None, DiagsView::empty())
        } else if !is_decimal_digit(chars[start]) {
            (None, DiagsView::single(start, NumberDiag::StartsWithNumber))
        } else {
            let stop = scan_digits(chars, start + 1);
            if stop >= chars.len() {
                (Some((start, chars.len() - 1)), DiagsView::empty())
            } else if is_ignore(chars[stop]) {
                (Some((start, stop - 1)), DiagsView::empty())
            } else {
                (None, DiagsView::single(stop, NumberDiag::MustBeNumber))
            }
        }
    }

    open spec fn wf_in(&self, chars: Seq<char>) -> bool {
        self.0.wf_in(chars)
    }

    fn parse_at(code: &Code<'s>, pos: usize, diags: &mut Diags<NumberDiag>) -> (r: Option<Self>) {
        let start = code.skip_ignored_from(pos);
        if start >= code.len() {
            return None;
        }
        if !char_is_decimal_digit(code.get_char(start)) {
            diags.extend_one((start, NumberDiag::StartsWithNumber));
            return None;
        }
        proof {
            crate::code::lemma_scan_while_bounds(code.chars@, start + 1, |c: char| is_decimal_digit(c));
        }
        let mut stop = start + 1;
        while stop < code.len() && char_is_decimal_digit(code.get_char(stop))
            invariant
                code.wf(),
                start < stop <= code.chars@.len(),
                scan_digits(code.chars@, stop as int) == scan_digits(code.chars@, start + 1),
            decreases code.chars@.len() - stop,
        {
            stop = stop + 1;
        }
        if stop >= code.len() {
            Some(Number(Slice::new(RangeInclusive::new(start, code.len() - 1), code)))
        } else if char_is_ignore(code.get_char(stop)) {
            Some(Number(Slice::new(RangeInclusive::new(start, stop - 1), code)))
        } else {
            diags.extend_one((stop, NumberDiag::MustBeNumber));
            None
        }
    }
}

impl<'s> DiagParse<'s> for Number<'s> {

}

/// Decimal digits that run from `start` up to a space, a line break, a tab or the end of the
/// code, with only such separators between `pos` and `start`, are recognized at `pos` as a
/// number from `start` to the last digit, with no diagnostic: which separator ends the number
/// makes no difference.
pub proof fn law_number_ends_at_any_separator(chars: Seq<char>, pos: int, start: int, stop: int)
    requires
        0 <= pos <= start < stop <= chars.len(),
        forall|i: int| pos <= i < start ==> #[trigger] chars[i] == ' ' || chars[i] == '\n' || chars[i] == '\t',
        forall|i: int| start <= i < stop ==> '0' <= #[trigger] chars[i] && chars[i] <= '9',
        stop == chars.len() || chars[stop] == ' ' || chars[stop] == '\n' || chars[stop] == '\t',
    ensures
        Number::spec_parse(chars, pos) == (Some((start, stop - 1)), DiagsView::<NumberDiag>::empty()),
{
    crate::code::lemma_skip_ignored_to(chars, pos, start);
    crate::code::lemma_scan_while_to(chars, start + 1, stop, |c: char| is_decimal_digit(c));
}

/// Decimal digits from `start` followed by a character that is neither a digit nor a separator
/// are refused at that character.
pub proof fn law_number_refuses_what_follows(chars: Seq<char>, start: int, stop: int)
    requires
        0 <= start < stop < chars.len(),
        forall|i: int| start <= i < stop ==> '0' <= #[trigger] chars[i] && chars[i] <= '9',
        !('0' <= chars[stop] && chars[stop] <= '9'),
        chars[stop] != ' ' && chars[stop] != '\n' && chars[stop] != '\t',
    ensures
        Number::spec_parse(chars, start) == (None::<(int, int)>, DiagsView::single(stop, NumberDiag::MustBeNumber)),
{
    crate::code::lemma_skip_ignored_to(chars, start, start);
    crate::code::lemma_scan_while_to(chars, start + 1, stop, |c: char| is_decimal_digit(c));
}

/// When the first character after the separators from `pos` is not a digit, there is no number,
/// and that character is reported.
pub proof fn law_number_starts_with_digit(chars: Seq<char>, pos: int, start: int)
    requires
        0 <= pos <= start < chars.len(),
        forall|i: int| pos <= i < start ==> #[trigger] chars[i] == ' ' || chars[i] == '\n' || chars[i] == '\t',
        chars[start] != ' ' && chars[start] != '\n' && chars[start] != '\t',
        !('0' <= chars[start] && chars[start] <= '9'),
    ensures
        Number::spec_parse(chars, pos) == (None::<(int, int)>, DiagsView::single(start, NumberDiag::StartsWithNumber)),
{
    crate::code::lemma_skip_ignored_to(chars, pos, start);
}

} // verus!
