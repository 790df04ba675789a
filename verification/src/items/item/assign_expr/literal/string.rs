use crate::code::{scan_while, skip_ignored, Code};
use crate::diag::{Diags, DiagsView};
use crate::parse::{DiagParse, Parse};
use crate::slice::{Slicable, Slice};
use core::ops::RangeInclusive;
use vstd::prelude::*;

verus! {

/// The first position at or after `k` that holds a `"`, or the end of the code.
pub open spec fn scan_to_quote(chars: Seq<char>, k: int) -> int {
    scan_while(chars, k, |c: char| c != '"')
}

/// A string: a `"`, the characters after it, and the next `"`.
#[derive(PartialEq, Debug, Eq, Hash)]
pub struct String<'s>(pub Slice<'s>);

#[derive(PartialEq, Debug, Clone, Copy, Eq, Hash)]
pub enum StringDiag {
    /// The string does not start with `"`.
    StartsWithQuote,
    /// No `"` closes the string; raised at the last character of the code.
    EndsWithQuote,
}

impl<'s> View for String<'s> {
    type V = (int, int);

    open spec fn view(&self) -> (int, int) {
        self.0@
    }
}

impl<'s> Slicable for String<'s> {
    open spec fn spec_start(&self) -> int {
        self.0@.0
    }

    open spec fn spec_end(&self) -> int {
        self.0@.1
    }

    fn get_slice(&self) -> (r: RangeInclusive<usize>) {
        let r = self.0.get_slice();
        assert(r@.start == self.spec_start());
        assert(r@.end == self.spec_end());
        r
    }
}

impl<'s> Parse<'s> for String<'s> {
    type Diag = StringDiag;

    /// After the ignored characters at `pos`, a `"` up to and including the next `"`.
    open spec fn spec_parse(chars: Seq<char>, pos: int) -> (Option<(int, int)>, DiagsView<StringDiag>) {
        let start = skip_ignored(chars, pos);
        if start >= chars.len() {
            (None, DiagsView::empty())
        } else if chars[start] != '"' {
            (None, DiagsView::single(start, StringDiag::StartsWithQuote))
        } else {
            let stop = scan_to_quote(chars, start + 1);
            if stop < chars.len() {
                (Some((start, stop)), DiagsView::empty())
            } else {
                (None, DiagsView::single(chars.len() - 1, StringDiag::EndsWithQuote))
            }
        }
    }

    open spec fn wf_in(&self, chars: Seq<char>) -> bool {
        self.0.wf_in(chars)
    }

    fn parse_at(code: &Code<'s>, pos: usize, diags: &mut Diags<StringDiag>) -> (r: Option<Self>) {
        let start = code.skip_ignored_from(pos);
        if start >= code.len() {
            return None;
        }
        if code.get_char(start) != '"' {
            diags.extend_one((start, StringDiag::StartsWithQuote));
            return None;
        }
        proof {
            crate::code::lemma_scan_while_bounds(code.chars@, start + 1, |c: char| c != '"');
        }
        let mut stop = start + 1;
        while stop < code.len() && code.get_char(stop) != '"'
            invariant
                code.wf(),
                start < stop <= code.chars@.len(),
                scan_to_quote(code.chars@, stop as int) == scan_to_quote(code.chars@, start + 1),
            decreases code.chars@.len() - stop,
        {
            stop = stop + 1;
        }
        if stop < code.len() {
            Some(String(Slice::new(RangeInclusive::new(start, stop), code)))
        } else {
            diags.extend_one((code.len() - 1, StringDiag::EndsWithQuote));
            None
        }
    }
}

impl<'s> DiagParse<'s> for String<'s> {

}

} // verus!
