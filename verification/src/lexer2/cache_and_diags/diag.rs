use crate::lexer2::code::Source;
use core::ops::RangeInclusive;
use vstd::prelude::*;

verus! {

/// An error of kind `error`, found at the positions `slice` of `source`.
pub struct Diag<E> {
    pub slice: RangeInclusive<usize>,
    pub source: Source,
    pub error: E,
}

impl<E> View for Diag<E> {
    /// The positions marked, the text as written and numbered, and the kind of error.
    type V = ((int, int), Seq<char>, Seq<(usize, char)>, E);

    open spec fn view(&self) -> Self::V {
        (
            (self.slice@.start as int, self.slice@.end as int),
            self.source.real_source@,
            self.source.source@,
            self.error,
        )
    }
}

impl<E: Copy> Diag<E> {
    /// A copy of the diagnostic.
    pub fn duplicate(&self) -> (r: Self)
        ensures
            r@ == self@,
    {
        Diag {
            slice: RangeInclusive::new(*self.slice.start(), *self.slice.end()),
            source: self.source.duplicate(),
            error: self.error,
        }
    }
}

/// How many line breaks `s` holds.
pub open spec fn line_breaks(s: Seq<char>) -> nat
    decreases s.len(),
{
    if s.len() == 0 {
        0
    } else {
        line_breaks(s.drop_last()) + if s.last() == '\n' {
            1nat
        } else {
            0nat
        }
    }
}

/// The number, from 1, of the line of `text` that holds position `pos`; 0 when `pos` is past the
/// text.
pub open spec fn line_of(text: Seq<char>, pos: int) -> int {
    if 0 <= pos < text.len() {
        line_breaks(text.take(pos)) + 1int
    } else {
        0
    }
}

/// The number, from 1, of the line of `text` that holds position `pos`; 0 when `pos` is past the
/// text.
pub fn get_line(text: &Vec<char>, pos: usize) -> (r: usize)
    ensures
        r == line_of(text@, pos as int),
{
    let n = text.len();
    if pos >= n {
        return 0;
    }
    let mut line: usize = 1;
    let mut i: usize = 0;
    while i < pos
        invariant
            i <= pos < n,
            n == text@.len(),
            line == line_breaks(text@.take(i as int)) + 1,
            line <= i + 1,
        decreases pos - i,
    {
        assert(text@.take(i + 1).drop_last() =~= text@.take(i as int));
        if text[i] == '\n' {
            line = line + 1;
        }
        i = i + 1;
    }
    line
}

/// What showing a diagnostic puts on screen, by positions of the source: the number of the line
/// of its end, whether text comes before it, the characters marked, the characters shown after
/// them (`after.0..after.1`), whether more text follows those, and how many carets mark it.
pub struct Layout {
    pub line: usize,
    pub lead: bool,
    pub marked: (usize, usize),
    pub after: (usize, usize),
    pub trail: bool,
    pub carets: usize,
}

/// How many characters are shown after the marked ones at most, less one.
pub const SHOWN_AFTER: usize = 4;

impl<E> Diag<E> {
    /// What showing the diagnostic puts on screen for a source of characters `text`: the marked
    /// characters are those of the slice when the slice lies in the text, and else the last
    /// character.
    pub fn layout(&self, text: &Vec<char>) -> (r: Layout)
        requires
            text@.len() > 0,
            self.slice@.start <= self.slice@.end <= text@.len(),
            self.slice@.end - self.slice@.start + 1 <= usize::MAX,
        ensures
            r.line == line_of(text@, self.slice@.end as int),
            r.lead == (self.slice@.start > 0),
            r.marked == if self.slice@.end < text@.len() {
                (self.slice@.start, (self.slice@.end + 1) as usize)
            } else {
                ((text@.len() - 1) as usize, text@.len() as usize)
            },
            r.after == if self.slice@.end == text@.len() {
                (self.slice@.end, self.slice@.end)
            } else if text@.len() - 1 - self.slice@.end < SHOWN_AFTER {
                ((self.slice@.end + 1) as usize, text@.len() as usize)
            } else {
                ((self.slice@.end + 1) as usize, (self.slice@.end + SHOWN_AFTER) as usize)
            },
            r.trail == (self.slice@.end < text@.len() && text@.len() - 1 - self.slice@.end
                >= SHOWN_AFTER),
            r.carets == self.slice@.end - self.slice@.start + 1,
    {
        let start = *self.slice.start();
        let end = *self.slice.end();
        let n = text.len();
        let marked = if end < n {
            (start, end + 1)
        } else {
            (n - 1, n)
        };
        let after = if n - end == 0 {
            (end, end)
        } else if n - 1 - end < SHOWN_AFTER {
            (end + 1, n)
        } else {
            (end + 1, end + SHOWN_AFTER)
        };
        Layout {
            line: get_line(text, end),
            lead: start > 0,
            marked,
            after,
            trail: n - end != 0 && n - 1 - end >= SHOWN_AFTER,
            carets: end - start + 1,
        }
    }
}

} // verus!
