use crate::slice::Slicable;
use core::ops::RangeInclusive;
use vstd::prelude::*;
use vstd::std_specs::iter::IteratorSpec;
use vstd::string::StrSliceExecFns;

verus! {

/// The characters that separate constructs and are otherwise skipped.
pub const IGNORE: [char; 3] = [' ', '\n', '\t'];

/// A character that is one of `IGNORE`.
pub open spec fn is_ignore(c: char) -> bool {
    c == ' ' || c == '\n' || c == '\t'
}

/// A decimal digit, as `char::is_digit(10)` decides it.
pub open spec fn is_decimal_digit(c: char) -> bool {
    '0' <= c && c <= '9'
}

/// The first position at or after `pos` that does not hold an ignored character
/// (`pos` itself when `pos` is past the end).
pub open spec fn skip_ignored(chars: Seq<char>, pos: int) -> int
    decreases chars.len() - pos,
{
    if 0 <= pos < chars.len() && is_ignore(chars[pos]) {
        skip_ignored(chars, pos + 1)
    } else {
        pos
    }
}

pub proof fn lemma_skip_ignored_bounds(chars: Seq<char>, pos: int)
    requires
        0 <= pos,
    ensures
        pos <= skip_ignored(chars, pos),
        pos <= chars.len() ==> skip_ignored(chars, pos) <= chars.len(),
        forall|i: int| pos <= i < skip_ignored(chars, pos) ==> is_ignore(#[trigger] chars[i]),
        skip_ignored(chars, pos) < chars.len() ==> !is_ignore(chars[skip_ignored(chars, pos)]),
    decreases chars.len() - pos,
{
    if 0 <= pos < chars.len() && is_ignore(chars[pos]) {
        lemma_skip_ignored_bounds(chars, pos + 1);
    }
}

/// How many positions of `chars` lie at or after `pos`: what recursive parsing uses up.
pub open spec fn fuel(chars: Seq<char>, pos: int) -> nat {
    if pos <= chars.len() {
        (chars.len() - pos) as nat
    } else {
        0
    }
}

/// The first position at or after `k` whose character does not satisfy `p`
/// (`k` itself when `k` is past the end).
pub open spec fn scan_while(chars: Seq<char>, k: int, p: spec_fn(char) -> bool) -> int
    decreases chars.len() - k,
{
    if 0 <= k < chars.len() && p(chars[k]) {
        scan_while(chars, k + 1, p)
    } else {
        k
    }
}

pub proof fn lemma_scan_while_bounds(chars: Seq<char>, k: int, p: spec_fn(char) -> bool)
    requires
        0 <= k,
    ensures
        k <= scan_while(chars, k, p),
        k <= chars.len() ==> scan_while(chars, k, p) <= chars.len(),
        forall|i: int| k <= i < scan_while(chars, k, p) ==> p(#[trigger] chars[i]),
        scan_while(chars, k, p) < chars.len() ==> !p(chars[scan_while(chars, k, p)]),
    decreases chars.len() - k,
{
    if 0 <= k < chars.len() && p(chars[k]) {
        lemma_scan_while_bounds(chars, k + 1, p);
    }
}

/// When the characters from `k` up to `stop` satisfy `p` and the one at `stop` does not (or the
/// code ends there), scanning from `k` stops at `stop`.
pub proof fn lemma_scan_while_to(chars: Seq<char>, k: int, stop: int, p: spec_fn(char) -> bool)
    requires
        0 <= k <= stop <= chars.len(),
        forall|i: int| k <= i < stop ==> p(#[trigger] chars[i]),
        stop < chars.len() ==> !p(chars[stop]),
    ensures
        scan_while(chars, k, p) == stop,
    decreases stop - k,
{
    if k < stop {
        lemma_scan_while_to(chars, k + 1, stop, p);
    }
}

/// When the characters from `pos` up to `start` are ignored and the one at `start` is not (or
/// the code ends there), skipping from `pos` stops at `start`.
pub proof fn lemma_skip_ignored_to(chars: Seq<char>, pos: int, start: int)
    requires
        0 <= pos <= start <= chars.len(),
        forall|i: int| pos <= i < start ==> is_ignore(#[trigger] chars[i]),
        start < chars.len() ==> !is_ignore(chars[start]),
    ensures
        skip_ignored(chars, pos) == start,
    decreases start - pos,
{
    if pos < start {
        lemma_skip_ignored_to(chars, pos + 1, start);
    }
}

/// The first position at or after `k` that does not hold a decimal digit.
pub open spec fn scan_digits(chars: Seq<char>, k: int) -> int {
    scan_while(chars, k, |c: char| is_decimal_digit(c))
}

/// Skipping ignored characters never moves backwards, and stays within the code when it starts
/// within it.
pub proof fn lemma_skip_ignored_ge(chars: Seq<char>, pos: int)
    ensures
        pos <= skip_ignored(chars, pos),
        pos <= chars.len() ==> skip_ignored(chars, pos) <= chars.len(),
        pos > chars.len() ==> skip_ignored(chars, pos) == pos,
    decreases chars.len() - pos,
{
    if 0 <= pos < chars.len() && is_ignore(chars[pos]) {
        lemma_skip_ignored_ge(chars, pos + 1);
    }
}

pub fn char_is_ignore(c: char) -> (r: bool)
    ensures
        r == is_ignore(c),
{
    c == ' ' || c == '\n' || c == '\t'
}

pub fn char_is_decimal_digit(c: char) -> (r: bool)
    ensures
        r == is_decimal_digit(c),
{
    '0' <= c && c <= '9'
}

/// Source text together with the position of the character that parsing looks at next.
/// Positions count characters, not bytes.
#[derive(PartialEq, Debug, Clone)]
pub struct Code<'s> {
    pub source: &'s str,
    pub chars: Vec<char>,
    pub cursor: usize,
}

impl<'s> Code<'s> {
    /// The characters are those of the source, and every position fits a `usize` with room
    /// to spare.
    pub open spec fn wf(&self) -> bool {
        &&& self.chars@ == self.source@
        &&& self.source@.len() < usize::MAX
    }

    /// What `get_slice` yields for the inclusive range `start..=end` of `chars`.
    pub open spec fn spec_get_slice(chars: Seq<char>, start: int, end: int) -> Option<Seq<char>> {
        if start >= chars.len() {
            None
        } else if end + 1 < chars.len() {
            if end + 1 >= start {
                Some(chars.subrange(start, end + 1))
            } else {
                None
            }
        } else {
            Some(chars.subrange(start, chars.len() as int))
        }
    }

    /// What `get_offset_slice` yields: the `offset` characters from the cursor on, when they are
    /// all in the code and the last of them is written with a single byte.
    pub open spec fn spec_get_offset_slice(chars: Seq<char>, cursor: int, offset: int) -> Option<
        Seq<char>,
    > {
        let last = cursor + offset - 1;
        if last < chars.len() && (chars[last] as u32) < 0x80 {
            Some(chars.subrange(cursor, cursor + offset))
        } else {
            None
        }
    }

    pub fn new(source: &'s str) -> (code: Self)
        requires
            source@.len() < usize::MAX,
        ensures
            code.wf(),
            code.cursor == 0,
            code.source == source,
    {
        broadcast use vstd::string::group_string_axioms;

        let mut chars: Vec<char> = Vec::new();
        for c in it: source.chars()
            invariant
                chars@ == it.seq().take(it.index() as int),
        {
            chars.push(c);
        }
        assert(chars@ == source@);
        Code { source, chars, cursor: 0 }
    }

    /// The first position at or after `pos` that does not hold an ignored character.
    pub fn skip_ignored_from(&self, pos: usize) -> (r: usize)
        requires
            self.wf(),
        ensures
            r == skip_ignored(self.chars@, pos as int),
            pos <= r,
            pos <= self.chars@.len() ==> r <= self.chars@.len(),
    {
        proof {
            lemma_skip_ignored_bounds(self.chars@, pos as int);
        }
        let mut i = pos;
        while i < self.chars.len() && char_is_ignore(self.chars[i])
            invariant
                self.wf(),
                pos <= i,
                pos <= self.chars@.len() ==> i <= self.chars@.len(),
                skip_ignored(self.chars@, i as int) == skip_ignored(self.chars@, pos as int),
            decreases self.chars@.len() - i,
        {
            i = i + 1;
        }
        i
    }

    pub fn get_char(&self, index: usize) -> (c: char)
        requires
            self.wf(),
            index < self.chars@.len(),
        ensures
            c == self.chars@[index as int],
    {
        self.chars[index]
    }

    pub fn set_cursor(&mut self, cursor: usize) -> (r: &mut Self)
        ensures
            *r == (Code { cursor, ..*old(self) }),
            *final(self) == *final(r),
    {
        self.cursor = cursor;
        self
    }

    /// Moves the cursor just past `skip_index`, which must not lie before the cursor.
    pub fn consume(&mut self, skip_index: usize) -> (r: &mut Self)
        requires
            skip_index + 1 > old(self).cursor,
            skip_index < usize::MAX,
        ensures
            *r == (Code { cursor: (skip_index + 1) as usize, ..*old(self) }),
            *final(self) == *final(r),
    {
        self.set_cursor(skip_index + 1)
    }

    pub fn offset(&mut self, count: usize) -> (r: &mut Self)
        requires
            old(self).cursor + count <= usize::MAX,
        ensures
            *r == (Code { cursor: (old(self).cursor + count) as usize, ..*old(self) }),
            *final(self) == *final(r),
    {
        let cursor = self.cursor + count;
        self.set_cursor(cursor)
    }

    /// Moves the cursor just past the last position that `like_end` covers.
    pub fn end<S: Slicable>(&mut self, like_end: &S) -> (r: &mut Self)
        requires
            like_end.spec_end() + 1 > old(self).cursor,
            like_end.spec_end() < usize::MAX,
        ensures
            *r == (Code { cursor: (like_end.spec_end() + 1) as usize, ..*old(self) }),
            *final(self) == *final(r),
    {
        let end = like_end.get_end();
        self.consume(end)
    }

    pub fn len(&self) -> (r: usize)
        ensures
            r == self.chars@.len(),
    {
        self.chars.len()
    }

    /// The characters from the cursor on, each with its position.
    pub fn iter(&self) -> (r: Vec<(usize, char)>)
        requires
            self.cursor <= self.chars@.len(),
        ensures
            r@.len() == self.chars@.len() - self.cursor,
            forall|i: int| 0 <= i < r@.len() ==> #[trigger] r@[i] == ((self.cursor + i) as usize, self.chars@[self.cursor + i]),
    {
        let mut r: Vec<(usize, char)> = Vec::new();
        let mut i = self.cursor;
        while i < self.chars.len()
            invariant
                self.cursor <= i <= self.chars@.len(),
                r@.len() == i - self.cursor,
                forall|k: int| 0 <= k < r@.len() ==> #[trigger] r@[k] == ((self.cursor + k) as usize, self.chars@[self.cursor + k]),
            decreases self.chars@.len() - i,
        {
            r.push((i, self.chars[i]));
            i = i + 1;
        }
        r
    }

    pub fn get_offset_slice(&self, offset: usize) -> (r: Option<&'s str>)
        requires
            self.wf(),
            offset >= 1,
            self.cursor + offset - 1 < usize::MAX,
        ensures
            r is Some == Self::spec_get_offset_slice(self.chars@, self.cursor as int, offset as int) is Some,
            r matches Some(s) ==> s@ == Self::spec_get_offset_slice(
                self.chars@,
                self.cursor as int,
                offset as int,
            ).unwrap(),
    {
        let last = self.cursor + offset - 1;
        if last < self.chars.len() && (self.chars[last] as u32) < 0x80 {
            Some(self.source.substring_char(self.cursor, self.cursor + offset))
        } else {
            None
        }
    }

    pub fn get_slice(&self, range: RangeInclusive<usize>) -> (r: Option<&'s str>)
        requires
            self.wf(),
            range@.end < usize::MAX,
            self.chars@.len() > 0,
        ensures
            r is Some == Self::spec_get_slice(self.chars@, range@.start as int, range@.end as int) is Some,
            r matches Some(s) ==> s@ == Self::spec_get_slice(
                self.chars@,
                range@.start as int,
                range@.end as int,
            ).unwrap(),
    {
        let start = *range.start();
        let end = *range.end();
        let len = self.chars.len();
        if start >= len {
            None
        } else if end + 1 < len {
            if end + 1 >= start {
                Some(self.source.substring_char(start, end + 1))
            } else {
                None
            }
        } else {
            Some(self.source.substring_char(start, len))
        }
    }
}

} // verus!
