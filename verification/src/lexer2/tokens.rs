use super::cache_and_diags::diag::Diag;
use super::code::Code;
use super::{Cad, Recog, Slicable};
use crate::code::{lemma_scan_while_bounds, scan_while};
use crate::items::item::ident::{char_ident_continue, char_ident_start, ident_continue, ident_start};
use crate::std_facts::alphabetic;
use core::ops::RangeInclusive;
use vstd::prelude::*;

verus! {

/// What is wrong with a name.
#[derive(PartialEq, Debug, Clone, Copy, Eq)]
pub enum IdentError {
    /// The name is a single character that is not a letter or `_`.
    StartsWithAlphabetic,
    /// The name does not start with a letter or `_`.
    Alphabetic,
}

/// What is wrong with a string.
#[derive(PartialEq, Debug, Clone, Copy, Eq)]
pub enum StringError {
    StartsWithNumber,
    /// The string does not start with `"`.
    StartsWithQuote,
    /// No `"` closes the string.
    EndsWithQuote,
}

/// What recognizing a token can run into.
#[derive(PartialEq, Debug, Clone, Copy, Eq)]
pub enum ErrorType {
    /// The code ends where the token should start.
    LineOver,
    Ident(IdentError),
    String(StringError),
}

/// The characters of the code.
pub open spec fn chars_of(code: &Code) -> Seq<char> {
    code.source.real_source@
}

/// The position just before the first character at or after `k` that cannot go on a name.
pub open spec fn name_end(chars: Seq<char>, k: int) -> int {
    scan_while(chars, k, |c: char| ident_continue(c)) - 1
}

/// What recognizing a name at `cursor` yields: the positions of the name, or those of what stands
/// there instead and what is wrong with it. No ignored characters are skipped.
pub open spec fn spec_ident_token(chars: Seq<char>, cursor: int) -> Result<(int, int), ((int, int), ErrorType)> {
    if cursor >= chars.len() {
        Err(((cursor, cursor), ErrorType::LineOver))
    } else if ident_start(chars[cursor]) {
        Ok((cursor, name_end(chars, cursor + 1)))
    } else if cursor == chars.len() - 1 {
        Err(((cursor, cursor), ErrorType::Ident(IdentError::StartsWithAlphabetic)))
    } else {
        Err(((cursor, name_end(chars, cursor + 1)), ErrorType::Ident(IdentError::Alphabetic)))
    }
}

/// The first position after `k` that holds `"`, if any.
pub open spec fn next_quote(chars: Seq<char>, k: int) -> int {
    scan_while(chars, k, |c: char| c != '"')
}

/// What recognizing a string at `cursor` yields: the positions from its opening to its closing
/// `"`, or where recognizing it failed and why. No ignored characters are skipped.
pub open spec fn spec_string_token(chars: Seq<char>, cursor: int) -> Result<(int, int), ((int, int), ErrorType)> {
    if cursor >= chars.len() {
        Err(((cursor, cursor), ErrorType::LineOver))
    } else if chars[cursor] != '"' {
        Err(((cursor, cursor), ErrorType::String(StringError::StartsWithQuote)))
    } else if next_quote(chars, cursor + 1) < chars.len() {
        Ok((cursor, next_quote(chars, cursor + 1)))
    } else {
        Err(((chars.len() - 1, chars.len() - 1), ErrorType::String(StringError::EndsWithQuote)))
    }
}

/// A `"` at `cursor` and the first `"` after it, at `j`, make a string from `cursor` to `j`,
/// whatever else stands between them.
pub proof fn law_string_runs_to_next_quote(chars: Seq<char>, cursor: int, j: int)
    requires
        0 <= cursor < j < chars.len(),
        chars[cursor] == '"',
        chars[j] == '"',
        forall|k: int| cursor < k < j ==> #[trigger] chars[k] != '"',
    ensures
        spec_string_token(chars, cursor) == Ok::<(int, int), ((int, int), ErrorType)>((cursor, j)),
{
    crate::code::lemma_scan_while_to(chars, cursor + 1, j, |c: char| c != '"');
}

/// A `"` at `cursor` with no `"` after it is a string that nothing closes, reported at the last
/// character of the code.
pub proof fn law_string_unclosed(chars: Seq<char>, cursor: int)
    requires
        0 <= cursor < chars.len(),
        chars[cursor] == '"',
        forall|k: int| cursor < k < chars.len() ==> #[trigger] chars[k] != '"',
    ensures
        spec_string_token(chars, cursor) == Err::<(int, int), ((int, int), ErrorType)>(
            ((chars.len() - 1, chars.len() - 1), ErrorType::String(StringError::EndsWithQuote)),
        ),
{
    crate::code::lemma_scan_while_to(chars, cursor + 1, chars.len() as int, |c: char| c != '"');
}

/// A character other than `"` at `cursor` is no string, reported at that character.
pub proof fn law_string_starts_with_quote(chars: Seq<char>, cursor: int)
    requires
        0 <= cursor < chars.len(),
        chars[cursor] != '"',
    ensures
        spec_string_token(chars, cursor) == Err::<(int, int), ((int, int), ErrorType)>(
            ((cursor, cursor), ErrorType::String(StringError::StartsWithQuote)),
        ),
{
}

/// A name starts at `cursor` with a letter or `_` and goes on over letters, `_` and digits up to
/// `stop`, where something else stands or the code ends: the token covers `cursor` to `stop - 1`.
pub proof fn law_name_runs_to_separator(chars: Seq<char>, cursor: int, stop: int)
    requires
        0 <= cursor < stop <= chars.len(),
        alphabetic(chars[cursor]) || chars[cursor] == '_',
        forall|k: int| cursor < k < stop ==> alphabetic(#[trigger] chars[k]) || chars[k] == '_' || ('0' <= chars[k] && chars[k] <= '9'),
        stop < chars.len() ==> !(alphabetic(chars[stop]) || chars[stop] == '_' || ('0' <= chars[stop] && chars[stop] <= '9')),
    ensures
        spec_ident_token(chars, cursor) == Ok::<(int, int), ((int, int), ErrorType)>((cursor, stop - 1)),
{
    crate::code::lemma_scan_while_to(chars, cursor + 1, stop, |c: char| ident_continue(c));
}

/// The positions of `range`.
pub open spec fn range_view(range: RangeInclusive<usize>) -> (int, int) {
    (range@.start as int, range@.end as int)
}

/// The view of what a token recognizer hands back.
pub open spec fn token_view(r: Result<RangeInclusive<usize>, (RangeInclusive<usize>, ErrorType)>) -> Result<(int, int), ((int, int), ErrorType)> {
    match r {
        Ok(s) => Ok(range_view(s)),
        Err((s, e)) => Err((range_view(s), e)),
    }
}

/// The position just before the first character at or after `k` that cannot go on a name.
fn scan_name(code: &Code, k: usize) -> (r: usize)
    requires
        code.wf(),
        0 < k <= code.len_spec(),
    ensures
        r == name_end(chars_of(code), k as int),
        k - 1 <= r < code.len_spec(),
{
    proof {
        lemma_scan_while_bounds(chars_of(code), k as int, |c: char| ident_continue(c));
    }
    let n = code.len();
    let mut i = k;
    while i < n && char_ident_continue(code.source.source[i].1)
        invariant
            code.wf(),
            n == code.len_spec(),
            k <= i <= n,
            scan_while(chars_of(code), i as int, |c: char| ident_continue(c)) == scan_while(
                chars_of(code),
                k as int,
                |c: char| ident_continue(c),
            ),
        decreases n - i,
    {
        assert(code.source.source@[i as int] == (i, chars_of(code)[i as int]));
        i = i + 1;
    }
    if i < n {
        assert(code.source.source@[i as int] == (i, chars_of(code)[i as int]));
    }
    i - 1
}

/// Recognizes a name at the cursor of `code`.
pub fn ident_token(code: &Code) -> (r: Result<RangeInclusive<usize>, (RangeInclusive<usize>, ErrorType)>)
    requires
        code.wf(),
    ensures
        token_view(r) == spec_ident_token(chars_of(code), code.cursor as int),
{
    let n = code.len();
    let i = code.cursor;
    if i >= n {
        return Err((RangeInclusive::new(i, i), ErrorType::LineOver));
    }
    let (_, c) = code.get_current();
    assert(c == chars_of(code)[i as int]);
    if char_ident_start(c) {
        let end = scan_name(code, i + 1);
        Ok(RangeInclusive::new(i, end))
    } else if i == n - 1 {
        Err((RangeInclusive::new(i, i), ErrorType::Ident(IdentError::StartsWithAlphabetic)))
    } else {
        let end = scan_name(code, i + 1);
        Err((RangeInclusive::new(i, end), ErrorType::Ident(IdentError::Alphabetic)))
    }
}

/// Recognizes a string at the cursor of `code`. A `"` that is the last character of the code
/// is left out.
pub fn string_token(code: &Code) -> (r: Result<RangeInclusive<usize>, (RangeInclusive<usize>, ErrorType)>)
    requires
        code.wf(),
        !(code.cursor == code.len_spec() - 1 && chars_of(code)[code.cursor as int] == '"'),
    ensures
        token_view(r) == spec_string_token(chars_of(code), code.cursor as int),
{
    let n = code.len();
    let i = code.cursor;
    if i >= n {
        return Err((RangeInclusive::new(i, i), ErrorType::LineOver));
    }
    let (_, c) = code.get_current();
    assert(c == chars_of(code)[i as int]);
    if c != '"' {
        return Err((RangeInclusive::new(i, i), ErrorType::String(StringError::StartsWithQuote)));
    }
    proof {
        lemma_scan_while_bounds(chars_of(code), i + 1, |c: char| c != '"');
    }
    let mut k = i + 1;
    while k < n
        invariant
            code.wf(),
            n == code.len_spec(),
            i + 1 <= k <= n,
            i == code.cursor,
            chars_of(code)[i as int] == '"',
            next_quote(chars_of(code), k as int) == next_quote(chars_of(code), i + 1),
        decreases n - k,
    {
        assert(code.source.source@[k as int] == (k, chars_of(code)[k as int]));
        if code.source.source[k].1 == '"' {
            assert(scan_while(chars_of(code), k as int, |c: char| c != '"') == k);
            return Ok(RangeInclusive::new(i, k));
        }
        k = k + 1;
    }
    Err((RangeInclusive::new(n - 1, n - 1), ErrorType::String(StringError::EndsWithQuote)))
}

/// The number of the kind of a name, in the cache.
pub const IDENT: usize = 1;

/// The number of the kind of a string, in the cache.
pub const STRING: usize = 2;

/// A name, by the first and last positions it covers.
#[derive(PartialEq, Debug, Clone, Copy, Eq)]
pub struct IdentToken {
    pub start: usize,
    pub end: usize,
}

/// A string with its quotes, by the first and last positions it covers.
#[derive(PartialEq, Debug, Clone, Copy, Eq)]
pub struct StringToken {
    pub start: usize,
    pub end: usize,
}

impl Slicable for IdentToken {
    open spec fn spec_slice(&self) -> (int, int) {
        (self.start as int, self.end as int)
    }

    fn slice(&self) -> (r: RangeInclusive<usize>) {
        RangeInclusive::new(self.start, self.end)
    }
}

impl Slicable for StringToken {
    open spec fn spec_slice(&self) -> (int, int) {
        (self.start as int, self.end as int)
    }

    fn slice(&self) -> (r: RangeInclusive<usize>) {
        RangeInclusive::new(self.start, self.end)
    }
}

/// What a token recognizer leaves: on success the token and the cursor just past it, on failure
/// an error at the positions found, over the source of the code, with the code as it was.
pub open spec fn token_parses(
    spec_r: Result<(int, int), ((int, int), ErrorType)>,
    code: Code,
    r: Result<(int, int), Diag<ErrorType>>,
    code2: Code,
) -> bool {
    match spec_r {
        Ok(t) => {
            &&& r == Ok::<(int, int), Diag<ErrorType>>(t)
            &&& code2.source == code.source
            &&& code2.cursor == t.1 + 1
        },
        Err((t, k)) => {
            &&& r matches Err(d) && d@ == (t, code.source.real_source@, code.source.source@, k)
            &&& code2 == code
        },
    }
}

/// The positions of what a recognizer gave, or its error.
pub open spec fn positions<T: Slicable>(r: Result<T, Diag<ErrorType>>) -> Result<(int, int), Diag<ErrorType>> {
    match r {
        Ok(v) => Ok(v.spec_slice()),
        Err(d) => Err(d),
    }
}

/// Turns what a token recognizer gave into the token, or into an error over the source of
/// `code`; moves the cursor past the token.
fn finish_token(code: &mut Code, r: Result<RangeInclusive<usize>, (RangeInclusive<usize>, ErrorType)>) -> (out: Result<(usize, usize), Diag<ErrorType>>)
    requires
        r matches Ok(s) ==> s@.end < usize::MAX,
    ensures
        match token_view(r) {
            Ok(t) => {
                &&& out matches Ok(p) && (p.0 as int, p.1 as int) == t
                &&& final(code).source == old(code).source
                &&& final(code).cursor == t.1 + 1
            },
            Err((t, k)) => {
                &&& out matches Err(d) && d@ == (t, old(code).source.real_source@, old(code).source.source@, k)
                &&& *final(code) == *old(code)
            },
        },
{
    match r {
        Ok(s) => {
            let start = *s.start();
            let end = *s.end();
            code.cursor = end + 1;
            Ok((start, end))
        },
        Err((s, k)) => Err(Diag { slice: s, source: code.source.duplicate(), error: k }),
    }
}

impl Recog for IdentToken {
    open spec fn kind() -> usize {
        IDENT
    }

    open spec fn parses(code: Code, cad: Cad<Self>, r: Result<Self, Diag<ErrorType>>, code2: Code, cad2: Cad<Self>) -> bool {
        &&& token_parses(spec_ident_token(chars_of(&code), code.cursor as int), code, positions(r), code2)
        &&& cad2 == cad
    }

    fn construct() -> (r: usize) {
        IDENT
    }

    fn duplicate(&self) -> (r: Self) {
        *self
    }

    fn parse2(code: &mut Code, cad: &mut Cad<Self>) -> (r: Result<Self, Diag<ErrorType>>) {
        let n = code.len();
        let t = ident_token(code);
        proof {
            if code.cursor < n {
                lemma_scan_while_bounds(chars_of(code), code.cursor + 1, |c: char| ident_continue(c));
            }
        }
        match finish_token(code, t) {
            Ok((start, end)) => Ok(IdentToken { start, end }),
            Err(d) => Err(d),
        }
    }
}

impl Recog for StringToken {
    open spec fn kind() -> usize {
        STRING
    }

    /// A `"` that is the last character of the code opens a string that nothing closes.
    open spec fn parses(code: Code, cad: Cad<Self>, r: Result<Self, Diag<ErrorType>>, code2: Code, cad2: Cad<Self>) -> bool {
        &&& token_parses(spec_string_token(chars_of(&code), code.cursor as int), code, positions(r), code2)
        &&& cad2 == cad
    }

    fn construct() -> (r: usize) {
        STRING
    }

    fn duplicate(&self) -> (r: Self) {
        *self
    }

    fn parse2(code: &mut Code, cad: &mut Cad<Self>) -> (r: Result<Self, Diag<ErrorType>>) {
        let n = code.len();
        let at = code.cursor;
        let t = if at < n && at == n - 1 && code.get_current().1 == '"' {
            Err((RangeInclusive::new(at, at), ErrorType::String(StringError::EndsWithQuote)))
        } else {
            string_token(code)
        };
        proof {
            if at < n {
                lemma_scan_while_bounds(chars_of(code), at + 1, |c: char| c != '"');
                assert(code.source.source@[at as int] == (at, chars_of(code)[at as int]));
            }
        }
        match finish_token(code, t) {
            Ok((start, end)) => Ok(StringToken { start, end }),
            Err(d) => Err(d),
        }
    }
}

} // verus!
