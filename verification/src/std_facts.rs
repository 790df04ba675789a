use core::ops::RangeInclusive;
use vstd::prelude::*;

verus! {

/// `RangeInclusive::start` hands back the lower bound of the range, as vstd's view of the range
/// records it. std leaves the value unspecified once a range has been iterated to exhaustion;
/// nothing in this library iterates a range.
pub assume_specification<Idx>[ RangeInclusive::<Idx>::start ](range: &RangeInclusive<Idx>) -> (r:
    &Idx)
    ensures
        *r == range@.start,
;

/// `RangeInclusive::end` hands back the upper bound of the range, as vstd's view of the range
/// records it. std leaves the value unspecified once a range has been iterated to exhaustion;
/// nothing in this library iterates a range.
pub assume_specification<Idx>[ RangeInclusive::<Idx>::end ](range: &RangeInclusive<Idx>) -> (r:
    &Idx)
    ensures
        *r == range@.end,
;

/// What `char::is_alphabetic` answers for `c`: whether the character has the Unicode
/// `Alphabetic` property.
pub uninterp spec fn alphabetic(c: char) -> bool;

/// Calls `char::is_alphabetic`; its answer is the named `alphabetic(c)`. Of the ASCII characters
/// exactly the letters are alphabetic; beyond ASCII nothing is said: that is the Unicode table.
#[verifier::external_body]
pub(crate) fn char_is_alphabetic(c: char) -> (r: bool)
    ensures
        r == alphabetic(c),
        (c as u32) < 0x80 ==> (r <==> (('a' <= c && c <= 'z') || ('A' <= c && c <= 'Z'))),
{
    c.is_alphabetic()
}

} // verus!
