use crate::code::Code;
use core::ops::RangeInclusive;
use vstd::prelude::*;

verus! {

/// Something that covers an inclusive range of character positions of the code.
pub trait Slicable {
    /// First position covered.
    spec fn spec_start(&self) -> int;

    /// Last position covered.
    spec fn spec_end(&self) -> int;

    fn get_slice(&self) -> (r: RangeInclusive<usize>)
        ensures
            r@.start == self.spec_start(),
            r@.end == self.spec_end(),
    ;

    fn get_start(&self) -> (r: usize)
        ensures
            r == self.spec_start(),
    {
        let range = self.get_slice();
        *range.start()
    }

    fn get_end(&self) -> (r: usize)
        ensures
            r == self.spec_end(),
    {
        let range = self.get_slice();
        *range.end()
    }
}

/// A range of character positions together with the text it covers.
#[derive(PartialEq, Debug, Eq, Hash)]
pub struct Slice<'s> {
    pub range: RangeInclusive<usize>,
    pub source: &'s str,
}

impl<'s> View for Slice<'s> {
    type V = (int, int);

    open spec fn view(&self) -> (int, int) {
        (self.range@.start as int, self.range@.end as int)
    }
}

/// Whether `Slice::new` accepts `range` of `code`: the code is not empty and `Code::get_slice`
/// answers the range.
pub open spec fn sliceable(code: &Code, range: RangeInclusive<usize>) -> bool {
    &&& code.wf()
    &&& code.chars@.len() > 0
    &&& range@.end < usize::MAX
    &&& Code::spec_get_slice(code.chars@, range@.start as int, range@.end as int) is Some
}

/// The text `Code::get_slice` answers for `range` of `code`.
pub open spec fn slice_text(code: &Code, range: RangeInclusive<usize>) -> Seq<char> {
    Code::spec_get_slice(code.chars@, range@.start as int, range@.end as int).unwrap()
}

impl<'s> Slice<'s> {
    /// A copy of the slice.
    pub fn duplicate(&self) -> (r: Self)
        ensures
            r@ == self@,
            r.source == self.source,
    {
        let start = *self.range.start();
        let end = *self.range.end();
        Slice { range: RangeInclusive::new(start, end), source: self.source }
    }

    /// The slice covers positions `start..=end` of `chars`, which are all inside it, and holds
    /// exactly the text at those positions.
    pub open spec fn wf_in(&self, chars: Seq<char>) -> bool {
        &&& 0 <= self@.0 <= self@.1 < chars.len()
        &&& self.source@ == chars.subrange(self@.0, self@.1 + 1)
    }

    pub fn new(range: RangeInclusive<usize>, code: &Code<'s>) -> (r: Self)
        requires
            code.wf(),
            Code::spec_get_slice(code.chars@, range@.start as int, range@.end as int) is Some,
            range@.end < usize::MAX,
            code.chars@.len() > 0,
        ensures
            r.range == range,
            r.source@ == Code::spec_get_slice(
                code.chars@,
                range@.start as int,
                range@.end as int,
            ).unwrap(),
    {
        let start = *range.start();
        let end = *range.end();
        let source = code.get_slice(RangeInclusive::new(start, end));
        Slice { range, source: source.unwrap() }
    }
}

impl<'s> Slicable for Slice<'s> {
    open spec fn spec_start(&self) -> int {
        self.range@.start as int
    }

    open spec fn spec_end(&self) -> int {
        self.range@.end as int
    }

    fn get_slice(&self) -> (r: RangeInclusive<usize>) {
        let start = *self.range.start();
        let end = *self.range.end();
        assert(start == self.range@.start);
        assert(end == self.range@.end);
        let r = RangeInclusive::new(start, end);
        assert(r@.end == end);
        assert(r@.start == self.spec_start());
        assert(r@.end == self.spec_end());
        r
    }
}

} // verus!
