use vstd::prelude::*;
use vstd::std_specs::iter::IteratorSpec;
use vstd::string::{StrSliceExecFns, StringExecFns};

verus! {

/// Source text, kept both as written and as its characters numbered from 0.
pub struct Source {
    pub real_source: String,
    pub source: Vec<(usize, char)>,
}

impl Source {
    /// Each character of the text stands at its position, with that position beside it.
    pub open spec fn wf(&self) -> bool {
        &&& self.source@.len() == self.real_source@.len()
        &&& forall|i: int| 0 <= i < self.source@.len() ==> #[trigger] self.source@[i] == (i as usize, self.real_source@[i])
    }

    /// The numbered characters of `text`.
    pub fn from_str(text: &str) -> (r: Self)
        requires
            text@.len() <= usize::MAX,
        ensures
            r.wf(),
            r.real_source@ == text@,
    {
        broadcast use vstd::string::group_string_axioms;

        let mut source: Vec<(usize, char)> = Vec::new();
        for c in it: text.chars()
            invariant
                source@.len() == it.index(),
                it.index() <= it.seq().len(),
                it.seq() == text@,
                text@.len() <= usize::MAX,
                forall|k: int| 0 <= k < source@.len() ==> #[trigger] source@[k] == (k as usize, text@[k]),
        {
            let i = source.len();
            source.push((i, c));
        }
        Source { real_source: String::from_str(text), source }
    }
}

impl Source {
    /// A copy of the source.
    pub fn duplicate(&self) -> (r: Self)
        ensures
            r.real_source@ == self.real_source@,
            r.source@ == self.source@,
    {
        let mut source: Vec<(usize, char)> = Vec::new();
        let mut i: usize = 0;
        while i < self.source.len()
            invariant
                i <= self.source@.len(),
                source@ == self.source@.take(i as int),
            decreases self.source@.len() - i,
        {
            assert(self.source@.take(i + 1) =~= self.source@.take(i as int).push(self.source@[i as int]));
            source.push(self.source[i]);
            i = i + 1;
        }
        assert(self.source@.take(i as int) =~= self.source@);
        Source { real_source: String::from_str(self.real_source.as_str()), source }
    }
}

/// Source text and the position parsing looks at next.
pub struct Code {
    pub source: Source,
    pub cursor: usize,
}

impl Code {
    pub open spec fn wf(&self) -> bool {
        self.source.wf()
    }

    /// The code of `text`, looked at from its start.
    pub fn from_str(text: &str) -> (r: Self)
        requires
            text@.len() <= usize::MAX,
        ensures
            r.wf(),
            r.source.real_source@ == text@,
            r.cursor == 0,
    {
        Code { source: Source::from_str(text), cursor: 0 }
    }

    /// The character at the cursor, with its position.
    pub fn get_current(&self) -> (r: (usize, char))
        requires
            self.cursor < self.source.source@.len(),
        ensures
            r == self.source.source@[self.cursor as int],
    {
        self.source.source[self.cursor]
    }

    /// The text from the cursor on; none when the cursor is past the end.
    pub fn get_residue(&self) -> (r: String)
        requires
            self.wf(),
        ensures
            self.cursor <= self.len_spec() ==> r@ == self.source.real_source@.subrange(
                self.cursor as int,
                self.len_spec(),
            ),
            self.cursor > self.len_spec() ==> r@ == Seq::<char>::empty(),
    {
        let n = self.len();
        if self.cursor > n {
            proof {
                reveal_strlit("");
            }
            return String::from_str("");
        }
        let rest = self.source.real_source.as_str().substring_char(self.cursor, n);
        String::from_str(rest)
    }

    pub open spec fn len_spec(&self) -> int {
        self.source.source@.len() as int
    }

    /// How many characters the code has.
    pub fn len(&self) -> (r: usize)
        requires
            self.wf(),
        ensures
            r == self.len_spec(),
            r == self.source.real_source@.len(),
    {
        self.source.source.len()
    }

    /// The numbered characters from the cursor on.
    pub fn iter(&self) -> (r: &[(usize, char)])
        requires
            self.cursor <= self.source.source@.len(),
        ensures
            r@ == self.source.source@.subrange(self.cursor as int, self.source.source@.len() as int),
    {
        vstd::slice::slice_subrange(self.source.source.as_slice(), self.cursor, self.source.source.len())
    }
}

} // verus!
