use crate::code::Code;
use crate::diag::{Diags, DiagsView};
use crate::slice::Slicable;
use vstd::prelude::*;

verus! {

/// A construct of the language that can be recognized at the cursor of some code.
pub trait Parse<'s>: Sized + Slicable + View {
    type Diag;

    /// What recognizing the construct at `pos` of `chars` yields: the model of the value when
    /// it is recognized, and the diagnostics raised on the way.
    spec fn spec_parse(chars: Seq<char>, pos: int) -> (Option<Self::V>, DiagsView<Self::Diag>);

    /// Every slice inside the value holds the text of `chars` that it covers.
    spec fn wf_in(&self, chars: Seq<char>) -> bool;

    /// Recognizes the construct at position `pos` of `code`, and adds the diagnostics raised to
    /// `diags`.
    fn parse_at(code: &Code<'s>, pos: usize, diags: &mut Diags<Self::Diag>) -> (r: Option<Self>)
        requires
            code.wf(),
            old(diags)@.wf(),
        ensures
            r is Some == Self::spec_parse(code.chars@, pos as int).0 is Some,
            r matches Some(v) ==> {
                &&& v@ == Self::spec_parse(code.chars@, pos as int).0.unwrap()
                &&& v.wf_in(code.chars@)
                &&& pos <= v.spec_end() < code.chars@.len()
            },
            Self::spec_parse(code.chars@, pos as int).1.wf(),
            final(diags)@ == old(diags)@.merge(Self::spec_parse(code.chars@, pos as int).1),
            final(diags).warrnings == old(diags).warrnings,
    ;

    /// Recognizes the construct at the cursor of `code`, which is left where it was, and adds the
    /// diagnostics raised to `diags`.
    fn parse(code: &Code<'s>, diags: &mut Diags<Self::Diag>) -> (r: Option<Self>)
        requires
            code.wf(),
            old(diags)@.wf(),
        ensures
            r is Some == Self::spec_parse(code.chars@, code.cursor as int).0 is Some,
            r matches Some(v) ==> {
                &&& v@ == Self::spec_parse(code.chars@, code.cursor as int).0.unwrap()
                &&& v.wf_in(code.chars@)
                &&& code.cursor <= v.spec_end() < code.chars@.len()
            },
            Self::spec_parse(code.chars@, code.cursor as int).1.wf(),
            final(diags)@ == old(diags)@.merge(Self::spec_parse(code.chars@, code.cursor as int).1),
            final(diags).warrnings == old(diags).warrnings,
    {
        Self::parse_at(code, code.cursor, diags)
    }

    /// Moves the cursor of `code` just past the value.
    fn consume(self, code: &mut Code<'s>) -> (r: Self)
        requires
            self.spec_end() + 1 > old(code).cursor,
            self.spec_end() < usize::MAX,
        ensures
            r == self,
            *final(code) == (Code { cursor: (self.spec_end() + 1) as usize, ..*old(code) }),
    {
        code.end(&self);
        self
    }

    /// Recognizes the construct at the cursor of `code` and, when it is recognized, moves the
    /// cursor just past it.
    fn parse_and_consume(code: &mut Code<'s>, diags: &mut Diags<Self::Diag>) -> (r: Option<Self>)
        requires
            old(code).wf(),
            old(diags)@.wf(),
        ensures
            r is Some == Self::spec_parse(old(code).chars@, old(code).cursor as int).0 is Some,
            r matches Some(v) ==> {
                &&& v@ == Self::spec_parse(old(code).chars@, old(code).cursor as int).0.unwrap()
                &&& v.wf_in(old(code).chars@)
                &&& old(code).cursor <= v.spec_end() < old(code).chars@.len()
                &&& *final(code) == (Code { cursor: (v.spec_end() + 1) as usize, ..*old(code) })
            },
            r is None ==> *final(code) == *old(code),
            final(diags)@ == old(diags)@.merge(
                Self::spec_parse(old(code).chars@, old(code).cursor as int).1,
            ),
            final(diags).warrnings == old(diags).warrnings,
    {
        match Self::parse(code, diags) {
            Some(v) => Some(v.consume(code)),
            None => None,
        }
    }
}

/// A construct whose diagnostics can be asked for on their own.
pub trait DiagParse<'s>: Parse<'s> {
    /// The value recognized at position `pos` of `code`, or the diagnostics raised when there is
    /// none.
    fn diag_at(code: &Code<'s>, pos: usize) -> (r: Result<Self, Diags<Self::Diag>>)
        requires
            code.wf(),
        ensures
            r is Ok == Self::spec_parse(code.chars@, pos as int).0 is Some,
            r matches Ok(v) ==> {
                &&& v@ == Self::spec_parse(code.chars@, pos as int).0.unwrap()
                &&& v.wf_in(code.chars@)
                &&& pos <= v.spec_end() < code.chars@.len()
            },
            r matches Err(d) ==> d@ == Self::spec_parse(code.chars@, pos as int).1,
            r matches Err(d) ==> d.warrnings@.len() == 0,
            Self::spec_parse(code.chars@, pos as int).1.wf(),
    {
        let mut diags: Diags<Self::Diag> = Diags::default();
        match Self::parse_at(code, pos, &mut diags) {
            Some(v) => Ok(v),
            None => Err(diags),
        }
    }

    /// The value recognized at the cursor of `code`, or the diagnostics raised when there is none.
    fn diag(code: &Code<'s>) -> (r: Result<Self, Diags<Self::Diag>>)
        requires
            code.wf(),
        ensures
            r is Ok == Self::spec_parse(code.chars@, code.cursor as int).0 is Some,
            r matches Ok(v) ==> {
                &&& v@ == Self::spec_parse(code.chars@, code.cursor as int).0.unwrap()
                &&& v.wf_in(code.chars@)
                &&& code.cursor <= v.spec_end() < code.chars@.len()
            },
            r matches Err(d) ==> d@ == Self::spec_parse(code.chars@, code.cursor as int).1,
            r matches Err(d) ==> d.warrnings@.len() == 0,
            Self::spec_parse(code.chars@, code.cursor as int).1.wf(),
    {
        Self::diag_at(code, code.cursor)
    }

    /// Like `diag`, and moves the cursor just past the value when there is one.
    fn diag_and_consume(code: &mut Code<'s>) -> (r: Result<Self, Diags<Self::Diag>>)
        requires
            old(code).wf(),
        ensures
            r is Ok == Self::spec_parse(old(code).chars@, old(code).cursor as int).0 is Some,
            r matches Ok(v) ==> {
                &&& v@ == Self::spec_parse(old(code).chars@, old(code).cursor as int).0.unwrap()
                &&& v.wf_in(old(code).chars@)
                &&& old(code).cursor <= v.spec_end() < old(code).chars@.len()
                &&& *final(code) == (Code { cursor: (v.spec_end() + 1) as usize, ..*old(code) })
            },
            r matches Err(d) ==> {
                &&& d@ == Self::spec_parse(old(code).chars@, old(code).cursor as int).1
                &&& d.warrnings@.len() == 0
                &&& *final(code) == *old(code)
            },
            Self::spec_parse(old(code).chars@, old(code).cursor as int).1.wf(),
    {
        match Self::diag(code) {
            Ok(v) => Ok(v.consume(code)),
            Err(d) => Err(d),
        }
    }
}

} // verus!
