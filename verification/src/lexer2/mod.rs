pub mod cache_and_diags;
pub mod code;
pub mod construct;
pub mod pattern;
pub mod tokens;

use cache_and_diags::diag::Diag;
use cache_and_diags::{first_pass, last_furthest, latest_fail, lemma_last_furthest, recorded, CacheAndDiags};
use code::Code;
use core::ops::RangeInclusive;
use tokens::ErrorType;
use pattern::{compile, compiles, find, first_match};
use vstd::prelude::*;
use vstd::string::StringExecFns;

verus! {

/// Something that covers an inclusive range of character positions.
pub trait Slicable {
    /// First and last position covered.
    spec fn spec_slice(&self) -> (int, int);

    fn slice(&self) -> (r: RangeInclusive<usize>)
        ensures
            (r@.start as int, r@.end as int) == self.spec_slice(),
    ;
}

/// A token of kind `T` and the positions it covers.
pub struct Token<T>(pub T, pub RangeInclusive<usize>);

impl<T> Slicable for Token<T> {
    open spec fn spec_slice(&self) -> (int, int) {
        (self.1@.start as int, self.1@.end as int)
    }

    fn slice(&self) -> (r: RangeInclusive<usize>) {
        let r = RangeInclusive::new(*self.1.start(), *self.1.end());
        assert((r@.start as int, r@.end as int) == self.spec_slice());
        r
    }
}

/// The pattern `reg` anchored at the start of the text: `^reg`.
pub open spec fn anchored(reg: Seq<char>) -> Seq<char> {
    seq!['^'] + reg
}

/// The text of `code` after its cursor; none when the cursor is past the end.
pub open spec fn residue(code: &Code) -> Seq<char> {
    if code.cursor <= code.len_spec() {
        code.source.real_source@.subrange(code.cursor as int, code.len_spec())
    } else {
        Seq::empty()
    }
}

/// What recognizing the pattern `reg` at the cursor of `code` yields, given the match of `^reg`
/// in the text after the cursor: the positions from the cursor plus the offsets of the match to
/// the cursor plus its end offset less one, or the cursor when there is no match.
pub open spec fn observed(cursor: int, m: Option<(int, int)>) -> Result<(int, int), int> {
    match m {
        Some(m) => Ok((cursor + m.0, cursor + m.1 - 1)),
        None => Err(cursor),
    }
}

/// Whether a match found at the cursor can be turned into positions: it is not empty and its
/// end, added to the cursor, fits a `usize`.
pub open spec fn fits(cursor: int, m: Option<(int, int)>) -> bool {
    m matches Some(m) ==> 0 < m.1 && cursor + m.1 <= usize::MAX
}

fn anchored_pattern(reg: &str) -> (r: String)
    ensures
        r@ == anchored(reg@),
{
    proof {
        reveal_strlit("^");
    }
    String::from_str("^").concat(reg)
}

/// Recognizes the pattern `reg` at the cursor of `code`. The pattern `^reg` must compile, and
/// its match in the text after the cursor must not be empty.
pub fn reg_observe(code: &Code, reg: &str) -> (r: Result<RangeInclusive<usize>, usize>)
    requires
        code.wf(),
        compiles(anchored(reg@)),
        fits(code.cursor as int, first_match(anchored(reg@), residue(code))),
    ensures
        match (r, observed(code.cursor as int, first_match(anchored(reg@), residue(code)))) {
            (Ok(s), Ok(t)) => (s@.start as int, s@.end as int) == t,
            (Err(c), Err(t)) => c == t,
            _ => false,
        },
{
    let pattern = compile(anchored_pattern(reg).as_str()).unwrap();
    let residue = code.get_residue();
    match find(&pattern, residue.as_str()) {
        Some(m) => Ok(RangeInclusive::new(code.cursor + m.0, code.cursor + m.1 - 1)),
        None => Err(code.cursor),
    }
}

/// Recognizes the pattern `reg` at the cursor of `code` as `reg_observe` does, when it can: `None`
/// when `^reg` does not compile or its match at the cursor is empty or too far on.
pub fn try_reg_observe(code: &Code, reg: &str) -> (r: Option<Result<RangeInclusive<usize>, usize>>)
    requires
        code.wf(),
    ensures
        r is Some <==> compiles(anchored(reg@)) && fits(
            code.cursor as int,
            first_match(anchored(reg@), residue(code)),
        ),
        r matches Some(r) ==> match (
            r,
            observed(code.cursor as int, first_match(anchored(reg@), residue(code))),
        ) {
            (Ok(s), Ok(t)) => (s@.start as int, s@.end as int) == t,
            (Err(c), Err(t)) => c == t,
            _ => false,
        },
{
    let pattern = match compile(anchored_pattern(reg).as_str()) {
        Ok(p) => p,
        Err(_) => {
            return None;
        },
    };
    let residue = code.get_residue();
    if let Some(m) = find(&pattern, residue.as_str()) {
        if m.1 == 0 || code.cursor > usize::MAX - m.1 {
            return None;
        }
    }
    Some(reg_observe(code, reg))
}

/// What recognizing items of kind `T` keeps: kinds are numbers, and each item taken note of is
/// kept with its kind and the position it was recognized at.
pub type Cad<T> = CacheAndDiags<usize, (usize, usize, T), ErrorType>;

/// Every error recorded and every item taken note of ends at or after the position it was
/// recognized at and before the last position there is, and no kind and position has two
/// errors.
pub open spec fn cache_fits<T: Slicable>(cad: &Cad<T>) -> bool {
    &&& cad.cache.wf()
    &&& forall|k: int|
        0 <= k < cad.cache.fails@.len() ==> {
            let f = #[trigger] cad.cache.fails@[k];
            f.0.1 <= f.1.slice@.end < usize::MAX
        }
    &&& forall|j: int, k: int|
        0 <= j < cad.cache.pass@.len() && 0 <= k < cad.cache.pass@[j].items@.len() ==> {
            let p = #[trigger] cad.cache.pass@[j].items@[k];
            p.1 <= p.2.spec_slice().1 < usize::MAX
        }
}

/// What is recognized at `cursor` ends there or further on; an item ends short of the last
/// position there is, and so does an error when `cursor` does.
pub open spec fn advances<T: Slicable>(cursor: usize, r: Result<T, Diag<ErrorType>>) -> bool {
    match r {
        Ok(v) => cursor <= v.spec_slice().1 < usize::MAX,
        Err(e) => cursor <= e.slice@.end && (cursor < usize::MAX ==> e.slice@.end < usize::MAX),
    }
}

/// Something that can be recognized at the cursor of some code.
pub trait Recog: Sized + Slicable {
    /// The number of the kind of construct this is, which keys the cache.
    spec fn kind() -> usize;

    /// Whether recognizing from scratch at the cursor of `code`, with `cad` kept beforehand, may
    /// give `r` and leave `code2` and `cad2`.
    spec fn parses(code: Code, cad: Cad<Self>, r: Result<Self, Diag<ErrorType>>, code2: Code, cad2: Cad<Self>) -> bool;

    /// The number of the kind of construct this is.
    fn construct() -> (r: usize)
        ensures
            r == Self::kind(),
    ;

    /// A copy of the item.
    fn duplicate(&self) -> (r: Self)
        ensures
            r == *self,
    ;

    /// Recognizes the item at the cursor of `code` from scratch.
    fn parse2(code: &mut Code, cad: &mut Cad<Self>) -> (r: Result<Self, Diag<ErrorType>>)
        requires
            old(code).wf(),
            cache_fits(&*old(cad)),
        ensures
            Self::parses(*old(code), *old(cad), r, *final(code), *final(cad)),
            final(code).source == old(code).source,
            cache_fits(&*final(cad)),
            advances(old(code).cursor, r),
    ;

    /// Recognizes the item at the cursor of `code`, looking first at what was recognized there
    /// already.
    fn recog(code: &mut Code, cad: &mut Cad<Self>) -> (r: Result<Self, Diag<ErrorType>>)
        requires
            old(code).wf(),
            cache_fits(&*old(cad)),
        ensures
            match latest_fail(old(cad).cache.fails@, (Self::kind(), old(code).cursor)) {
                Some(d) => {
                    &&& r matches Err(e) && e@ == d@
                    &&& *final(code) == *old(code)
                    &&& *final(cad) == *old(cad)
                },
                None => match first_pass(old(cad).cache.pass@, Self::kind(), old(code).cursor) {
                    Some(item) => {
                        &&& r == Ok::<Self, Diag<ErrorType>>(item)
                        &&& final(code).source == old(code).source
                        &&& final(code).cursor == item.spec_slice().1 + 1
                        &&& *final(cad) == *old(cad)
                    },
                    None => Self::parses(*old(code), *old(cad), r, *final(code), *final(cad)),
                },
            },
            final(code).source == old(code).source,
            cache_fits(&*final(cad)),
            advances(old(code).cursor, r),
    {
        let kind = Self::construct();
        let at = code.cursor;
        if let Some(d) = cad.cache.check_fail(kind, at) {
            let e = d.duplicate();
            proof {
                lemma_latest_fail_in(cad.cache.fails@, (kind, at));
                let k = choose|k: int| 0 <= k < cad.cache.fails@.len() && #[trigger] cad.cache.fails@[k] == ((kind, at), *d);
                assert(cad.cache.fails@[k].0.1 <= cad.cache.fails@[k].1.slice@.end < usize::MAX);
            }
            return Err(e);
        }
        if let Some((j, item)) = cad.cache.check_pass(kind, at) {
            let v = item.duplicate();
            assert(cad.cache.pass@[j as int].items@[cad.cache.pass@[j as int].index as int].2 == v);
            assert(at <= v.spec_slice().1 < usize::MAX);
            let end = *v.slice().end();
            code.cursor = end + 1;
            return Ok(v);
        }
        Self::parse2(code, cad)
    }
}

/// Whether recognizing an item of kind `T` at the cursor of `code`, with `cad` kept beforehand,
/// gives `r` and leaves `code2` and `cad2`, as `Recog::recog` states it: the error recorded for that kind and position, if
/// any, with nothing changed; else the next item of the first list of items taken note of that
/// was recognized as that kind there, with the cursor just past it; else what recognizing from
/// scratch gives.
pub open spec fn recognized<T: Recog>(code: Code, cad: Cad<T>, r: Result<T, Diag<ErrorType>>, code2: Code, cad2: Cad<T>) -> bool {
    match latest_fail(cad.cache.fails@, (T::kind(), code.cursor)) {
        Some(d) => {
            &&& r matches Err(e) && e@ == d@
            &&& code2 == code
            &&& cad2 == cad
        },
        None => match first_pass(cad.cache.pass@, T::kind(), code.cursor) {
            Some(item) => {
                &&& r == Ok::<T, Diag<ErrorType>>(item)
                &&& code2.source == code.source
                &&& code2.cursor == item.spec_slice().1 + 1
                &&& cad2 == cad
            },
            None => T::parses(code, cad, r, code2, cad2),
        },
    }
}

/// The error recorded for a key, when no other error is recorded for it, is the one
/// `latest_fail` gives.
proof fn lemma_latest_fail_unique<E>(fails: Seq<((usize, usize), Diag<E>)>, k: int)
    requires
        0 <= k < fails.len(),
        forall|i: int, j: int| 0 <= i < j < fails.len() ==> #[trigger] fails[i].0 != #[trigger] fails[j].0,
    ensures
        latest_fail(fails, fails[k].0) == Some(fails[k].1),
    decreases fails.len(),
{
    if k < fails.len() - 1 {
        assert(fails[k].0 != fails[fails.len() - 1].0);
        assert(fails.drop_last()[k] == fails[k]);
        assert forall|i: int, j: int| 0 <= i < j < fails.drop_last().len() implies #[trigger] fails.drop_last()[i].0
            != #[trigger] fails.drop_last()[j].0 by {
            assert(fails.drop_last()[i] == fails[i] && fails.drop_last()[j] == fails[j]);
        }
        lemma_latest_fail_unique(fails.drop_last(), k);
    }
}

/// An error recorded for a kind of item and a position is what recognizing that kind there gives
/// back, with the code and what was kept left as they were.
pub proof fn law_recorded_failure_returns<T: Recog>(
    code: Code,
    cad: Cad<T>,
    d: Diag<ErrorType>,
    r: Result<T, Diag<ErrorType>>,
    code2: Code,
    cad2: Cad<T>,
)
    requires
        cad.cache.wf(),
        cad.cache.fails@.contains(((T::kind(), code.cursor), d)),
        recognized::<T>(code, cad, r, code2, cad2),
    ensures
        r matches Err(e) && e@ == d@,
        code2 == code,
        cad2 == cad,
{
    let k = choose|k: int| 0 <= k < cad.cache.fails@.len() && cad.cache.fails@[k] == ((T::kind(), code.cursor), d);
    lemma_latest_fail_unique(cad.cache.fails@, k);
}

/// The error `latest_fail` gives is one of those recorded for the key.
proof fn lemma_latest_fail_in<E>(fails: Seq<((usize, usize), Diag<E>)>, key: (usize, usize))
    ensures
        latest_fail(fails, key) matches Some(d) ==> exists|k: int|
            0 <= k < fails.len() && #[trigger] fails[k] == (key, d),
    decreases fails.len(),
{
    if fails.len() > 0 {
        if fails.last().0 == key {
            assert(fails[fails.len() - 1] == (key, fails.last().1));
        } else {
            lemma_latest_fail_in(fails.drop_last(), key);
            if latest_fail(fails, key) is Some {
                let d = latest_fail(fails, key).unwrap();
                let k = choose|k: int| 0 <= k < fails.drop_last().len() && #[trigger] fails.drop_last()[k] == (key, d);
                assert(fails[k] == (key, d));
            }
        }
    }
}

/// One step of recognizing items one after another: the code and what was kept before it, what
/// recognizing gave, and the code and what was kept right after recognizing.
pub struct Step<T> {
    pub code: Code,
    pub cad: Cad<T>,
    pub result: Result<T, Diag<ErrorType>>,
    pub code_after: Code,
    pub cad_after: Cad<T>,
}

/// What a step leaves for the next one. After an item, the lists of items taken note of are
/// emptied and the cursor stands just past the item. After an error, of the errors recorded
/// and that one, the one that reaches furthest (as `Cache::check` picks it) is added to the
/// errors found and the cursor stands just past it.
pub open spec fn settles<T: Slicable>(s: Step<T>, code: Code, cad: Cad<T>) -> bool {
    &&& code.source == s.code.source
    &&& cad.cursor == s.cad_after.cursor
    &&& cad.warnings == s.cad_after.warnings
    &&& cad.cache.fails == s.cad_after.cache.fails
    &&& match s.result {
        Ok(v) => {
            &&& code.cursor == v.spec_slice().1 + 1
            &&& cad.cache.pass@.len() == 0
            &&& cad.errors == s.cad_after.errors
        },
        Err(e) => {
            let kept = last_furthest(recorded(s.cad_after.cache.fails@).push(e));
            &&& code.cursor == kept.slice@.end + 1
            &&& cad.cache.pass == s.cad_after.cache.pass
            &&& cad.errors@.len() == s.cad_after.errors@.len() + 1
            &&& cad.errors@.drop_last() == s.cad_after.errors@
            &&& cad.errors@.last()@ == kept@
        },
    }
}

/// Whether the steps `trace`, starting from `code0` and `cad0`, lead to `code` and `cad` and give
/// the items `out`: each step starts where the one before left off, at a cursor short of the end
/// of the code, recognizes an item of kind `T` there as `Recog::recog` does, and settles as
/// `settles` says; the items recognized are those given, in order.
pub open spec fn walked<T: Recog>(trace: Seq<Step<T>>, code0: Code, cad0: Cad<T>, code: Code, cad: Cad<T>, out: Seq<T>) -> bool
    decreases trace.len(),
{
    if trace.len() == 0 {
        &&& code == code0
        &&& cad == cad0
        &&& out.len() == 0
    } else {
        let s = trace.last();
        &&& s.code.cursor < s.code.len_spec()
        &&& recognized::<T>(s.code, s.cad, s.result, s.code_after, s.cad_after)
        &&& settles(s, code, cad)
        &&& match s.result {
            Ok(v) => {
                &&& out.len() > 0
                &&& out.last() == v
                &&& walked(trace.drop_last(), code0, cad0, s.code, s.cad, out.drop_last())
            },
            Err(_) => walked(trace.drop_last(), code0, cad0, s.code, s.cad, out),
        }
    }
}

/// Recognizes items of kind `T` one after another from the cursor of `code` to its end. After
/// each item, the lists of items taken note of are emptied and the cursor moves just past the
/// item; after each error, the error that reaches furthest of those recorded and that one is
/// added to the errors found, and the cursor moves just past it.
pub fn items<T: Recog>(code: &mut Code, cad: &mut Cad<T>) -> (r: Vec<T>)
    requires
        old(code).wf(),
        cache_fits(&*old(cad)),
    ensures
        final(code).source == old(code).source,
        final(code).cursor >= final(code).len_spec(),
        cache_fits(&*final(cad)),
        exists|trace: Seq<Step<T>>| walked(trace, *old(code), *old(cad), *final(code), *final(cad), r@),
{
    let ghost code0 = *code;
    let ghost cad0 = *cad;
    let ghost mut trace: Seq<Step<T>> = Seq::empty();
    let mut vec: Vec<T> = Vec::new();
    while code.cursor < code.len()
        invariant
            code.wf(),
            code.source == code0.source,
            cache_fits(&*cad),
            walked(trace, code0, cad0, *code, *cad, vec@),
        decreases usize::MAX - code.cursor,
    {
        let at = code.cursor;
        let ghost code_before = *code;
        let ghost cad_before = *cad;
        let ghost out_before = vec@;
        let r = T::recog(code, cad);
        let ghost code_after = *code;
        let ghost cad_after = *cad;
        let ghost step = Step { code: code_before, cad: cad_before, result: r, code_after, cad_after };
        match r {
            Ok(v) => {
                cad.cache.pass.clear();
                let end = *v.slice().end();
                code.cursor = end + 1;
                vec.push(v);
            },
            Err(e) => {
                proof {
                    lemma_last_furthest(recorded(cad.cache.fails@).push(e));
                    let all = recorded(cad.cache.fails@).push(e);
                    let k = choose|k: int| 0 <= k < all.len() && all[k] == last_furthest(all);
                    assert(all[all.len() - 1] == e);
                    if k < all.len() - 1 {
                        assert(all[k] == cad.cache.fails@[k].1);
                        assert(cad.cache.fails@[k].0.1 <= cad.cache.fails@[k].1.slice@.end < usize::MAX);
                    }
                }
                let kept = cad.cache.furthest(e);
                let end = *kept.slice.end();
                code.cursor = end + 1;
                cad.errors.push(kept);
                assert(cad.errors@.drop_last() =~= cad_after.errors@);
            },
        }
        proof {
            assert(trace.push(step).last() == step);
            assert(trace.push(step).drop_last() =~= trace);
            if r is Ok {
                assert(vec@.drop_last() =~= out_before);
            }
            trace = trace.push(step);
        }
    }
    assert(walked(trace, code0, cad0, *code, *cad, vec@));
    vec
}

} // verus!
