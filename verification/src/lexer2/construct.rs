use super::cache_and_diags::diag::Diag;
use super::cache_and_diags::{first_pass, next_is, replaces, PassList};
use super::code::Code;
use super::tokens::ErrorType;
use super::{cache_fits, recognized, Cad, Recog, Slicable};
use core::ops::RangeInclusive;
use vstd::prelude::*;

verus! {

/// One element of a construct: the code and what was kept before it, the list of items taken
/// note of that it was taken from, if any, what was found, and what was kept right after.
pub struct Part<T> {
    pub code: Code,
    pub cad: Cad<T>,
    pub from_list: Option<usize>,
    pub result: Result<T, Diag<ErrorType>>,
    pub code_after: Code,
    pub cad_after: Cad<T>,
}

/// The elements recognized from scratch among `parts`, as they are taken note of: kind, position
/// and item.
pub open spec fn pending_of<T: Recog>(parts: Seq<Part<T>>) -> Seq<(usize, usize, T)>
    decreases parts.len(),
{
    if parts.len() == 0 {
        Seq::empty()
    } else {
        let p = parts.last();
        match (p.from_list, p.result) {
            (None, Ok(v)) => pending_of(parts.drop_last()).push((T::kind(), p.code.cursor, v)),
            _ => pending_of(parts.drop_last()),
        }
    }
}

/// The list the elements of `parts` taken from lists came from: the first one such an element
/// came from, as long as none came from another; after one did, the next one taken from a list.
pub open spec fn ptr_of<T>(parts: Seq<Part<T>>) -> Option<usize>
    decreases parts.len(),
{
    if parts.len() == 0 {
        None
    } else {
        match parts.last().from_list {
            Some(j) => match ptr_of(parts.drop_last()) {
                Some(q) => if q != j {
                    None
                } else {
                    Some(q)
                },
                None => Some(j),
            },
            None => ptr_of(parts.drop_last()),
        }
    }
}

/// Everything but the lists of items taken note of is the same in `a` and `b`.
pub open spec fn same_but_pass<T>(a: Cad<T>, b: Cad<T>) -> bool {
    &&& a.cursor == b.cursor
    &&& a.warnings == b.warnings
    &&& a.errors == b.errors
    &&& a.cache.fails == b.cache.fails
}

/// How the element `p` was found: when the first list whose next item was recognized as its
/// kind at its position is list `j`, that item, with list `j` moved on by one; when no such
/// list is there, by recognizing from scratch.
pub open spec fn found<T: Recog>(p: Part<T>) -> bool {
    let pass = p.cad.cache.pass@;
    match p.from_list {
        Some(j) => {
            &&& j < pass.len()
            &&& next_is(pass[j as int], T::kind(), p.code.cursor)
            &&& forall|i: int| 0 <= i < j ==> !next_is(#[trigger] pass[i], T::kind(), p.code.cursor)
            &&& p.result == Ok::<T, Diag<ErrorType>>(pass[j as int].items@[pass[j as int].index as int].2)
            &&& same_but_pass(p.cad, p.cad_after)
            &&& p.cad_after.cache.pass@ == pass.update(
                j as int,
                PassList { index: (pass[j as int].index + 1) as usize, items: pass[j as int].items },
            )
        },
        None => {
            &&& first_pass(pass, T::kind(), p.code.cursor) is None
            &&& T::parses(p.code, p.cad, p.result, p.code_after, p.cad_after)
        },
    }
}

/// Whether the elements `parts`, each found as `found` says, starting from `code0` and `cad0`,
/// lead to `code` and `cad` and give the items `out`: after each element the cursor stands just
/// past it.
pub open spec fn chained<T: Recog>(parts: Seq<Part<T>>, code0: Code, cad0: Cad<T>, code: Code, cad: Cad<T>, out: Seq<T>) -> bool
    decreases parts.len(),
{
    if parts.len() == 0 {
        &&& code == code0
        &&& cad == cad0
        &&& out.len() == 0
    } else {
        let p = parts.last();
        &&& out.len() > 0
        &&& p.result == Ok::<T, Diag<ErrorType>>(out.last())
        &&& found(p)
        &&& code.source == p.code.source
        &&& code.cursor == out.last().spec_slice().1 + 1
        &&& cad == p.cad_after
        &&& chained(parts.drop_last(), code0, cad0, p.code, p.cad, out.drop_last())
    }
}

/// Whether `cad2` is `cad` with the failure of an element kept: the elements recognized from
/// scratch before it, if any, are added to the list the elements taken from lists came from
/// (which starts over), or make a new list when there is no such list; and, when the element
/// was looked for short of the last position there is, its error `d` is recorded for its kind
/// and position.
pub open spec fn kept_failure<T>(
    cad: Cad<T>,
    pending: Seq<(usize, usize, T)>,
    ptr: Option<usize>,
    key: (usize, usize),
    d: Diag<ErrorType>,
    cad2: Cad<T>,
) -> bool {
    let pass = cad.cache.pass@;
    let pass2 = cad2.cache.pass@;
    &&& cad2.cursor == cad.cursor
    &&& cad2.warnings == cad.warnings
    &&& cad2.errors == cad.errors
    &&& if pending.len() == 0 {
        pass2 == pass
    } else if ptr is Some && ptr.unwrap() < pass.len() {
        let q = ptr.unwrap();
        &&& pass2.len() == pass.len()
        &&& forall|i: int| 0 <= i < pass.len() && i != q ==> #[trigger] pass2[i] == pass[i]
        &&& pass2[q as int].index == 0
        &&& pass2[q as int].items@ == pass[q as int].items@ + pending
    } else {
        &&& pass2.len() == pass.len() + 1
        &&& forall|i: int| 0 <= i < pass.len() ==> #[trigger] pass2[i] == pass[i]
        &&& pass2.last().index == 0
        &&& pass2.last().items@ == pending
    }
    &&& if key.1 < usize::MAX {
        replaces(cad.cache.fails@, cad2.cache.fails@, key, d)
    } else {
        cad2.cache.fails == cad.cache.fails
    }
}

/// Keeping the failure of an element keeps the cache fitting.
proof fn lemma_kept_failure_fits<T: Slicable>(
    cad: Cad<T>,
    pending: Seq<(usize, usize, T)>,
    ptr: Option<usize>,
    key: (usize, usize),
    d: Diag<ErrorType>,
    cad2: Cad<T>,
)
    requires
        cache_fits(&cad),
        forall|k: int| 0 <= k < pending.len() ==> {
            let q = #[trigger] pending[k];
            q.1 <= q.2.spec_slice().1 < usize::MAX
        },
        key.1 <= d.slice@.end,
        key.1 < usize::MAX ==> d.slice@.end < usize::MAX,
        kept_failure(cad, pending, ptr, key, d, cad2),
        cad2.cache.wf(),
    ensures
        cache_fits(&cad2),
{
    let fails = cad.cache.fails@;
    let fails2 = cad2.cache.fails@;
    assert forall|k: int| 0 <= k < fails2.len() implies {
        let f = #[trigger] fails2[k];
        f.0.1 <= f.1.slice@.end < usize::MAX
    } by {
        if key.1 < usize::MAX {
            if fails2[k].0 == key {
                let k0 = choose|k0: int| 0 <= k0 < fails2.len() && #[trigger] fails2[k0] == (key, d);
                if k0 != k {
                    if k0 < k {
                        assert(fails2[k0].0 != fails2[k].0);
                    } else {
                        assert(fails2[k].0 != fails2[k0].0);
                    }
                }
            } else {
                assert(fails.contains(fails2[k]));
                let i = choose|i: int| 0 <= i < fails.len() && fails[i] == fails2[k];
                assert(fails[i] == fails2[k]);
            }
        } else {
            assert(fails2[k] == fails[k]);
        }
    }
    let pass = cad.cache.pass@;
    let pass2 = cad2.cache.pass@;
    assert forall|a: int, b: int| 0 <= a < pass2.len() && 0 <= b < pass2[a].items@.len() implies {
        let p = #[trigger] pass2[a].items@[b];
        p.1 <= p.2.spec_slice().1 < usize::MAX
    } by {
        if pending.len() == 0 {
            assert(pass2[a] == pass[a]);
        } else if ptr is Some && ptr.unwrap() < pass.len() {
            let q = ptr.unwrap();
            if a == q {
                if b < pass[q as int].items@.len() {
                    assert(pass2[a].items@[b] == pass[a].items@[b]);
                } else {
                    assert(pass2[a].items@[b] == pending[b - pass[q as int].items@.len()]);
                }
            } else {
                assert(pass2[a] == pass[a]);
            }
        } else {
            if a < pass.len() {
                assert(pass2[a] == pass[a]);
            } else {
                assert(pass2[a] == pass2.last());
                assert(pass2[a].items@[b] == pending[b]);
            }
        }
    }
}

/// Recognizes `n` items of kind `T` one after another, as the elements of a construct. Each
/// element is first taken from the lists of items taken note of (the first list whose next
/// item was recognized as that kind at the cursor, which then moves on by one), and else
/// recognized from scratch. When an element fails, the elements recognized from scratch before
/// it are taken note of, and its error is recorded for its kind and position.
pub fn construct<T: Recog>(code: &mut Code, cad: &mut Cad<T>, n: usize) -> (r: Result<Vec<T>, Diag<ErrorType>>)
    requires
        old(code).wf(),
        cache_fits(&*old(cad)),
    ensures
        final(code).source == old(code).source,
        cache_fits(&*final(cad)),
        match r {
            Ok(items) => exists|parts: Seq<Part<T>>|
                parts.len() == n && #[trigger] chained(parts, *old(code), *old(cad), *final(code), *final(cad), items@),
            Err(e) => exists|parts: Seq<Part<T>>, out: Seq<T>, p: Part<T>| {
                &&& #[trigger] chained(parts, *old(code), *old(cad), p.code, p.cad, out)
                &&& parts.len() < n
                &&& p.from_list is None
                &&& found(p)
                &&& p.result matches Err(d) && d@ == e@ && kept_failure(
                    p.cad_after,
                    pending_of(parts),
                    ptr_of(parts),
                    (T::kind(), p.code.cursor),
                    d,
                    *final(cad),
                )
                &&& *final(code) == p.code_after
            },
        },
{
    let kind = T::construct();
    let ghost code0 = *code;
    let ghost cad0 = *cad;
    let ghost mut parts: Seq<Part<T>> = Seq::empty();
    let mut out: Vec<T> = Vec::new();
    let mut pending: Vec<(usize, usize, T)> = Vec::new();
    let mut ptr: Option<usize> = None;
    let mut i: usize = 0;
    while i < n
        invariant
            i <= n,
            code0 == *old(code),
            cad0 == *old(cad),
            parts.len() == i,
            kind == T::kind(),
            code.wf(),
            code.source == code0.source,
            cache_fits(&*cad),
            chained(parts, code0, cad0, *code, *cad, out@),
            pending@ == pending_of(parts),
            ptr == ptr_of(parts),
            forall|k: int| 0 <= k < pending@.len() ==> {
                let q = #[trigger] pending@[k];
                q.1 <= q.2.spec_slice().1 < usize::MAX
            },
        decreases n - i,
    {
        let at = code.cursor;
        let ghost code_before = *code;
        let ghost cad_before = *cad;
        let ghost out_before = out@;
        let ghost pending_before = pending@;
        match cad.cache.check_pass(kind, at) {
            Some((j, item)) => {
                let v = item.duplicate();
                let end = *v.slice().end();
                assert(at <= v.spec_slice().1 < usize::MAX);
                ptr = match ptr {
                    Some(q) => if q != j {
                        None
                    } else {
                        Some(q)
                    },
                    None => Some(j),
                };
                let ghost list = cad.cache.pass@[j as int];
                let len_j = cad.cache.pass[j].items.len();
                assert(list.index < len_j);
                let next = cad.cache.pass[j].index + 1;
                cad.cache.pass[j].index = next;
                assert(cad.cache.pass@ =~= cad_before.cache.pass@.update(
                    j as int,
                    PassList { index: next, items: list.items },
                ));
                assert forall|a: int, b: int|
                    0 <= a < cad.cache.pass@.len() && 0 <= b < cad.cache.pass@[a].items@.len() implies {
                    let p = #[trigger] cad.cache.pass@[a].items@[b];
                    p.1 <= p.2.spec_slice().1 < usize::MAX
                } by {
                    assert(cad.cache.pass@[a].items@ == cad_before.cache.pass@[a].items@);
                    assert(cad_before.cache.pass@[a].items@[b] == cad.cache.pass@[a].items@[b]);
                }
                code.cursor = end + 1;
                let ghost part = Part {
                    code: code_before,
                    cad: cad_before,
                    from_list: Some(j),
                    result: Ok(v),
                    code_after: *code,
                    cad_after: *cad,
                };
                out.push(v);
                proof {
                    assert(parts.push(part).drop_last() =~= parts);
                    assert(out@.drop_last() =~= out_before);
                    parts = parts.push(part);
                }
            },
            None => {
                let ghost first = first_pass(cad.cache.pass@, kind, at);
                match T::parse2(code, cad) {
                    Ok(v) => {
                        let ghost code_after = *code;
                        let ghost cad_after = *cad;
                        let end = *v.slice().end();
                        pending.push((kind, at, v.duplicate()));
                        code.cursor = end + 1;
                        let ghost part = Part {
                            code: code_before,
                            cad: cad_before,
                            from_list: None,
                            result: Ok(v),
                            code_after,
                            cad_after,
                        };
                        out.push(v);
                        proof {
                            assert(parts.push(part).drop_last() =~= parts);
                            assert(out@.drop_last() =~= out_before);
                            assert(pending@ =~= pending_before.push((kind, at, v)));
                            parts = parts.push(part);
                        }
                    },
                    Err(e) => {
                        let ghost code_after = *code;
                        let ghost cad_after = *cad;
                        let ghost part = Part {
                            code: code_before,
                            cad: cad_before,
                            from_list: None,
                            result: Err(e),
                            code_after,
                            cad_after,
                        };
                        if pending.len() > 0 {
                            match ptr {
                                Some(q) if q < cad.cache.pass.len() => {
                                    let ghost before = cad.cache.pass@;
                                    cad.cache.pass[q].index = 0;
                                    cad.cache.pass[q].items.append(&mut pending);
                                    assert forall|i: int| 0 <= i < before.len() && i != q implies #[trigger] cad.cache.pass@[i]
                                        == before[i] by {}
                                },
                                _ => {
                                    cad.cache.pass.push(PassList::new(pending));
                                },
                            }
                        }
                        let ret = e.duplicate();
                        let ghost cad_kept = *cad;
                        if at < usize::MAX {
                            cad.cache.record_fail(kind, at, e);
                        }
                        proof {
                            assert(kept_failure(cad_after, pending_before, ptr, (kind, at), e, *cad));
                            lemma_kept_failure_fits(cad_after, pending_before, ptr, (kind, at), e, *cad);
                        }
                        assert(chained(parts, code0, cad0, part.code, part.cad, out@));
                        return Err(ret);
                    },
                }
            },
        }
        i = i + 1;
    }
    let r: Result<Vec<T>, Diag<ErrorType>> = Ok(out);
    assert(r matches Ok(items) && exists|ps: Seq<Part<T>>|
        ps.len() == n && #[trigger] chained(ps, *old(code), *old(cad), *code, *cad, items@)) by {
        assert(parts.len() == n);
        assert(chained(parts, *old(code), *old(cad), *code, *cad, r->Ok_0@));
    }
    r
}

/// One of two kinds of item.
pub enum Alt<A, B> {
    First(A),
    Second(B),
}

impl<A: Slicable, B: Slicable> Slicable for Alt<A, B> {
    open spec fn spec_slice(&self) -> (int, int) {
        match self {
            Alt::First(a) => a.spec_slice(),
            Alt::Second(b) => b.spec_slice(),
        }
    }

    fn slice(&self) -> (r: RangeInclusive<usize>) {
        match self {
            Alt::First(a) => a.slice(),
            Alt::Second(b) => b.slice(),
        }
    }
}

/// Recognizes an item of kind `A` or, failing that, of kind `B` at the cursor of `code`, each as
/// `Recog::recog` does from the cursor as it was: the first that is recognized, with the cursor
/// just past it, or else the errors of both, in that order, with the cursor where it was.
pub fn alternative<A: Recog, B: Recog>(code: &mut Code, cad_a: &mut Cad<A>, cad_b: &mut Cad<B>) -> (r: Result<Alt<A, B>, (Diag<ErrorType>, Diag<ErrorType>)>)
    requires
        old(code).wf(),
        cache_fits(&*old(cad_a)),
        cache_fits(&*old(cad_b)),
    ensures
        final(code).source == old(code).source,
        cache_fits(&*final(cad_a)),
        cache_fits(&*final(cad_b)),
        exists|ra: Result<A, Diag<ErrorType>>, code_a: Code|
            #[trigger] recognized::<A>(*old(code), *old(cad_a), ra, code_a, *final(cad_a)) && match ra {
                Ok(a) => {
                    &&& r == Ok::<Alt<A, B>, (Diag<ErrorType>, Diag<ErrorType>)>(Alt::First(a))
                    &&& final(code).cursor == a.spec_slice().1 + 1
                    &&& *final(cad_b) == *old(cad_b)
                },
                Err(ea) => exists|rb: Result<B, Diag<ErrorType>>, code_b: Code|
                    #[trigger] recognized::<B>(*old(code), *old(cad_b), rb, code_b, *final(cad_b)) && match rb {
                        Ok(b) => {
                            &&& r == Ok::<Alt<A, B>, (Diag<ErrorType>, Diag<ErrorType>)>(Alt::Second(b))
                            &&& final(code).cursor == b.spec_slice().1 + 1
                        },
                        Err(eb) => {
                            &&& r == Err::<Alt<A, B>, (Diag<ErrorType>, Diag<ErrorType>)>((ea, eb))
                            &&& final(code).cursor == old(code).cursor
                        },
                    },
            },
{
    let at = code.cursor;
    let ghost code0 = *code;
    let ghost cad_b0 = *cad_b;
    let first = A::recog(code, cad_a);
    let ghost ra = first;
    let ghost code_a = *code;
    assert(recognized::<A>(code0, *old(cad_a), ra, code_a, *cad_a));
    match first {
        Ok(a) => {
            let end = *a.slice().end();
            code.cursor = end + 1;
            Ok(Alt::First(a))
        },
        Err(ea) => {
            code.cursor = at;
            assert(*code == code0);
            let second = B::recog(code, cad_b);
            let ghost rb = second;
            let ghost code_b = *code;
            assert(recognized::<B>(code0, cad_b0, rb, code_b, *cad_b));
            match second {
                Ok(b) => {
                    let end = *b.slice().end();
                    code.cursor = end + 1;
                    Ok(Alt::Second(b))
                },
                Err(eb) => {
                    code.cursor = at;
                    Err((ea, eb))
                },
            }
        },
    }
}

} // verus!
