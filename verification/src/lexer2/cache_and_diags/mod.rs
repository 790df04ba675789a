pub mod diag;

use diag::Diag;
use vstd::prelude::*;

verus! {

/// Items recognized one after another, and how many of them have been taken back from the list.
pub struct PassList<P> {
    pub index: usize,
    pub items: Vec<P>,
}

impl<P> PassList<P> {
    /// The list of `items`, none of them taken back yet.
    pub fn new(items: Vec<P>) -> (r: Self)
        ensures
            r.index == 0,
            r.items@ == items@,
    {
        PassList { index: 0, items }
    }

    /// The next item to take back.
    pub fn get(&self) -> (r: &P)
        requires
            self.index < self.items@.len(),
        ensures
            *r == self.items@[self.index as int],
    {
        &self.items[self.index]
    }
}

/// Data, and the position it was found at, if any.
pub struct PosS<T> {
    pub cursor: Option<usize>,
    pub data: T,
}

impl<T> Default for PosS<Vec<T>> {
    fn default() -> (r: Self)
        ensures
            r.cursor is None,
            r.data@ == Seq::<T>::empty(),
    {
        PosS { cursor: None, data: Vec::new() }
    }
}

/// The last of the errors `s` whose slice ends furthest (`s` must not be empty).
pub open spec fn last_furthest<E>(s: Seq<Diag<E>>) -> Diag<E>
    decreases s.len(),
{
    if s.len() <= 1 {
        s[0]
    } else if s.last().slice@.end >= last_furthest(s.drop_last()).slice@.end {
        s.last()
    } else {
        last_furthest(s.drop_last())
    }
}

/// The errors recorded, without what they were recorded for.
pub open spec fn recorded<C, E>(fails: Seq<((C, usize), Diag<E>)>) -> Seq<Diag<E>> {
    fails.map_values(|f: ((C, usize), Diag<E>)| f.1)
}

/// What was recognized already: the lists of items that were recognized, and the errors met,
/// each with the kind `C` of construct looked for and the position it was looked for at.
pub struct Cache<C, P, E> {
    pub pass: Vec<PassList<P>>,
    pub fails: Vec<((C, usize), Diag<E>)>,
}

impl<C, P, E> Cache<C, P, E> {
    /// No kind and position has two errors recorded: the errors are a map from them.
    pub open spec fn wf(&self) -> bool {
        forall|i: int, j: int|
            0 <= i < j < self.fails@.len() ==> #[trigger] self.fails@[i].0 != #[trigger] self.fails@[j].0
    }

    /// A cache with nothing in it.
    pub fn new() -> (r: Self)
        ensures
            r.pass@.len() == 0,
            r.fails@.len() == 0,
            r.wf(),
    {
        Cache { pass: Vec::new(), fails: Vec::new() }
    }

    /// Forgets everything.
    pub fn clear(&mut self)
        ensures
            final(self).pass@.len() == 0,
            final(self).fails@.len() == 0,
            final(self).wf(),
    {
        self.pass.clear();
        self.fails.clear();
    }

    /// Of the errors recorded and `e`, the one that reaches furthest; of those that reach
    /// equally far, the last, so `e` itself when nothing recorded reaches further.
    pub fn check(self, e: Diag<E>) -> (r: Diag<E>)
        ensures
            r == last_furthest(recorded(self.fails@).push(e)),
    {
        let ghost all = recorded(self.fails@);
        let mut fails = self.fails;
        let n = fails.len();
        if n == 0 {
            assert(all.push(e).len() == 1);
            return e;
        }
        let mut best: usize = 0;
        let mut i: usize = 1;
        assert(all.take(1).len() == 1);
        while i < n
            invariant
                0 < i <= n,
                n == fails@.len(),
                all == recorded(fails@),
                best < i,
                fails@[best as int].1 == last_furthest(all.take(i as int)),
            decreases n - i,
        {
            assert(all.take(i + 1).drop_last() =~= all.take(i as int));
            assert(all.take(i + 1).last() == fails@[i as int].1);
            if *fails[i].1.slice.end() >= *fails[best].1.slice.end() {
                best = i;
            }
            i = i + 1;
        }
        assert(all.take(n as int) =~= all);
        assert(all.push(e).drop_last() =~= all);
        if *e.slice.end() >= *fails[best].1.slice.end() {
            e
        } else {
            fails.remove(best).1
        }
    }
}

impl<C, P, E: Copy> Cache<C, P, E> {
    /// A copy of what `check` gives, the cache kept as it is.
    pub fn furthest(&self, e: Diag<E>) -> (r: Diag<E>)
        ensures
            r@ == last_furthest(recorded(self.fails@).push(e))@,
    {
        let ghost all = recorded(self.fails@);
        let n = self.fails.len();
        if n == 0 {
            assert(all.push(e).len() == 1);
            return e;
        }
        let mut best: usize = 0;
        let mut i: usize = 1;
        assert(all.take(1).len() == 1);
        while i < n
            invariant
                0 < i <= n,
                n == self.fails@.len(),
                all == recorded(self.fails@),
                best < i,
                self.fails@[best as int].1 == last_furthest(all.take(i as int)),
            decreases n - i,
        {
            assert(all.take(i + 1).drop_last() =~= all.take(i as int));
            assert(all.take(i + 1).last() == self.fails@[i as int].1);
            if *self.fails[i].1.slice.end() >= *self.fails[best].1.slice.end() {
                best = i;
            }
            i = i + 1;
        }
        assert(all.take(n as int) =~= all);
        assert(all.push(e).drop_last() =~= all);
        if *e.slice.end() >= *self.fails[best].1.slice.end() {
            e
        } else {
            self.fails[best].1.duplicate()
        }
    }
}

/// Whether the next item to take back from `list` was recognized as `kind` at `pos`.
pub open spec fn next_is<I>(list: PassList<(usize, usize, I)>, kind: usize, pos: usize) -> bool {
    &&& list.index < list.items@.len()
    &&& list.items@[list.index as int].0 == kind
    &&& list.items@[list.index as int].1 == pos
}

/// The error recorded last in `fails` for `key`, if any.
pub open spec fn latest_fail<E>(fails: Seq<((usize, usize), Diag<E>)>, key: (usize, usize)) -> Option<Diag<E>>
    decreases fails.len(),
{
    if fails.len() == 0 {
        None
    } else if fails.last().0 == key {
        Some(fails.last().1)
    } else {
        latest_fail(fails.drop_last(), key)
    }
}

/// The next item to take back from the first of the lists `pass` whose next item was recognized
/// as `kind` at `pos`, if any.
pub open spec fn first_pass<I>(pass: Seq<PassList<(usize, usize, I)>>, kind: usize, pos: usize) -> Option<I>
    decreases pass.len(),
{
    if pass.len() == 0 {
        None
    } else if next_is(pass[0], kind, pos) {
        Some(pass[0].items@[pass[0].index as int].2)
    } else {
        first_pass(pass.drop_first(), kind, pos)
    }
}

/// The error that `last_furthest` picks is one of the errors, and none of them ends further.
pub proof fn lemma_last_furthest<E>(s: Seq<Diag<E>>)
    requires
        s.len() > 0,
    ensures
        s.contains(last_furthest(s)),
        forall|i: int| 0 <= i < s.len() ==> #[trigger] s[i].slice@.end <= last_furthest(s).slice@.end,
    decreases s.len(),
{
    if s.len() > 1 {
        lemma_last_furthest(s.drop_last());
        let m = last_furthest(s.drop_last());
        let k = choose|k: int| 0 <= k < s.drop_last().len() && s.drop_last()[k] == m;
        assert(s[k] == m);
        assert forall|i: int| 0 <= i < s.len() implies #[trigger] s[i].slice@.end <= last_furthest(s).slice@.end by {
            if i < s.len() - 1 {
                assert(s[i] == s.drop_last()[i]);
            }
        }
        if last_furthest(s) == s.last() {
            assert(s[s.len() - 1] == s.last());
        }
    } else {
        assert(s[0] == last_furthest(s));
    }
}

/// Whether `fails2` is `fails` with `d` recorded for `key` in place of what was recorded for it:
/// no key twice, `(key, d)` in it, and the entries for other keys those of `fails`.
pub open spec fn replaces<E>(fails: Seq<((usize, usize), Diag<E>)>, fails2: Seq<((usize, usize), Diag<E>)>, key: (usize, usize), d: Diag<E>) -> bool {
    &&& forall|i: int, j: int| 0 <= i < j < fails2.len() ==> #[trigger] fails2[i].0 != #[trigger] fails2[j].0
    &&& exists|k: int| 0 <= k < fails2.len() && #[trigger] fails2[k] == (key, d)
    &&& forall|k: int| 0 <= k < fails.len() && #[trigger] fails[k].0 != key ==> fails2.contains(fails[k])
    &&& forall|k: int| 0 <= k < fails2.len() && #[trigger] fails2[k].0 != key ==> fails.contains(fails2[k])
}

impl<I, E> Cache<usize, (usize, usize, I), E> {
    /// Records `d` as the error of recognizing `kind` at `pos`, in place of one recorded before.
    pub fn record_fail(&mut self, kind: usize, pos: usize, d: Diag<E>)
        requires
            old(self).wf(),
        ensures
            final(self).wf(),
            final(self).pass == old(self).pass,
            replaces(old(self).fails@, final(self).fails@, (kind, pos), d),
            exists|k: int| 0 <= k < final(self).fails@.len() && #[trigger] final(self).fails@[k] == ((kind, pos), d),
            forall|k: int| 0 <= k < old(self).fails@.len() && #[trigger] old(self).fails@[k].0 != (kind, pos)
                ==> final(self).fails@.contains(old(self).fails@[k]),
            forall|k: int| 0 <= k < final(self).fails@.len() && #[trigger] final(self).fails@[k].0 != (kind, pos)
                ==> old(self).fails@.contains(final(self).fails@[k]),
    {
        let mut j: usize = 0;
        while j < self.fails.len()
            invariant
                j <= self.fails@.len(),
                self.fails == old(self).fails,
                self.pass == old(self).pass,
                self.wf(),
                forall|k: int| 0 <= k < j ==> #[trigger] self.fails@[k].0 != (kind, pos),
            decreases self.fails@.len() - j,
        {
            let key = self.fails[j].0;
            if key.0 == kind && key.1 == pos {
                let ghost before = self.fails@;
                self.fails.set(j, ((kind, pos), d));
                assert(self.fails@ == before.update(j as int, ((kind, pos), d)));
                assert(self.fails@[j as int] == ((kind, pos), d));
                assert forall|k: int| 0 <= k < self.fails@.len() implies #[trigger] self.fails@[k].0
                    == before[k].0 by {}
                assert forall|k: int| 0 <= k < before.len() && #[trigger] before[k].0 != (kind, pos)
                    implies self.fails@.contains(before[k]) by {
                    assert(self.fails@[k] == before[k]);
                }
                assert forall|k: int| 0 <= k < self.fails@.len() && #[trigger] self.fails@[k].0 != (kind, pos)
                    implies before.contains(self.fails@[k]) by {
                    assert(self.fails@[k] == before[k]);
                }
                return;
            }
            j = j + 1;
        }
        let ghost before = self.fails@;
        self.fails.push(((kind, pos), d));
        assert(self.fails@[before.len() as int] == ((kind, pos), d));
        assert forall|k: int| 0 <= k < before.len() && #[trigger] before[k].0 != (kind, pos)
            implies self.fails@.contains(before[k]) by {
            assert(self.fails@[k] == before[k]);
        }
        assert forall|k: int| 0 <= k < self.fails@.len() && #[trigger] self.fails@[k].0 != (kind, pos)
            implies before.contains(self.fails@[k]) by {
            assert(self.fails@[k] == before[k]);
        }
    }

    /// The error recorded last for recognizing `kind` at `pos`, if any.
    pub fn check_fail(&self, kind: usize, pos: usize) -> (r: Option<&Diag<E>>)
        ensures
            match r {
                Some(d) => latest_fail(self.fails@, (kind, pos)) == Some(*d),
                None => latest_fail(self.fails@, (kind, pos)) is None,
            },
    {
        let ghost all = self.fails@;
        assert(all.take(all.len() as int) =~= all);
        let mut j = self.fails.len();
        while j > 0
            invariant
                j <= self.fails@.len(),
                all == self.fails@,
                latest_fail(all, (kind, pos)) == latest_fail(all.take(j as int), (kind, pos)),
            decreases j,
        {
            let key = self.fails[j - 1].0;
            assert(all.take(j as int).last() == all[j - 1]);
            if key.0 == kind && key.1 == pos {
                return Some(&self.fails[j - 1].1);
            }
            assert(all.take(j as int).drop_last() =~= all.take(j - 1));
            j = j - 1;
        }
        None
    }

    /// The first list whose next item to take back was recognized as `kind` at `pos`, with that
    /// item.
    pub fn check_pass(&self, kind: usize, pos: usize) -> (r: Option<(usize, &I)>)
        ensures
            r matches Some(found) ==> found.0 < self.pass@.len() && next_is(
                self.pass@[found.0 as int],
                kind,
                pos,
            ) && *found.1 == self.pass@[found.0 as int].items@[self.pass@[found.0 as int].index as int].2
                && forall|j: int| 0 <= j < found.0 ==> !next_is(#[trigger] self.pass@[j], kind, pos),
            match r {
                Some(found) => first_pass(self.pass@, kind, pos) == Some(*found.1),
                None => first_pass(self.pass@, kind, pos) is None,
            },
    {
        let ghost all = self.pass@;
        assert(all.subrange(0, all.len() as int) =~= all);
        let mut i: usize = 0;
        while i < self.pass.len()
            invariant
                i <= self.pass@.len(),
                all == self.pass@,
                first_pass(all, kind, pos) == first_pass(all.subrange(i as int, all.len() as int), kind, pos),
                forall|j: int| 0 <= j < i ==> !next_is(#[trigger] all[j], kind, pos),
            decreases self.pass@.len() - i,
        {
            let ghost rest = all.subrange(i as int, all.len() as int);
            assert(rest[0] == all[i as int]);
            let list = &self.pass[i];
            if list.index < list.items.len() {
                let item = &list.items[list.index];
                if item.0 == kind && item.1 == pos {
                    return Some((i, &item.2));
                }
            }
            assert(rest.drop_first() =~= all.subrange(i + 1, all.len() as int));
            i = i + 1;
        }
        None
    }
}

/// Everything recognizing keeps track of: the furthest position reached, what was recognized
/// already, the errors found and the warnings raised.
pub struct CacheAndDiags<C, P, E> {
    pub cursor: Option<usize>,
    pub cache: Cache<C, P, E>,
    pub errors: Vec<Diag<E>>,
    pub warnings: PosS<Vec<C>>,
}

impl<C, P, E> Default for CacheAndDiags<C, P, E> {
    fn default() -> (r: Self)
        ensures
            r.cursor is None,
            r.cache.pass@.len() == 0,
            r.cache.fails@.len() == 0,
            r.errors@.len() == 0,
            r.warnings.cursor is None,
            r.warnings.data@.len() == 0,
    {
        CacheAndDiags { cursor: None, cache: Cache::new(), errors: Vec::new(), warnings: PosS::default() }
    }
}

} // verus!
