use vstd::prelude::*;
use vstd::std_specs::iter::IteratorSpec;

verus! {

/// A diagnostic and the position it was raised at.
pub type Diag<T> = (usize, T);

/// The diagnostics of a parse: only those raised at the furthest position are kept,
/// in the order they were raised.
#[derive(PartialEq, Debug)]
pub struct Diags<T> {
    pub errors: Vec<T>,
    pub pos: Option<usize>,
    pub warrnings: Vec<()>,
}

/// Mathematical model of `Diags`: the furthest position reached and the diagnostics raised there.
pub struct DiagsView<T> {
    pub pos: Option<int>,
    pub errors: Seq<T>,
}

pub open spec fn opt_int(o: Option<usize>) -> Option<int> {
    match o {
        Some(p) => Some(p as int),
        None => None,
    }
}

/// The positions of a list of raised diagnostics, as integers.
pub open spec fn pairs_view<T>(s: Seq<Diag<T>>) -> Seq<(int, T)> {
    s.map_values(|d: Diag<T>| (d.0 as int, d.1))
}

impl<T> DiagsView<T> {
    pub open spec fn empty() -> Self {
        DiagsView { pos: None, errors: Seq::empty() }
    }

    /// Exactly the diagnostic `e`, raised at `p`.
    pub open spec fn single(p: int, e: T) -> Self {
        DiagsView { pos: Some(p), errors: seq![e] }
    }

    /// A position is known exactly when some diagnostic was raised.
    pub open spec fn wf(self) -> bool {
        &&& (self.pos is None) == (self.errors.len() == 0)
        &&& self.pos matches Some(p) ==> p >= 0
    }

    /// Raising `e` at `p`: a further position replaces what was kept, the same position adds to
    /// it, an earlier one is ignored.
    pub open spec fn push(self, p: int, e: T) -> Self {
        match self.pos {
            None => Self::single(p, e),
            Some(q) => if p > q {
                Self::single(p, e)
            } else if p == q {
                DiagsView { pos: Some(q), errors: self.errors.push(e) }
            } else {
                self
            },
        }
    }

    /// Taking in the diagnostics of another parse.
    pub open spec fn merge(self, o: Self) -> Self {
        match o.pos {
            None => self,
            Some(p) => match self.pos {
                None => o,
                Some(q) => if p > q {
                    o
                } else if p == q {
                    DiagsView { pos: Some(q), errors: self.errors + o.errors }
                } else {
                    self
                },
            },
        }
    }

    /// The diagnostics kept from raising the pairs of `s` in order, starting from none.
    pub open spec fn from_pairs(s: Seq<(int, T)>) -> Self
        decreases s.len(),
    {
        if s.len() == 0 {
            Self::empty()
        } else {
            Self::from_pairs(s.drop_last()).push(s.last().0, s.last().1)
        }
    }

    /// The same diagnostics, each wrapped by `f`.
    pub open spec fn map<U>(self, f: spec_fn(T) -> U) -> DiagsView<U> {
        DiagsView { pos: self.pos, errors: self.errors.map_values(f) }
    }
}

/// Taking in diagnostics in two steps keeps what taking them in at once keeps.
pub proof fn lemma_merge_assoc<T>(a: DiagsView<T>, b: DiagsView<T>, c: DiagsView<T>)
    ensures
        a.merge(b).merge(c) == a.merge(b.merge(c)),
        a.wf() && b.wf() ==> a.merge(b).wf(),
{
    assert((a.errors + b.errors) + c.errors =~= a.errors + (b.errors + c.errors));
}

/// The furthest position at which a diagnostic of `s` was raised (`s` must not be empty).
pub open spec fn furthest<T>(s: Seq<(int, T)>) -> int
    decreases s.len(),
{
    if s.len() <= 1 {
        s[0].0
    } else if s.last().0 > furthest(s.drop_last()) {
        s.last().0
    } else {
        furthest(s.drop_last())
    }
}

/// The diagnostics of `s` raised at position `p`, in the order they were raised.
pub open spec fn raised_at<T>(s: Seq<(int, T)>, p: int) -> Seq<T>
    decreases s.len(),
{
    if s.len() == 0 {
        Seq::empty()
    } else if s.last().0 == p {
        raised_at(s.drop_last(), p).push(s.last().1)
    } else {
        raised_at(s.drop_last(), p)
    }
}

/// Raising the diagnostics of `s` one at a time on top of `d`.
pub open spec fn push_all<T>(d: DiagsView<T>, s: Seq<(int, T)>) -> DiagsView<T>
    decreases s.len(),
{
    if s.len() == 0 {
        d
    } else {
        push_all(d, s.drop_last()).push(s.last().0, s.last().1)
    }
}

proof fn lemma_furthest_bounds<T>(s: Seq<(int, T)>)
    requires
        s.len() > 0,
    ensures
        forall|i: int| 0 <= i < s.len() ==> #[trigger] s[i].0 <= furthest(s),
    decreases s.len(),
{
    if s.len() > 1 {
        lemma_furthest_bounds(s.drop_last());
        assert forall|i: int| 0 <= i < s.len() implies #[trigger] s[i].0 <= furthest(s) by {
            if i < s.len() - 1 {
                assert(s[i] == s.drop_last()[i]);
            }
        }
    }
}

proof fn lemma_raised_beyond<T>(s: Seq<(int, T)>, p: int)
    requires
        forall|i: int| 0 <= i < s.len() ==> #[trigger] s[i].0 < p,
    ensures
        raised_at(s, p) == Seq::<T>::empty(),
    decreases s.len(),
{
    if s.len() > 0 {
        assert forall|i: int| 0 <= i < s.drop_last().len() implies #[trigger] s.drop_last()[i].0 < p by {
            assert(s.drop_last()[i] == s[i]);
        }
        lemma_raised_beyond(s.drop_last(), p);
    }
}

/// Raising diagnostics one after another keeps exactly those raised at the furthest position,
/// in the order they were raised, and that position; nothing is kept when nothing was raised.
pub proof fn law_keeps_furthest<T>(s: Seq<(int, T)>)
    ensures
        s.len() == 0 ==> DiagsView::from_pairs(s) == DiagsView::<T>::empty(),
        s.len() > 0 ==> DiagsView::from_pairs(s) == (DiagsView {
            pos: Some(furthest(s)),
            errors: raised_at(s, furthest(s)),
        }),
    decreases s.len(),
{
    if s.len() == 1 {
        assert(s.drop_last().len() == 0);
        assert(raised_at(s.drop_last(), s[0].0) =~= Seq::<T>::empty());
        assert(s.last() == s[0]);
        assert(raised_at(s, s[0].0) =~= seq![s[0].1]);
    } else if s.len() > 1 {
        let dl = s.drop_last();
        law_keeps_furthest(dl);
        lemma_furthest_bounds(dl);
        let m = furthest(dl);
        let p = s.last().0;
        if p > m {
            lemma_raised_beyond(dl, p);
            assert(raised_at(s, p) =~= seq![s.last().1]);
        }
    }
}

proof fn lemma_merge_push<T>(d: DiagsView<T>, b: DiagsView<T>, p: int, e: T)
    ensures
        d.merge(b.push(p, e)) == d.merge(b).push(p, e),
{
    match (d.pos, b.pos) {
        (Some(q), Some(r)) => {
            if p == r && r == q {
                assert((d.errors + b.errors).push(e) =~= d.errors + b.errors.push(e));
            } else if p > r && p == q {
                assert(d.errors.push(e) =~= d.errors + seq![e]);
            }
        },
        (Some(q), None) => {
            if p == q {
                assert(d.errors.push(e) =~= d.errors + seq![e]);
            }
        },
        _ => {},
    }
}

/// Taking in a batch of diagnostics keeps what raising them one at a time keeps.
pub proof fn law_merge_batch<T>(d: DiagsView<T>, s: Seq<(int, T)>)
    ensures
        d.merge(DiagsView::from_pairs(s)) == push_all(d, s),
    decreases s.len(),
{
    if s.len() > 0 {
        law_merge_batch(d, s.drop_last());
        lemma_merge_push(d, DiagsView::from_pairs(s.drop_last()), s.last().0, s.last().1);
    }
}

/// Taking in no diagnostics changes nothing, and taking diagnostics into none keeps them.
pub proof fn law_merge_empty<T>(d: DiagsView<T>)
    requires
        d.wf(),
    ensures
        d.merge(DiagsView::empty()) == d,
        DiagsView::empty().merge(d) == d,
{
}

impl<T> View for Diags<T> {
    type V = DiagsView<T>;

    open spec fn view(&self) -> DiagsView<T> {
        DiagsView { pos: opt_int(self.pos), errors: self.errors@ }
    }
}

pub proof fn lemma_from_pairs_wf<T>(s: Seq<(int, T)>)
    requires
        forall|i: int| 0 <= i < s.len() ==> #[trigger] s[i].0 >= 0,
    ensures
        DiagsView::from_pairs(s).wf(),
    decreases s.len(),
{
    if s.len() > 0 {
        lemma_from_pairs_wf(s.drop_last());
    }
}

/// Wraps each diagnostic of `v` with `f`.
pub fn wrap_all<U, T>(v: Vec<U>, f: impl Fn(U) -> T) -> (r: Vec<T>)
    requires
        forall|u: U| #[trigger] f.requires((u,)),
    ensures
        r@.len() == v@.len(),
        forall|i: int| 0 <= i < v@.len() ==> #[trigger] f.ensures((v@[i],), r@[i]),
{
    let mut r: Vec<T> = Vec::new();
    for u in it: v.into_iter()
        invariant
            forall|u: U| #[trigger] f.requires((u,)),
            r@.len() == it.index(),
            it.seq() == v@,
            forall|i: int| 0 <= i < r@.len() ==> #[trigger] f.ensures((v@[i],), r@[i]),
    {
        r.push(f(u));
    }
    r
}

impl<T> Default for Diags<T> {
    fn default() -> (r: Self)
        ensures
            r@ == DiagsView::<T>::empty(),
            r.warrnings@.len() == 0,
    {
        Diags { errors: Vec::new(), pos: None, warrnings: Vec::new() }
    }
}

impl<T> Diags<T> {
    /// The diagnostics kept from raising `errors` in order.
    pub fn from_errors(errors: Vec<Diag<T>>) -> (r: Self)
        ensures
            r@ == DiagsView::from_pairs(pairs_view(errors@)),
            r.warrnings@.len() == 0,
    {
        if errors.len() == 0 {
            assert(pairs_view(errors@).len() == 0);
            return Self::default();
        }
        let (pos, errors) = Self::filter(errors);
        Diags { errors, pos, warrnings: Vec::new() }
    }

    fn filter(errors: Vec<Diag<T>>) -> (r: (Option<usize>, Vec<T>))
        ensures
            (DiagsView { pos: opt_int(r.0), errors: r.1@ }) == DiagsView::from_pairs(
                pairs_view(errors@),
            ),
    {
        let ghost all = pairs_view(errors@);
        let mut stack: Vec<T> = Vec::new();
        let mut max: Option<usize> = None;
        for d in it: errors.into_iter()
            invariant
                it.seq() == errors@,
                all == pairs_view(errors@),
                (DiagsView { pos: opt_int(max), errors: stack@ }) == DiagsView::from_pairs(
                    all.take(it.index() as int),
                ),
        {
            let ghost k = it.index() as int;
            assert(all.take(k + 1).drop_last() =~= all.take(k));
            let (i, error) = d;
            let ghost e = error;
            assert(all[k] == (i as int, e));
            match max {
                None => {
                    stack = vec![error];
                    max = Some(i);
                    assert(stack@ =~= seq![e]);
                },
                Some(m) => {
                    if i > m {
                        stack = vec![error];
                        max = Some(i);
                        assert(stack@ =~= seq![e]);
                    } else if i == m {
                        stack.push(error);
                    }
                },
            }
        }
        assert(all.take(errors@.len() as int) =~= all);
        (max, stack)
    }

    /// Raises one diagnostic.
    pub fn extend_one(&mut self, d: Diag<T>)
        ensures
            final(self)@ == old(self)@.push(d.0 as int, d.1),
            final(self)@ == old(self)@.merge(DiagsView::single(d.0 as int, d.1)),
            final(self).warrnings == old(self).warrnings,
    {
        assert(old(self)@.errors.push(d.1) =~= old(self)@.errors + seq![d.1]);
        let (i, error) = d;
        let ghost e = error;
        match self.pos {
            None => {
                self.errors = vec![error];
                self.pos = Some(i);
                assert(self.errors@ =~= seq![e]);
            },
            Some(p) => {
                if i > p {
                    self.errors = vec![error];
                    self.pos = Some(i);
                    assert(self.errors@ =~= seq![e]);
                } else if i == p {
                    self.errors.push(error);
                }
            },
        }
    }

    /// Takes in diagnostics that were all raised at `pos`.
    pub fn extend_at(&mut self, pos: Option<usize>, errors: Vec<T>)
        requires
            (pos is None) == (errors@.len() == 0),
        ensures
            final(self)@ == old(self)@.merge((DiagsView { pos: opt_int(pos), errors: errors@ })),
            final(self).warrnings == old(self).warrnings,
    {
        if let Some(p) = pos {
            match self.pos {
                None => {
                    self.errors = errors;
                    self.pos = Some(p);
                },
                Some(q) => {
                    if p > q {
                        self.errors = errors;
                        self.pos = Some(p);
                    } else if p == q {
                        let mut errors = errors;
                        self.errors.append(&mut errors);
                    }
                },
            }
        }
    }

    /// Takes in the diagnostics of another parse, each wrapped by `f`.
    pub fn absorb<U>(&mut self, other: Diags<U>, f: impl Fn(U) -> T, Ghost(g): Ghost<spec_fn(U) -> T>)
        requires
            forall|u: U| #[trigger] f.requires((u,)),
            forall|u: U, t: T| #[trigger] f.ensures((u,), t) ==> t == g(u),
            other@.wf(),
        ensures
            final(self)@ == old(self)@.merge(other@.map(g)),
            final(self).warrnings == old(self).warrnings,
    {
        let ghost src = other.errors@;
        let pos = other.pos;
        let errors = wrap_all(other.errors, f);
        assert(errors@ =~= src.map_values(g)) by {
            assert forall|i: int| 0 <= i < src.len() implies errors@[i] == src.map_values(g)[i] by {
                assert(f.ensures((src[i],), errors@[i]));
            }
        }
        self.extend_at(pos, errors);
    }

    /// Takes in the diagnostics of another parse.
    pub fn merge_in(&mut self, other: Diags<T>)
        requires
            other@.wf(),
        ensures
            final(self)@ == old(self)@.merge(other@),
            final(self).warrnings == old(self).warrnings,
    {
        self.extend_at(other.pos, other.errors);
    }

    /// Raises the diagnostics of `errors` in order.
    pub fn extend(&mut self, errors: Vec<Diag<T>>)
        ensures
            final(self)@ == old(self)@.merge(DiagsView::from_pairs(pairs_view(errors@))),
            final(self).warrnings == old(self).warrnings,
    {
        let ghost all = pairs_view(errors@);
        proof {
            lemma_from_pairs_wf(all);
        }
        let (pos, errors) = Self::filter(errors);
        self.extend_at(pos, errors);
    }
}

} // verus!
