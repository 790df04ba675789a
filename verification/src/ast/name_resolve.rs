use crate::items::item::block::distruct::BlockDistruct;
use crate::items::item::block::init::InitBlock;
use crate::items::item::block::Block;
use crate::items::item::{item_view, Item};
use crate::items::Items;
use crate::items::item::assign_expr::AssignExprType;
use crate::slice::Slicable;
use vstd::prelude::*;
use vstd::string::StrSliceExecFns;

verus! {

/// What is wrong with a name.
#[derive(Debug, PartialEq, Eq, Clone, Copy)]
pub enum Error {
    /// A block of that name was already written out in the same list.
    AlreadyInited,
    /// Nothing of that name was written out before.
    NotInited,
}

/// Names and what each stands for, latest binding last.
pub type Bindings<'s, 'i> = Vec<(&'s str, &'i Item<'s>)>;

/// The item each name or call refers to, keyed by the span of the referring item.
pub type Refs<'s, 'i> = Vec<((usize, usize), &'i Item<'s>)>;

/// Where an item stands in the code: the positions of its first and last characters.
pub open spec fn span<'s>(i: Item<'s>) -> (int, int) {
    (item_view(i).start(), item_view(i).end())
}

/// The item bound to `name` most recently in `b`, if any.
pub open spec fn latest<'s>(b: Seq<(Seq<char>, Item<'s>)>, name: Seq<char>) -> Option<Item<'s>>
    decreases b.len(),
{
    if b.len() == 0 {
        None
    } else if b.last().0 == name {
        Some(b.last().1)
    } else {
        latest(b.drop_last(), name)
    }
}

/// The names and items of a list of bindings.
pub open spec fn bindings_view<'s, 'i>(b: Seq<(&'s str, &'i Item<'s>)>) -> Seq<(Seq<char>, Item<'s>)> {
    b.map_values(|p: (&'s str, &'i Item<'s>)| (p.0@, *p.1))
}

/// The bindings given to begin with: none when there are none.
pub open spec fn globals_view<'s, 'i>(g: Option<Vec<(&'s str, &'i Item<'s>)>>) -> Seq<(Seq<char>, Item<'s>)> {
    match g {
        Some(g) => bindings_view(g@),
        None => Seq::empty(),
    }
}

/// The spans and targets of a list of references.
pub open spec fn refs_view<'s, 'i>(r: Seq<((usize, usize), &'i Item<'s>)>) -> Seq<((int, int), Item<'s>)> {
    r.map_values(|p: ((usize, usize), &'i Item<'s>)| ((p.0.0 as int, p.0.1 as int), *p.1))
}

/// The errors and the items they are about.
pub open spec fn errors_view<'s, 'i>(e: Seq<(Error, &'i Item<'s>)>) -> Seq<(Error, Item<'s>)> {
    e.map_values(|p: (Error, &'i Item<'s>)| (p.0, *p.1))
}

#[verifier::ext_equal]
/// What resolving the names of a list has gathered: the blocks and assignments bound to names,
/// the references found and the errors.
pub struct Resolution<'s> {
    pub blocks: Seq<(Seq<char>, Item<'s>)>,
    pub assigns: Seq<(Seq<char>, Item<'s>)>,
    pub refs: Seq<((int, int), Item<'s>)>,
    pub errors: Seq<(Error, Item<'s>)>,
}

/// Resolving the names of the items `s` in order, with `globals` bound to begin with. A block
/// written out inside the list is resolved on its own first, and only its errors are kept: a
/// named block sees no outside names, an unnamed one sees the assignments bound so far. A call
/// of a block refers to the block of that name written out before it in the list; a name or an
/// assignment with an operation refers to the latest plain assignment to that name.
pub open spec fn resolve_seq<'s>(s: Seq<Item<'s>>, globals: Seq<(Seq<char>, Item<'s>)>) -> Resolution<'s>
    decreases s, 1int,
{
    if s.len() == 0 {
        Resolution { blocks: Seq::empty(), assigns: globals, refs: Seq::empty(), errors: Seq::empty() }
    } else {
        resolve_step(resolve_seq(s.drop_last(), globals), s.last())
    }
}

/// Binds the block `item` under `name` unless a block of that name is bound already.
pub open spec fn bind_block<'s>(r: Resolution<'s>, name: Seq<char>, item: Item<'s>) -> Resolution<'s> {
    if latest(r.blocks, name) is None {
        Resolution { blocks: r.blocks.push((name, item)), ..r }
    } else {
        Resolution { errors: r.errors.push((Error::AlreadyInited, item)), ..r }
    }
}

/// Records that `item` refers to what `name` is bound to in `b`, or that nothing is.
pub open spec fn refer<'s>(r: Resolution<'s>, b: Seq<(Seq<char>, Item<'s>)>, name: Seq<char>, item: Item<'s>) -> Resolution<'s> {
    match latest(b, name) {
        Some(t) => Resolution { refs: r.refs.push((span(item), t)), ..r },
        None => Resolution { errors: r.errors.push((Error::NotInited, item)), ..r },
    }
}

/// Resolving one more item after `r`.
pub open spec fn resolve_step<'s>(r: Resolution<'s>, item: Item<'s>) -> Resolution<'s>
    decreases item, 0int,
{
    let inner = match item {
        Item::Block(Block::Init(InitBlock::Named(v))) => resolve_seq(v.block.items.0@, Seq::empty()).errors,
        Item::Block(Block::Init(InitBlock::Unnamed(v))) => resolve_seq(v.items.0@, r.assigns).errors,
        _ => Seq::empty(),
    };
    let r = Resolution { errors: r.errors + inner, ..r };
    match item {
        Item::Block(Block::Distruct(BlockDistruct::Call(c))) => refer(r, r.blocks, c.name.0.source@, item),
        Item::Block(Block::Distruct(BlockDistruct::Init(d))) => bind_block(r, d.named_block.name.0.source@, item),
        Item::Block(Block::Init(InitBlock::Named(n))) => bind_block(r, n.name.0.source@, item),
        Item::AssignExpr(a) => match a.type_ {
            AssignExprType::AssignAnd(_) => refer(r, r.assigns, a.val.0.left.0.source@, item),
            AssignExprType::Assign => Resolution {
                assigns: r.assigns.push((a.val.0.left.0.source@, item)),
                ..r
            },
        },
        Item::Ident(x) => refer(r, r.assigns, x.0.source@, item),
        _ => r,
    }
}

/// Whether `a` and `b` are the same text.
pub fn same_text(a: &str, b: &str) -> (r: bool)
    ensures
        r == (a@ == b@),
{
    let n = a.unicode_len();
    if n != b.unicode_len() {
        return false;
    }
    let mut i: usize = 0;
    while i < n
        invariant
            n == a@.len(),
            n == b@.len(),
            i <= n,
            forall|k: int| 0 <= k < i ==> a@[k] == b@[k],
        decreases n - i,
    {
        if a.get_char(i) != b.get_char(i) {
            return false;
        }
        i = i + 1;
    }
    assert(a@ =~= b@);
    true
}

/// The item bound to `name` most recently in `b`, if any.
pub fn find_binding<'s, 'i>(b: &Vec<(&'s str, &'i Item<'s>)>, name: &str) -> (r: Option<&'i Item<'s>>)
    ensures
        match r {
            Some(t) => latest(bindings_view(b@), name@) == Some(*t),
            None => latest(bindings_view(b@), name@) is None,
        },
        r matches Some(t) ==> exists|i: int|
            0 <= i < b@.len() && #[trigger] b@[i].0@ == name@ && *b@[i].1 == *t && forall|j: int|
                i < j < b@.len() ==> #[trigger] b@[j].0@ != name@,
        r is None ==> forall|i: int| 0 <= i < b@.len() ==> #[trigger] b@[i].0@ != name@,
{
    let ghost all = bindings_view(b@);
    assert(all.take(b@.len() as int) =~= all);
    let mut j = b.len();
    while j > 0
        invariant
            j <= b@.len(),
            all == bindings_view(b@),
            latest(all, name@) == latest(all.take(j as int), name@),
        decreases j,
    {
        let (n, t) = b[j - 1];
        assert(all.take(j as int).last() == (n@, *t));
        if same_text(n, name) {
            proof {
                lemma_binding_indices(b@, name@);
            }
            return Some(t);
        }
        assert(all.take(j as int).drop_last() =~= all.take(j - 1));
        j = j - 1;
    }
    proof {
        lemma_binding_indices(b@, name@);
    }
    None
}

/// What `latest` gives over the names and items of `b`, told by the positions of `b`.
proof fn lemma_binding_indices<'s, 'i>(b: Seq<(&'s str, &'i Item<'s>)>, name: Seq<char>)
    ensures
        latest(bindings_view(b), name) matches Some(t) ==> exists|i: int|
            0 <= i < b.len() && #[trigger] b[i].0@ == name && *b[i].1 == t && forall|j: int|
                i < j < b.len() ==> #[trigger] b[j].0@ != name,
        latest(bindings_view(b), name) is None ==> forall|i: int| 0 <= i < b.len() ==> #[trigger] b[i].0@ != name,
{
    let all = bindings_view(b);
    law_latest_only_bindings(all, name);
    assert forall|i: int| 0 <= i < b.len() implies #[trigger] all[i] == (b[i].0@, *b[i].1) by {}
    if latest(all, name) is Some {
        let t = latest(all, name).unwrap();
        let i = choose|i: int|
            0 <= i < all.len() && #[trigger] all[i] == (name, t) && forall|j: int| i < j < all.len() ==> #[trigger] all[j].0 != name;
        assert(all[i] == (b[i].0@, *b[i].1));
        assert forall|j: int| i < j < b.len() implies #[trigger] b[j].0@ != name by {
            assert(all[j] == (b[j].0@, *b[j].1));
            assert(all[j].0 != name);
        }
    } else {
        assert forall|i: int| 0 <= i < b.len() implies #[trigger] b[i].0@ != name by {
            assert(all[i] == (b[i].0@, *b[i].1));
            assert(all[i].0 != name);
        }
    }
}

/// A copy of the list of bindings `b`.
fn copy_bindings<'s, 'i>(b: &Vec<(&'s str, &'i Item<'s>)>) -> (r: Vec<(&'s str, &'i Item<'s>)>)
    ensures
        r@ == b@,
{
    let mut r: Vec<(&'s str, &'i Item<'s>)> = Vec::new();
    let mut k: usize = 0;
    while k < b.len()
        invariant
            k <= b@.len(),
            r@ == b@.take(k as int),
        decreases b@.len() - k,
    {
        r.push(b[k]);
        assert(r@ =~= b@.take(k + 1));
        k = k + 1;
    }
    assert(r@ =~= b@);
    r
}

/// Resolves the names of `items`, with the assignments of `globals` bound to begin with: the
/// references of the items of the list, and the errors found in the list and in the blocks
/// written out in it.
pub fn name_resolve<'s, 'i>(items: &'i Items<'s>, globals: Option<Bindings<'s, 'i>>) -> (r: (Refs<'s, 'i>, Vec<(Error, &'i Item<'s>)>))
    ensures
        refs_view(r.0@) == resolve_seq(
            items.0@,
            globals_view(globals),
        ).refs,
        errors_view(r.1@) == resolve_seq(
            items.0@,
            globals_view(globals),
        ).errors,
    decreases items,
{
    let ghost gv = globals_view(globals);
    let mut errors: Vec<(Error, &'i Item<'s>)> = Vec::new();
    let mut refs: Vec<((usize, usize), &'i Item<'s>)> = Vec::new();
    let mut blocks: Vec<(&'s str, &'i Item<'s>)> = Vec::new();
    let mut assigns: Vec<(&'s str, &'i Item<'s>)> = match globals {
        Some(g) => g,
        None => Vec::new(),
    };
    assert(items.0@.take(0) =~= Seq::<Item<'s>>::empty());
    assert(bindings_view(blocks@) =~= Seq::empty());
    assert(refs_view(refs@) =~= Seq::empty());
    assert(errors_view(errors@) =~= Seq::empty());
    let mut k: usize = 0;
    while k < items.0.len()
        invariant
            k <= items.0@.len(),
            resolve_seq(items.0@.take(k as int), gv) == (Resolution {
                blocks: bindings_view(blocks@),
                assigns: bindings_view(assigns@),
                refs: refs_view(refs@),
                errors: errors_view(errors@),
            }),
        decreases items.0@.len() - k,
    {
        let ghost before = Resolution {
            blocks: bindings_view(blocks@),
            assigns: bindings_view(assigns@),
            refs: refs_view(refs@),
            errors: errors_view(errors@),
        };
        let item: &'i Item<'s> = &items.0[k];
        assert(items.0@.take(k + 1).drop_last() =~= items.0@.take(k as int));
        assert(items.0@.take(k + 1).last() == *item);
        match item {
            Item::Block(Block::Init(InitBlock::Named(v))) => {
                let (_, mut inner) = name_resolve(&v.block.items, None);
                let ghost e0 = errors@;
                errors.append(&mut inner);
                assert(errors_view(errors@) =~= errors_view(e0) + resolve_seq(v.block.items.0@, Seq::empty()).errors);
            },
            Item::Block(Block::Init(InitBlock::Unnamed(v))) => {
                let outer = copy_bindings(&assigns);
                let (_, mut inner) = name_resolve(&v.items, Some(outer));
                let ghost e0 = errors@;
                errors.append(&mut inner);
                assert(errors_view(errors@) =~= errors_view(e0) + resolve_seq(v.items.0@, bindings_view(assigns@)).errors);
            },
            _ => {
                assert(errors_view(errors@) =~= errors_view(errors@) + Seq::<(Error, Item<'s>)>::empty());
            },
        }
        let ghost mid = Resolution {
            blocks: bindings_view(blocks@),
            assigns: bindings_view(assigns@),
            refs: refs_view(refs@),
            errors: errors_view(errors@),
        };
        match item {
            Item::Block(Block::Distruct(BlockDistruct::Call(c))) => {
                match find_binding(&blocks, c.name.0.source) {
                    Some(t) => {
                        refs.push(((item.get_start(), item.get_end()), t));
                        assert(refs_view(refs@) =~= mid.refs.push((span(*item), *t)));
                    },
                    None => {
                        errors.push((Error::NotInited, item));
                        assert(errors_view(errors@) =~= mid.errors.push((Error::NotInited, *item)));
                    },
                }
            },
            Item::Block(Block::Distruct(BlockDistruct::Init(d))) => {
                let name = d.named_block.name.0.source;
                match find_binding(&blocks, name) {
                    None => {
                        blocks.push((name, item));
                        assert(bindings_view(blocks@) =~= mid.blocks.push((name@, *item)));
                    },
                    Some(_) => {
                        errors.push((Error::AlreadyInited, item));
                        assert(errors_view(errors@) =~= mid.errors.push((Error::AlreadyInited, *item)));
                    },
                }
            },
            Item::Block(Block::Init(InitBlock::Named(n))) => {
                let name = n.name.0.source;
                match find_binding(&blocks, name) {
                    None => {
                        blocks.push((name, item));
                        assert(bindings_view(blocks@) =~= mid.blocks.push((name@, *item)));
                    },
                    Some(_) => {
                        errors.push((Error::AlreadyInited, item));
                        assert(errors_view(errors@) =~= mid.errors.push((Error::AlreadyInited, *item)));
                    },
                }
            },
            Item::AssignExpr(a) => {
                let name = a.val.0.left.0.source;
                match a.type_ {
                    AssignExprType::AssignAnd(_) => {
                        match find_binding(&assigns, name) {
                            Some(t) => {
                                refs.push(((item.get_start(), item.get_end()), t));
                                assert(refs_view(refs@) =~= mid.refs.push((span(*item), *t)));
                            },
                            None => {
                                errors.push((Error::NotInited, item));
                                assert(errors_view(errors@) =~= mid.errors.push((Error::NotInited, *item)));
                            },
                        }
                    },
                    AssignExprType::Assign => {
                        assigns.push((name, item));
                        assert(bindings_view(assigns@) =~= mid.assigns.push((name@, *item)));
                    },
                }
            },
            Item::Ident(x) => {
                match find_binding(&assigns, x.0.source) {
                    Some(t) => {
                        refs.push(((item.get_start(), item.get_end()), t));
                        assert(refs_view(refs@) =~= mid.refs.push((span(*item), *t)));
                    },
                    None => {
                        errors.push((Error::NotInited, item));
                        assert(errors_view(errors@) =~= mid.errors.push((Error::NotInited, *item)));
                    },
                }
            },
            _ => {},
        }
        assert(mid.errors == before.errors + match *item {
            Item::Block(Block::Init(InitBlock::Named(v))) => resolve_seq(v.block.items.0@, Seq::empty()).errors,
            Item::Block(Block::Init(InitBlock::Unnamed(v))) => resolve_seq(v.items.0@, before.assigns).errors,
            _ => Seq::empty(),
        });
        assert(resolve_seq(items.0@.take(k + 1), gv) == resolve_step(before, *item));
        k = k + 1;
    }
    assert(items.0@.take(items.0@.len() as int) =~= items.0@);
    (refs, errors)
}

/// A binding of `name` at `i` with no binding of `name` after it is the one `latest` gives: a
/// later binding of a name shadows an earlier one.
pub proof fn law_latest_is_last_binding<'s>(b: Seq<(Seq<char>, Item<'s>)>, name: Seq<char>, i: int)
    requires
        0 <= i < b.len(),
        b[i].0 == name,
        forall|j: int| i < j < b.len() ==> #[trigger] b[j].0 != name,
    ensures
        latest(b, name) == Some(b[i].1),
    decreases b.len(),
{
    if i < b.len() - 1 {
        assert(b.last() == b[b.len() - 1]);
        assert(b.drop_last()[i] == b[i]);
        assert forall|j: int| i < j < b.drop_last().len() implies #[trigger] b.drop_last()[j].0 != name by {
            assert(b.drop_last()[j] == b[j]);
        }
        law_latest_is_last_binding(b.drop_last(), name, i);
    }
}

/// With no binding of `name`, `latest` gives nothing; what it gives is always a binding of
/// `name` with none after it.
pub proof fn law_latest_only_bindings<'s>(b: Seq<(Seq<char>, Item<'s>)>, name: Seq<char>)
    ensures
        (forall|i: int| 0 <= i < b.len() ==> #[trigger] b[i].0 != name) <==> latest(b, name) is None,
        latest(b, name) matches Some(t) ==> exists|i: int|
            0 <= i < b.len() && #[trigger] b[i] == (name, t) && forall|j: int| i < j < b.len() ==> #[trigger] b[j].0 != name,
    decreases b.len(),
{
    if b.len() > 0 {
        law_latest_only_bindings(b.drop_last(), name);
        if (forall|i: int| 0 <= i < b.len() ==> #[trigger] b[i].0 != name) {
            assert(b[b.len() - 1].0 != name);
            assert forall|i: int| 0 <= i < b.drop_last().len() implies #[trigger] b.drop_last()[i].0 != name by {
                assert(b.drop_last()[i] == b[i]);
            }
        }
        if latest(b, name) is None {
            assert forall|i: int| 0 <= i < b.len() implies #[trigger] b[i].0 != name by {
                if i < b.len() - 1 {
                    assert(b.drop_last()[i] == b[i]);
                }
            }
        }
        if b.last().0 == name {
            assert(b[b.len() - 1] == (name, b.last().1));
        } else if latest(b, name) is Some {
            let t = latest(b, name).unwrap();
            let i = choose|i: int|
                0 <= i < b.drop_last().len() && #[trigger] b.drop_last()[i] == (name, t) && forall|j: int|
                    i < j < b.drop_last().len() ==> #[trigger] b.drop_last()[j].0 != name;
            assert(b[i] == (name, t));
            assert forall|j: int| i < j < b.len() implies #[trigger] b[j].0 != name by {
                if j < b.len() - 1 {
                    assert(b.drop_last()[j] == b[j]);
                }
            }
        }
    }
}

/// Whether `item` is a plain assignment to `name`.
pub open spec fn assigns_to<'s>(item: Item<'s>, name: Seq<char>) -> bool {
    &&& item matches Item::AssignExpr(a)
    &&& item->AssignExpr_0.type_ is Assign
    &&& item->AssignExpr_0.val.0.left.0.source@ == name
}

/// The name that `item` refers to, when it is a name or an assignment with an operation.
pub open spec fn named_by<'s>(item: Item<'s>) -> Option<Seq<char>> {
    match item {
        Item::Ident(x) => Some(x.0.source@),
        Item::AssignExpr(a) => match a.type_ {
            AssignExprType::AssignAnd(_) => Some(a.val.0.left.0.source@),
            AssignExprType::Assign => None,
        },
        _ => None,
    }
}

/// In a list with no blocks, the assignment bound to `name` after resolving is the last plain
/// assignment to `name` in the list, or the global binding when there is none.
proof fn lemma_flat_assigns<'s>(s: Seq<Item<'s>>, g: Seq<(Seq<char>, Item<'s>)>, name: Seq<char>)
    requires
        forall|m: int| 0 <= m < s.len() ==> !(#[trigger] s[m] is Block),
    ensures
        forall|i: int|
            0 <= i < s.len() && assigns_to(#[trigger] s[i], name) && (forall|j: int| i < j < s.len() ==> !assigns_to(#[trigger] s[j], name))
                ==> latest(resolve_seq(s, g).assigns, name) == Some(s[i]),
        (forall|i: int| 0 <= i < s.len() ==> !assigns_to(#[trigger] s[i], name)) ==> latest(resolve_seq(s, g).assigns, name)
            == latest(g, name),
    decreases s.len(),
{
    if s.len() > 0 {
        let d = s.drop_last();
        assert forall|m: int| 0 <= m < d.len() implies !(#[trigger] d[m] is Block) by {
            assert(d[m] == s[m]);
        }
        lemma_flat_assigns(d, g, name);
        let last = s.last();
        assert(last == s[s.len() - 1]);
        let r = resolve_seq(d, g);
        let r2 = resolve_seq(s, g);
        assert(r2 == resolve_step(r, last));
        assert(!(last is Block));
        let a2 = r2.assigns;
        if assigns_to(last, name) {
            assert(a2 == r.assigns.push((name, last)));
        } else if assigns_to(last, last->AssignExpr_0.val.0.left.0.source@) {
            let other = last->AssignExpr_0.val.0.left.0.source@;
            assert(a2 == r.assigns.push((other, last)));
            assert(a2.drop_last() =~= r.assigns);
            assert(latest(a2, name) == latest(r.assigns, name));
        } else {
            assert(a2 == r.assigns);
        }
        assert forall|i: int|
            0 <= i < s.len() && assigns_to(#[trigger] s[i], name) && (forall|j: int| i < j < s.len() ==> !assigns_to(#[trigger] s[j], name))
                implies latest(a2, name) == Some(s[i]) by {
            if i < s.len() - 1 {
                assert(!assigns_to(s[s.len() - 1], name));
                assert(d[i] == s[i]);
                assert forall|j: int| i < j < d.len() implies !assigns_to(#[trigger] d[j], name) by {
                    assert(d[j] == s[j]);
                }
            }
        }
        if forall|i: int| 0 <= i < s.len() ==> !assigns_to(#[trigger] s[i], name) {
            assert(!assigns_to(s[s.len() - 1], name));
            assert forall|i: int| 0 <= i < d.len() implies !assigns_to(#[trigger] d[i], name) by {
                assert(d[i] == s[i]);
            }
        }
    }
}

/// In a list with no blocks, a name or an assignment with an operation at `k` refers to the
/// last plain assignment to that name before it, at `i`: resolving the list up to `k` adds
/// exactly that reference.
pub proof fn law_name_refers_to_latest_assignment<'s>(s: Seq<Item<'s>>, g: Seq<(Seq<char>, Item<'s>)>, i: int, k: int)
    requires
        forall|m: int| 0 <= m < s.len() ==> !(#[trigger] s[m] is Block),
        0 <= i < k < s.len(),
        named_by(s[k]) is Some,
        assigns_to(s[i], named_by(s[k]).unwrap()),
        forall|j: int| i < j < k ==> !assigns_to(#[trigger] s[j], named_by(s[k]).unwrap()),
    ensures
        resolve_seq(s.take(k + 1), g).refs == resolve_seq(s.take(k), g).refs.push((span(s[k]), s[i])),
        resolve_seq(s.take(k + 1), g).errors == resolve_seq(s.take(k), g).errors,
{
    let name = named_by(s[k]).unwrap();
    let t = s.take(k);
    assert(s.take(k + 1).drop_last() =~= t);
    assert(s.take(k + 1).last() == s[k]);
    assert forall|m: int| 0 <= m < t.len() implies !(#[trigger] t[m] is Block) by {
        assert(t[m] == s[m]);
    }
    lemma_flat_assigns(t, g, name);
    assert(t[i] == s[i]);
    assert forall|j: int| i < j < t.len() implies !assigns_to(#[trigger] t[j], name) by {
        assert(t[j] == s[j]);
    }
    assert(latest(resolve_seq(t, g).assigns, name) == Some(s[i]));
    let r = resolve_seq(t, g);
    assert(resolve_seq(s.take(k + 1), g) == resolve_step(r, s[k]));
    assert(r.errors + Seq::<(Error, Item<'s>)>::empty() =~= r.errors);
}

/// In a list with no blocks, a name or an assignment with an operation at `k` with no plain
/// assignment to that name before it, nor among the global bindings, is not bound: resolving the
/// list up to `k` adds that error and no reference.
pub proof fn law_unbound_name_is_not_inited<'s>(s: Seq<Item<'s>>, g: Seq<(Seq<char>, Item<'s>)>, k: int)
    requires
        forall|m: int| 0 <= m < s.len() ==> !(#[trigger] s[m] is Block),
        0 <= k < s.len(),
        named_by(s[k]) is Some,
        forall|j: int| 0 <= j < k ==> !assigns_to(#[trigger] s[j], named_by(s[k]).unwrap()),
        forall|j: int| 0 <= j < g.len() ==> #[trigger] g[j].0 != named_by(s[k]).unwrap(),
    ensures
        resolve_seq(s.take(k + 1), g).refs == resolve_seq(s.take(k), g).refs,
        resolve_seq(s.take(k + 1), g).errors == resolve_seq(s.take(k), g).errors.push((Error::NotInited, s[k])),
{
    let name = named_by(s[k]).unwrap();
    let t = s.take(k);
    assert(s.take(k + 1).drop_last() =~= t);
    assert(s.take(k + 1).last() == s[k]);
    assert forall|m: int| 0 <= m < t.len() implies !(#[trigger] t[m] is Block) by {
        assert(t[m] == s[m]);
    }
    lemma_flat_assigns(t, g, name);
    assert forall|j: int| 0 <= j < t.len() implies !assigns_to(#[trigger] t[j], name) by {
        assert(t[j] == s[j]);
    }
    law_latest_only_bindings(g, name);
    let r = resolve_seq(t, g);
    assert(latest(r.assigns, name) is None);
    assert(resolve_seq(s.take(k + 1), g) == resolve_step(r, s[k]));
    assert(r.errors + Seq::<(Error, Item<'s>)>::empty() =~= r.errors);
}

/// Whether `item` writes out a block named `name`.
pub open spec fn binds_block<'s>(item: Item<'s>, name: Seq<char>) -> bool {
    match item {
        Item::Block(Block::Init(InitBlock::Named(n))) => n.name.0.source@ == name,
        Item::Block(Block::Distruct(BlockDistruct::Init(d))) => d.named_block.name.0.source@ == name,
        _ => false,
    }
}

/// The block bound to `name` after resolving `s` is the first block of that name written out in
/// `s`; later ones are refused.
proof fn lemma_first_block<'s>(s: Seq<Item<'s>>, g: Seq<(Seq<char>, Item<'s>)>, name: Seq<char>)
    ensures
        forall|i: int|
            0 <= i < s.len() && binds_block(#[trigger] s[i], name) && (forall|j: int| 0 <= j < i ==> !binds_block(#[trigger] s[j], name))
                ==> latest(resolve_seq(s, g).blocks, name) == Some(s[i]),
        (forall|i: int| 0 <= i < s.len() ==> !binds_block(#[trigger] s[i], name)) ==> latest(resolve_seq(s, g).blocks, name) is None,
    decreases s.len(),
{
    if s.len() > 0 {
        let d = s.drop_last();
        lemma_first_block(d, g, name);
        let last = s.last();
        assert(last == s[s.len() - 1]);
        let r = resolve_seq(d, g);
        let r2 = resolve_seq(s, g);
        assert(r2 == resolve_step(r, last));
        let own = match last {
            Item::Block(Block::Init(InitBlock::Named(n))) => Some(n.name.0.source@),
            Item::Block(Block::Distruct(BlockDistruct::Init(x))) => Some(x.named_block.name.0.source@),
            _ => None,
        };
        if own is Some {
            let o = own.unwrap();
            if latest(r.blocks, o) is None {
                assert(r2.blocks == r.blocks.push((o, last)));
                assert(r2.blocks.drop_last() =~= r.blocks);
            } else {
                assert(r2.blocks == r.blocks);
            }
        } else {
            assert(r2.blocks == r.blocks);
        }
        assert forall|i: int|
            0 <= i < s.len() && binds_block(#[trigger] s[i], name) && (forall|j: int| 0 <= j < i ==> !binds_block(#[trigger] s[j], name))
                implies latest(r2.blocks, name) == Some(s[i]) by {
            if i < s.len() - 1 {
                assert(d[i] == s[i]);
                assert forall|j: int| 0 <= j < i implies !binds_block(#[trigger] d[j], name) by {
                    assert(d[j] == s[j]);
                }
                assert(latest(r.blocks, name) == Some(s[i]));
            } else {
                assert forall|j: int| 0 <= j < d.len() implies !binds_block(#[trigger] d[j], name) by {
                    assert(d[j] == s[j]);
                }
            }
        }
        if forall|i: int| 0 <= i < s.len() ==> !binds_block(#[trigger] s[i], name) {
            assert(!binds_block(s[s.len() - 1], name));
            assert forall|i: int| 0 <= i < d.len() implies !binds_block(#[trigger] d[i], name) by {
                assert(d[i] == s[i]);
            }
        }
    }
}

/// A call at `k` of a block named `name` refers to the first block of that name written out
/// before it, at `i`: resolving the list up to `k` adds exactly that reference.
pub proof fn law_call_refers_to_first_block<'s>(s: Seq<Item<'s>>, g: Seq<(Seq<char>, Item<'s>)>, i: int, k: int)
    requires
        0 <= i < k < s.len(),
        s[k] matches Item::Block(Block::Distruct(BlockDistruct::Call(_))),
        binds_block(s[i], s[k]->Block_0->Distruct_0->Call_0.name.0.source@),
        forall|j: int| 0 <= j < i ==> !binds_block(#[trigger] s[j], s[k]->Block_0->Distruct_0->Call_0.name.0.source@),
    ensures
        resolve_seq(s.take(k + 1), g).refs == resolve_seq(s.take(k), g).refs.push((span(s[k]), s[i])),
        resolve_seq(s.take(k + 1), g).errors == resolve_seq(s.take(k), g).errors,
{
    let name = s[k]->Block_0->Distruct_0->Call_0.name.0.source@;
    let t = s.take(k);
    assert(s.take(k + 1).drop_last() =~= t);
    assert(s.take(k + 1).last() == s[k]);
    lemma_first_block(t, g, name);
    assert(t[i] == s[i]);
    assert forall|j: int| 0 <= j < i implies !binds_block(#[trigger] t[j], name) by {
        assert(t[j] == s[j]);
    }
    let r = resolve_seq(t, g);
    assert(latest(r.blocks, name) == Some(s[i]));
    assert(resolve_seq(s.take(k + 1), g) == resolve_step(r, s[k]));
    assert(r.errors + Seq::<(Error, Item<'s>)>::empty() =~= r.errors);
}

} // verus!
