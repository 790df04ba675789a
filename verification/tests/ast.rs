use lexer::ast::expand::{expand, try_expand};
use lexer::ast::name_resolve::{name_resolve, Error};
use lexer::code::Code;
use lexer::diag::Diags;
use lexer::items::item::assign_expr::assign::Assign;
use lexer::items::item::assign_expr::literal::LiteralType;
use lexer::items::item::assign_expr::{AssignExpr, AssignExprType};
use lexer::items::item::block::distruct::call::CallBlockDistruct;
use lexer::items::item::block::distruct::init::InitBlockDistruct;
use lexer::items::item::block::distruct::BlockDistruct;
use lexer::items::item::block::init::named::NamedBlock;
use lexer::items::item::block::init::unnamed::UnnamedBlock;
use lexer::items::item::block::init::InitBlock;
use lexer::items::item::block::Block;
use lexer::items::item::ident::Ident;
use lexer::items::item::Item;
use lexer::items::shared::distribution::Distribution;
use lexer::items::Items;
use lexer::slice::{Slicable, Slice};
use std::ops::RangeInclusive;

fn assign<'s>(code: &Code<'s>, name: usize, value: usize) -> Item<'s> {
    Item::AssignExpr(AssignExpr {
        type_: AssignExprType::Assign,
        val: Assign::new(name..=name, (LiteralType::Number, value..=value), code),
    })
}

fn ident<'s>(code: &Code<'s>, range: RangeInclusive<usize>) -> Item<'s> {
    Item::Ident(Ident::new(range, code))
}

fn named<'s>(
    code: &Code<'s>,
    name: RangeInclusive<usize>,
    items: Vec<Item<'s>>,
    brackets: [usize; 2],
) -> Item<'s> {
    Item::Block(Block::Init(InitBlock::Named(NamedBlock::new(name, (items, brackets), code))))
}

fn spread<'s>(
    code: &Code<'s>,
    name: RangeInclusive<usize>,
    items: Vec<Item<'s>>,
    brackets: [usize; 2],
) -> Item<'s> {
    let end = brackets[1];
    Item::Block(Block::Distruct(BlockDistruct::Init(InitBlockDistruct {
        named_block: NamedBlock::new(name, (items, brackets), code),
        distr: Distribution(Slice::new(end + 1..=end + 2, code)),
    })))
}

fn call<'s>(code: &Code<'s>, name: RangeInclusive<usize>) -> Item<'s> {
    let end = *name.end();
    Item::Block(Block::Distruct(BlockDistruct::Call(CallBlockDistruct {
        name: Ident::new(name, code),
        dist: Distribution(Slice::new(end + 1..=end + 2, code)),
    })))
}

#[test]
fn resolve_latest_assignment() {
    let code = Code::new("a = 2 a += 200 b");
    let items = Items::parse(&code, &mut Diags::default()).unwrap();
    let (refs, errors) = name_resolve(&items, None);
    // `a += 200` refers to `a = 2`
    assert_eq!(refs.len(), 1);
    assert_eq!(refs[0].0, (6, 13));
    assert_eq!(refs[0].1, &items.0[0]);
    // nothing named `b` was assigned
    assert_eq!(errors.len(), 1);
    assert_eq!(errors[0].0, Error::NotInited);
    assert_eq!(errors[0].1, &items.0[2]);
}

#[test]
fn resolve_block_twice() {
    let code = Code::new("main {} main {}");
    let items = Items(vec![
        named(&code, 0..=3, vec![], [5, 6]),
        named(&code, 8..=11, vec![], [13, 14]),
    ]);
    let (refs, errors) = name_resolve(&items, None);
    assert!(refs.is_empty());
    assert_eq!(errors.len(), 1);
    assert_eq!(errors[0].0, Error::AlreadyInited);
    assert_eq!(errors[0].1, &items.0[1]);
}

#[test]
fn resolve_call_and_scopes() {
    // a named block sees no outside names, an unnamed one sees the assignments before it
    let code = Code::new("a = 1 main { a } main.. { a } x..");
    let items = Items(vec![
        assign(&code, 0, 4),
        named(&code, 6..=9, vec![ident(&code, 13..=13)], [11, 15]),
        call(&code, 17..=20),
        Item::Block(Block::Init(InitBlock::Unnamed(UnnamedBlock::new(
            vec![ident(&code, 26..=26)],
            [24, 28],
        )))),
        call(&code, 30..=30),
    ]);
    let (refs, errors) = name_resolve(&items, None);
    // `main..` refers to the block `main { a }`
    assert_eq!(refs.len(), 1);
    assert_eq!(refs[0].0, (items.0[2].get_start(), items.0[2].get_end()));
    assert_eq!(refs[0].1, &items.0[1]);
    // `a` inside `main` is not known there, `x..` calls no block
    assert_eq!(errors.len(), 2);
    assert_eq!(errors[0], (Error::NotInited, &ident(&code, 13..=13)));
    assert_eq!(errors[1], (Error::NotInited, &items.0[4]));
}

#[test]
fn resolve_globals() {
    let outer = Code::new("a = 1");
    let outer_items = Items::parse(&outer, &mut Diags::default()).unwrap();
    let code = Code::new("a");
    let items = Items::parse(&code, &mut Diags::default()).unwrap();
    let (refs, errors) = name_resolve(&items, Some(vec![("a", &outer_items.0[0])]));
    assert_eq!(refs.len(), 1);
    assert_eq!(refs[0].1, &outer_items.0[0]);
    assert!(errors.is_empty());
}

#[test]
fn expand_blocks_and_calls() {
    let code = Code::new("main { a = 1 }.. main.. b = 2");
    let items = Items(vec![
        spread(&code, 0..=3, vec![assign(&code, 7, 11)], [5, 13]),
        call(&code, 17..=20),
        assign(&code, 24, 28),
    ]);
    let (refs, errors) = name_resolve(&items, None);
    assert!(errors.is_empty());
    let expanded = expand(&items, &refs);
    assert_eq!(
        expanded,
        Items(vec![assign(&code, 7, 11), assign(&code, 7, 11), assign(&code, 24, 28)])
    );
}

#[test]
fn expand_drops_named_blocks() {
    let code = Code::new("main { a = 1 } { b = 2 } main..");
    let items = Items(vec![
        named(&code, 0..=3, vec![assign(&code, 7, 11)], [5, 13]),
        Item::Block(Block::Init(InitBlock::Unnamed(UnnamedBlock::new(
            vec![assign(&code, 17, 21)],
            [15, 23],
        )))),
        call(&code, 25..=28),
    ]);
    let (refs, _) = name_resolve(&items, None);
    let expanded = expand(&items, &refs);
    // the named block is left out, the unnamed one is opened, the call brings `main` back
    assert_eq!(expanded, Items(vec![assign(&code, 17, 21), assign(&code, 7, 11)]));
}

#[test]
fn expand_without_refs() {
    // a call that nothing resolves brings nothing
    let code = Code::new("x.. y");
    let items = Items(vec![call(&code, 0..=0), ident(&code, 4..=4)]);
    let expanded = expand(&items, &vec![]);
    assert_eq!(expanded, Items(vec![ident(&code, 4..=4)]));
}

#[test]
fn expand_plain_items() {
    // a list without blocks expands to itself
    let code = Code::new("a = 1 b 2");
    let items = Items::parse(&code, &mut Diags::default()).unwrap();
    assert_eq!(items.0.len(), 3);
    let expanded = expand(&items, &vec![]);
    assert_eq!(expanded, items);
}

#[test]
fn expand_refuses_cycles() {
    let code = Code::new("main { main.. } main..");
    let items = Items(vec![
        named(&code, 0..=3, vec![call(&code, 7..=10)], [5, 14]),
        call(&code, 16..=19),
    ]);
    let inner = match &items.0[0] {
        Item::Block(Block::Init(InitBlock::Named(n))) => &n.block.items.0[0],
        _ => unreachable!(),
    };
    // both calls lead to the block, which calls itself
    let refs = vec![((16, 21), &items.0[0]), ((inner.get_start(), inner.get_end()), &items.0[0])];
    assert_eq!(try_expand(&items, &refs), None);
    // without the call inside, it expands
    let refs = vec![((16, 21), &items.0[0])];
    assert_eq!(try_expand(&items, &refs), Some(Items(vec![])));
}
