use lexer::code::Code;
use lexer::diag::{Diag, Diags};
use lexer::items::item::assign_expr::assign::left_right::LeftRight;
use lexer::items::item::assign_expr::assign::{Assign, AssignDiag};
use lexer::items::item::assign_expr::assign_and::{AssignAnd, AssignAndDiag, AssignAndType};
use lexer::items::item::assign_expr::literal::number::{Number, NumberDiag};
use lexer::items::item::assign_expr::literal::string::{String, StringDiag};
use lexer::items::item::assign_expr::literal::{Literal, LiteralDiag, LiteralType};
use lexer::items::item::assign_expr::{AssignExpr, AssignExprDiag, AssignExprType};
use lexer::items::item::block::distruct::call::CallBlockDistruct;
use lexer::items::item::block::distruct::init::InitBlockDistruct;
use lexer::items::item::block::init::named::NamedBlock;
use lexer::items::item::block::init::unnamed::{UnnamedBlock, UnnamedBlockDiag};
use lexer::items::item::block::init::InitBlock;
use lexer::items::item::block::Block;
use lexer::items::item::{Item, ItemDiag};
use lexer::items::Items;
use lexer::items::item::ident::{Ident, IdentDiag};
use lexer::items::shared::distribution::Distribution;
use lexer::items::shared::whitespaces::Whitespaces;
use lexer::parse::{DiagParse, Parse};
use lexer::slice::Slice;
use std::fmt::Debug;
use std::ops::RangeInclusive;

fn check<'s, T: Parse<'s> + PartialEq + Debug>(source: &'s str, get_item: impl FnOnce(&Code<'s>) -> T) {
    let code = Code::new(source);
    assert_eq!(T::parse(&code, &mut Diags::default()), Some(get_item(&code)));
}

fn check_none<'s, T: Parse<'s> + PartialEq + Debug>(source: &'s str) {
    assert_eq!(T::parse(&Code::new(source), &mut Diags::default()), None);
}

fn check_diag<'s, D: PartialEq + Debug, I: DiagParse<'s, Diag = D> + PartialEq + Debug>(
    source: &'s str,
    diags: Vec<Diag<D>>,
) {
    assert_eq!(I::diag(&Code::new(source)), Err(Diags::from_errors(diags)));
}

fn check_items<'s>(source: &'s str, get_items: impl FnOnce(&Code<'s>) -> Vec<Item<'s>>) {
    let code = Code::new(source);
    assert_eq!(Items::parse(&code, &mut Diags::default()), Some(Items(get_items(&code))));
}

#[test]
fn mod_parse() {
    // assignments
    let check_assign = |source, v: (RangeInclusive<usize>, (LiteralType, RangeInclusive<usize>))| {
        check(source, |code| {
            Assign(LeftRight {
                left: Ident::new(v.0, code),
                right: Literal { type_: v.1 .0, slice: Slice::new(v.1 .1, code) },
                _marker: Default::default(),
            })
        });
    };
    check_assign(" abc = 6", (1..=3, (LiteralType::Number, 7..=7)));
    check_assign("abc=6", (0..=2, (LiteralType::Number, 4..=4)));
    check_assign(" abc=6 ", (1..=3, (LiteralType::Number, 5..=5)));
    check_assign(" abc = \"root\"", (1..=3, (LiteralType::String, 7..=12)));
    check_none::<Assign>("abc =");
    check_none::<Assign>("abc = ");
    check_none::<Assign>("abc=");

    // literals
    let check_literal = |source, v: (LiteralType, RangeInclusive<usize>)| {
        check(source, |code| Literal { type_: v.0, slice: Slice::new(v.1, code) });
    };
    check_literal("2", (LiteralType::Number, 0..=0));
    check_literal("2 ", (LiteralType::Number, 0..=0));
    check_literal(" 2", (LiteralType::Number, 1..=1));
    check_literal("  2  ", (LiteralType::Number, 2..=2));
    check_literal("  233", (LiteralType::Number, 2..=4));
    check_literal("  443  ", (LiteralType::Number, 2..=4));
    check_literal("3434", (LiteralType::Number, 0..=3));
    check_literal(r#""abc""#, (LiteralType::String, 0..=4));
    check_literal(r#""abc"  "#, (LiteralType::String, 0..=4));
    check_literal(r#"  "abc"  "#, (LiteralType::String, 2..=6));
    check_literal(r#"  " ab s3fsf d2_c "  "#, (LiteralType::String, 2..=18));
    check_none::<Literal>(" 2sdf ");
    check_none::<Literal>(" \"2sdf ");

    // assignment expressions
    let check_expr = |source,
                      f: (AssignExprType, (RangeInclusive<usize>, (LiteralType, RangeInclusive<usize>)))| {
        check(source, |code| AssignExpr {
            type_: f.0,
            val: Assign::new(f.1 .0, (f.1 .1 .0, f.1 .1 .1), code),
        });
    };
    check_expr(" abc=6", (AssignExprType::Assign, (1..=3, (LiteralType::Number, 5..=5))));
    check_expr(" abc = 6", (AssignExprType::Assign, (1..=3, (LiteralType::Number, 7..=7))));
    check_expr(" abc = \"root\"", (AssignExprType::Assign, (1..=3, (LiteralType::String, 7..=12))));
    check_expr(
        " abc += 6",
        (AssignExprType::AssignAnd(AssignAndType::Add), (1..=3, (LiteralType::Number, 8..=8))),
    );
    check_none::<AssignExpr>("");
    check_none::<AssignExpr>(" ");

    // blocks written out
    check("main {}", |code| InitBlock::Named(NamedBlock::new(0..=3, (vec![], [5, 6]), code)));
    check(" {  } ", |_| InitBlock::Unnamed(UnnamedBlock::new(vec![], [1, 4])));

    // items
    check(" abc = \"abc\"", |code| {
        Item::AssignExpr(AssignExpr {
            type_: AssignExprType::Assign,
            val: Assign::new(1..=3, (LiteralType::String, 7..=11), code),
        })
    });
    check(" abc = \"a", |code| Item::Ident(Ident::new(1..=3, code)));
    check_none::<Item>("  ");

    // lists of items
    check_items(" abc = \"abc\"", |code| {
        vec![Item::AssignExpr(AssignExpr {
            type_: AssignExprType::Assign,
            val: Assign::new(1..=3, (LiteralType::String, 7..=11), code),
        })]
    });
    check_items(" abc = \"abc\" abc", |code| {
        vec![
            Item::AssignExpr(AssignExpr {
                type_: AssignExprType::Assign,
                val: Assign::new(1..=3, (LiteralType::String, 7..=11), code),
            }),
            Item::Ident(Ident::new(13..=15, code)),
        ]
    });
    check_items("   ", |_| vec![]);
    check_items(" aыы aыы", |code| {
        vec![Item::Ident(Ident::new(1..=3, code)), Item::Ident(Ident::new(5..=7, code))]
    });
    check_items(" aыы;aыы", |code| {
        vec![Item::Ident(Ident::new(1..=3, code)), Item::Ident(Ident::new(5..=7, code))]
    });
}

#[test]
fn mod_diag() {
    check_diag::<AssignDiag, Assign>(" a - 2", vec![(3, AssignDiag::ExpectEqual)]);

    check_diag::<LiteralDiag, Literal>(
        "  43c",
        vec![
            (4, LiteralDiag::Number(NumberDiag::MustBeNumber)),
            (2, LiteralDiag::String(StringDiag::StartsWithQuote)),
        ],
    );
    check_diag::<LiteralDiag, Literal>(
        " \"43c",
        vec![
            (1, LiteralDiag::Number(NumberDiag::StartsWithNumber)),
            (4, LiteralDiag::String(StringDiag::EndsWithQuote)),
        ],
    );

    check_diag::<AssignExprDiag, AssignExpr>(
        " a - 2",
        vec![
            (3, AssignExprDiag::Assign(AssignDiag::ExpectEqual)),
            (4, AssignExprDiag::AssignAnd(AssignAndDiag::Assign(AssignDiag::ExpectEqual))),
        ],
    );
    check_diag::<AssignExprDiag, AssignExpr>(
        " a ( 2",
        vec![
            (3, AssignExprDiag::Assign(AssignDiag::ExpectEqual)),
            (3, AssignExprDiag::AssignAnd(AssignAndDiag::ExpectOperator)),
        ],
    );

    // an item: only the diagnostics raised furthest on are kept
    check_diag::<ItemDiag, Item>(
        "  43c",
        vec![(4, ItemDiag::Literal(LiteralDiag::Number(NumberDiag::MustBeNumber)))],
    );

    // a list of items: the `;` that is no item is reported, the items around it are kept
    let code = Code::new("a b; c d");
    let mut diags = Diags::default();
    let items = Items::parse(&code, &mut diags).unwrap();
    assert_eq!(
        items,
        Items(vec![
            Item::Ident(Ident::new(0..=0, &code)),
            Item::Ident(Ident::new(2..=2, &code)),
            Item::Ident(Ident::new(5..=5, &code)),
            Item::Ident(Ident::new(7..=7, &code)),
        ])
    );
    assert_eq!(diags.pos, Some(3));
    assert!(!diags.errors.is_empty());
}

#[test]
fn assign_and_parse() {
    check(" abc += 6", |code| {
        AssignAnd::new(AssignAndType::Add, (1..=3, (LiteralType::Number, 8..=8)), code)
    });
    check(" abc -= 6", |code| {
        AssignAnd::new(AssignAndType::Sub, (1..=3, (LiteralType::Number, 8..=8)), code)
    });
    check(" abc *= 6", |code| {
        AssignAnd::new(AssignAndType::Mul, (1..=3, (LiteralType::Number, 8..=8)), code)
    });
    check(" abc /= 6", |code| {
        AssignAnd::new(AssignAndType::Div, (1..=3, (LiteralType::Number, 8..=8)), code)
    });
    check("abc+=6", |code| {
        AssignAnd::new(AssignAndType::Add, (0..=2, (LiteralType::Number, 5..=5)), code)
    });

    check_none::<AssignAnd>("a + ");
    check_none::<AssignAnd>("");
    check_none::<AssignAnd>(" ");
    check_none::<AssignAnd>("   ");
}

#[test]
fn assign_and_diag() {
    check_diag::<AssignAndDiag, AssignAnd>(
        " a - 2",
        vec![(4, AssignAndDiag::Assign(AssignDiag::ExpectEqual))],
    );
    check_diag::<AssignAndDiag, AssignAnd>(" a ( 2", vec![(3, AssignAndDiag::ExpectOperator)]);
}

#[test]
fn number_parse() {
    let check_number = |source, v| {
        check(source, |code| Number(Slice::new(v, code)));
    };
    check_number("2", 0..=0);
    check_number("2 ", 0..=0);
    check_number(" 2", 1..=1);
    check_number("  2  ", 2..=2);
    check_number("  233", 2..=4);
    check_number("  443  ", 2..=4);
    check_number("3434", 0..=3);

    check_none::<Number>("");
    check_none::<Number>("  ");
    check_none::<Number>("  2sdf ");
    check_none::<Number>("  abc  ");
    check_none::<Number>("abc123");
}

#[test]
fn number_diag() {
    check_diag::<NumberDiag, Number>("  43c", vec![(4, NumberDiag::MustBeNumber)]);
    check_diag::<NumberDiag, Number>("  4c", vec![(3, NumberDiag::MustBeNumber)]);
    check_diag::<NumberDiag, Number>("  c", vec![(2, NumberDiag::StartsWithNumber)]);
}

#[test]
fn string_parse() {
    let check_string = |source, range| {
        check(source, |code| String(Slice::new(range, code)));
    };
    check_string(r#""abc""#, 0..=4);
    check_string(r#""abc"  "#, 0..=4);
    check_string(r#"  "abc"  "#, 2..=6);
    check_string(r#"  " ab s3fsf d2_c "  "#, 2..=18);
    check_string(r#""""#, 0..=1);
    check_string(r#" " " "#, 1..=3);

    check_none::<String>(" 2sdf ");
    check_none::<String>(" \"2sdf ");
    check_none::<String>(" \" ");
}

#[test]
fn string_diag() {
    check_diag::<StringDiag, String>("  43c", vec![(2, StringDiag::StartsWithQuote)]);
    check_diag::<StringDiag, String>("  \"4c", vec![(4, StringDiag::EndsWithQuote)]);
}

#[test]
fn named_parse() {
    check("main..", |code| CallBlockDistruct {
        name: Ident::new(0..=3, code),
        dist: Distribution(Slice::new(4..=5, code)),
    });
    check(" main  ..  ", |code| CallBlockDistruct {
        name: Ident::new(1..=4, code),
        dist: Distribution(Slice::new(7..=8, code)),
    });

    check_none::<CallBlockDistruct>(" main  .  ");
    check_none::<CallBlockDistruct>("..  ");
    check_none::<CallBlockDistruct>(" dsf. ");
    check_none::<CallBlockDistruct>(" ");
    check_none::<CallBlockDistruct>("");

    // named blocks
    check("main {}", |code| NamedBlock {
        name: Ident::new(0..=3, code),
        block: UnnamedBlock::new(vec![], [5, 6]),
    });
    check("  main   {  }  ", |code| NamedBlock {
        name: Ident::new(2..=5, code),
        block: UnnamedBlock::new(vec![], [9, 12]),
    });
    check("  main   { dsffds }  ", |code| NamedBlock {
        name: Ident::new(2..=5, code),
        block: UnnamedBlock::new(vec![Item::Ident(Ident::new(11..=16, code))], [9, 18]),
    });
}

#[test]
fn init_parse() {
    check(" main {}..", |code| InitBlockDistruct {
        named_block: NamedBlock {
            name: Ident::new(1..=4, code),
            block: UnnamedBlock::new(vec![], [6, 7]),
        },
        distr: Distribution(Slice::new(8..=9, code)),
    });

    check_none::<InitBlockDistruct>(" main }..");
    check_none::<InitBlockDistruct>(" main {..");
    check_none::<InitBlockDistruct>(" main {}.");
    check_none::<InitBlockDistruct>(" main {}");
    check_none::<InitBlockDistruct>(" main .");
    check_none::<InitBlockDistruct>(" main ..");
}

#[test]
fn unnamed_parse() {
    check(" {  } ", |_| UnnamedBlock::new(vec![], [1, 4]));
    check(" {}", |_| UnnamedBlock::new(vec![], [1, 2]));
    check("{}", |_| UnnamedBlock::new(vec![], [0, 1]));

    check("{asdasd asdasd asdasd}", |code| {
        UnnamedBlock::new(
            vec![
                Item::Ident(Ident::new(1..=6, code)),
                Item::Ident(Ident::new(8..=13, code)),
                Item::Ident(Ident::new(15..=20, code)),
            ],
            [0, 21],
        )
    });

    check("{asdasd asdasd asdasd { dsf } }", |code| {
        Block::Init(InitBlock::Unnamed(UnnamedBlock::new(
            vec![
                Item::Ident(Ident::new(1..=6, code)),
                Item::Ident(Ident::new(8..=13, code)),
                Item::Block(Block::Init(InitBlock::Named(NamedBlock {
                    name: Ident::new(15..=20, code),
                    block: UnnamedBlock {
                        items: Items(vec![Item::Ident(Ident::new(24..=26, code))]),
                        open_bracket_pos: 22,
                        close_bracket_pos: 28,
                    },
                }))),
            ],
            [0, 30],
        )))
    });

    // error
    check_none::<UnnamedBlock>("");
    check_none::<UnnamedBlock>(" ");
    check_none::<UnnamedBlock>("   ");
    check_none::<UnnamedBlock>(" } ");
    check_none::<UnnamedBlock>(" { ");
}

#[test]
fn unnamed_diag() {
    check_diag::<UnnamedBlockDiag, UnnamedBlock>(
        "s",
        vec![(0, UnnamedBlockDiag::StartsOpenBracket)],
    );
    check_diag::<UnnamedBlockDiag, UnnamedBlock>(
        "{dd",
        vec![(2, UnnamedBlockDiag::EndsOpenBracket)],
    );
    check_diag::<UnnamedBlockDiag, UnnamedBlock>(
        "  {  ",
        vec![(4, UnnamedBlockDiag::EndsOpenBracket)],
    );
    // the diagnostics of the items inside the block are not kept
    check_diag::<UnnamedBlockDiag, UnnamedBlock>(
        "  { 23d ",
        vec![(7, UnnamedBlockDiag::EndsOpenBracket)],
    );
}

#[test]
fn ident_parse() {
    let check_ident = |source, range| {
        check(source, move |code| Ident::new(range, code));
    };
    check_ident("abc", 0..=2);
    check_ident("  abc", 2..=4);
    check_ident("  фbc  ", 2..=4);
    check_ident("abc123", 0..=5);
    check_ident(" abc__123 ", 1..=8);
    check_ident(" _123 ", 1..=4);
    check_ident(" abc_=s23 ", 1..=4);

    check_ident("a", 0..=0);
    check_ident(" a ", 1..=1);
    check_ident(" _ ", 1..=1);

    check_ident(" фc", 1..=2);
    check_ident(" ффф ", 1..=3);
    check_ident(" dъя", 1..=3);
    check_ident(" d;", 1..=1);

    check_none::<Ident>("  2sdf ");
    check_none::<Ident>("  ");
}

#[test]
fn ident_diag() {
    check_diag::<IdentDiag, Ident>(" 2sdf", vec![(1, IdentDiag::StartsWithNotNumber)]);
    check_diag::<IdentDiag, Ident>("  ", vec![]);
}

#[test]
fn parse_distribution() {
    check(" .. ", |code| Distribution(Slice::new(1..=2, code)));
    check(" ..", |code| Distribution(Slice::new(1..=2, code)));
    check("..", |code| Distribution(Slice::new(0..=1, code)));

    check_none::<Distribution>(".");
    check_none::<Distribution>("");
    check_none::<Distribution>("  ");
    check_none::<Distribution>(" . ");
    check_none::<Distribution>(" .");
}

#[test]
fn whitespaces_parse() {
    check(" ", |code| Whitespaces(Slice::new(0..=0, code)));
    check("     ", |code| Whitespaces(Slice::new(0..=4, code)));
    check("     f", |code| Whitespaces(Slice::new(0..=4, code)));
    check_none::<Whitespaces>("f     f");
    check_none::<Whitespaces>("f");
    check_none::<Whitespaces>("");
}

#[test]
fn items_render() {
    let code = Code::new(" abc += 6 main..");
    let expr = AssignExpr::parse(&code, &mut Diags::default()).unwrap();
    assert_eq!(expr.to_string(), "AssignAnd(Ident(abc) Add(+=) Literal(Number(6)))");
    let code = Code::new(" abc = \"x\"");
    let expr = AssignExpr::parse(&code, &mut Diags::default()).unwrap();
    assert_eq!(expr.to_string(), "AssignAnd(Ident(abc) = Literal(String(\"x\")))");
    assert_eq!(expr.val.to_string(), "AssignAnd(Ident(abc) = Literal(String(\"x\")))");
    let code = Code::new("main..");
    let call = CallBlockDistruct::parse(&code, &mut Diags::default()).unwrap();
    assert_eq!(call.to_string(), "NamedDistruct(Ident(main))");
    assert_eq!(call.name.0.to_string(), "main");
    assert_eq!(AssignAndType::Div.to_string(), "Div(/=)");
    assert_eq!(NumberDiag::MustBeNumber.to_string(), "Должно быть число");
    assert_eq!(StringDiag::EndsWithQuote.to_string(), "Должно заканчиватся на \"");
    let code = Code::new("6");
    let and = AssignAnd::new(AssignAndType::Sub, (0..=0, (LiteralType::Number, 0..=0)), &code);
    assert_eq!(and.to_string(), "AssignAnd(Ident(6) Sub(-=) Literal(Number(6)))");
}

#[test]
fn code_code() {
    let mut code = Code::new("a◕◕fadф");
    code.offset(2);
    assert_eq!(code.cursor, 2);
    assert_eq!(code.iter(), vec![(2, '◕'), (3, 'f'), (4, 'a'), (5, 'd'), (6, 'ф')]);
    code.consume(2);
    assert_eq!(code.cursor, 3);
    assert_eq!(code.get_offset_slice(3), Some("fad"));
    assert_eq!(code.get_char(6), 'ф');
}

#[test]
fn item_leading_whitespace() {
    // recognizing where the blanks start or where they end gives the same item
    let code = Code::new(" \n\t abc = 6");
    let from_start = Item::parse(&code, &mut Diags::default());
    let mut after = code.clone();
    after.cursor = 4;
    assert_eq!(from_start, Item::parse(&after, &mut Diags::default()));
    // and the same diagnostics
    let code = Code::new("   43c");
    let mut later = code.clone();
    later.cursor = 3;
    assert_eq!(Item::diag(&code), Item::diag(&later));
}

#[test]
fn dota() {
    let diags = Item::diag(&Code::new(" 43c")).unwrap_err();
    let mut memo = vec![];
    for diag in diags.errors.iter() {
        diag.tmp(&mut memo);
    }
    let shown: Vec<std::string::String> =
        memo.iter().map(|v| format!("{} {:?}", v.get_info(), v)).collect();
    assert_eq!(shown, vec!["NumberDiag Number(MustBeNumber)".to_string()]);
    assert_eq!(diags.pos, Some(3));
}

#[test]
fn diags_keep_furthest() {
    // only what was raised furthest on is kept, in the order it was raised
    let d = Diags::from_errors(vec![(1, 'a'), (3, 'b'), (2, 'c'), (3, 'd'), (0, 'e')]);
    assert_eq!(d.pos, Some(3));
    assert_eq!(d.errors, vec!['b', 'd']);
    let none: Diags<char> = Diags::from_errors(vec![]);
    assert_eq!(none.pos, None);
    assert!(none.errors.is_empty());
}

#[test]
fn diags_batch_or_one_by_one() {
    // taking in a batch keeps what raising its diagnostics one at a time keeps
    let batch = vec![(2, 'x'), (5, 'y'), (5, 'z'), (4, 'w')];
    let mut at_once = Diags::from_errors(vec![(5, 'a'), (1, 'b')]);
    at_once.extend(batch.clone());
    let mut one_by_one = Diags::from_errors(vec![(5, 'a'), (1, 'b')]);
    for d in batch {
        one_by_one.extend_one(d);
    }
    assert_eq!(at_once, one_by_one);
    assert_eq!(at_once.errors, vec!['a', 'y', 'z']);
}
