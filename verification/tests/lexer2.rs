use lexer::lexer2::cache_and_diags::diag::{get_line, Diag};
use lexer::lexer2::cache_and_diags::{Cache, CacheAndDiags, PassList, PosS};
use lexer::lexer2::code::{Code, Source};
use lexer::lexer2::tokens::{
    ident_token, string_token, ErrorType, IdentError, IdentToken, StringError, StringToken, IDENT,
};
use lexer::lexer2::construct::{alternative, construct, Alt};
use lexer::lexer2::{items, reg_observe, try_reg_observe, Cad, Recog, Slicable, Token};

fn diag(source: &str, slice: std::ops::RangeInclusive<usize>, error: u8) -> Diag<u8> {
    Diag { slice, source: Source::from_str(source), error }
}

#[test]
fn source_numbers_characters() {
    let source = Source::from_str("aы\n");
    assert_eq!(source.real_source, "aы\n");
    assert_eq!(source.source, vec![(0, 'a'), (1, 'ы'), (2, '\n')]);
}

#[test]
fn code_residue_and_current() {
    let mut code = Code::from_str("sdf sdf");
    code.cursor = 4;
    assert_eq!(code.get_current(), (4, 's'));
    assert_eq!(code.get_residue(), "sdf");
    assert_eq!(code.len(), 7);
    assert_eq!(code.iter(), &[(4, 's'), (5, 'd'), (6, 'f')]);
    code.cursor = 9;
    assert_eq!(code.get_residue(), "");
}

#[test]
fn reg_observe_matches_at_cursor() {
    let mut code = Code::from_str("  sdfsdf1.");
    assert_eq!(reg_observe(&code, " +"), Ok(0..=1));
    code.cursor = 2;
    assert_eq!(reg_observe(&code, r"[a-z]+"), Ok(2..=7));
    // the match must start at the cursor
    assert_eq!(reg_observe(&code, r"\d"), Err(2));
    code.cursor = 8;
    assert_eq!(reg_observe(&code, r"\d"), Ok(8..=8));
    assert_eq!(reg_observe(&code, r"\.\."), Err(8));
}

#[test]
fn try_reg_observe_refuses() {
    let code = Code::from_str("main..");
    // a pattern that does not compile
    assert_eq!(try_reg_observe(&code, "foo(bar"), None);
    // an empty match
    assert_eq!(try_reg_observe(&code, "x*"), None);
    assert_eq!(try_reg_observe(&code, "main"), Some(Ok(0..=3)));
    assert_eq!(try_reg_observe(&code, r"\.\."), Some(Err(0)));
}

#[test]
fn token_slice() {
    let token = Token('x', 3..=5);
    assert_eq!(token.slice(), 3..=5);
}

#[test]
fn pass_list() {
    let mut list = PassList::new(vec![10, 20, 30]);
    assert_eq!(list.index, 0);
    assert_eq!(*list.get(), 10);
    list.index = 2;
    assert_eq!(*list.get(), 30);
    let empty: PosS<Vec<u8>> = PosS::default();
    assert_eq!(empty.cursor, None);
    assert!(empty.data.is_empty());
}

#[test]
fn cache_check_keeps_furthest() {
    let mut cache: Cache<u8, (), u8> = Cache::new();
    cache.fails.push(((0, 0), diag("abcdef", 0..=2, 1)));
    cache.fails.push(((1, 0), diag("abcdef", 1..=4, 2)));
    cache.fails.push(((2, 1), diag("abcdef", 0..=4, 3)));
    // of the two that end at 4 the last one recorded is kept
    assert_eq!(cache.check(diag("abcdef", 2..=3, 4)).error, 3);

    let mut cache: Cache<u8, (), u8> = Cache::new();
    cache.fails.push(((0, 0), diag("abcdef", 0..=2, 1)));
    // the new error wins when it reaches as far
    assert_eq!(cache.check(diag("abcdef", 1..=2, 4)).error, 4);

    let cache: Cache<u8, (), u8> = Cache::new();
    assert_eq!(cache.check(diag("abcdef", 5..=5, 9)).error, 9);

    let mut cache: Cache<u8, (), u8> = Cache::new();
    cache.fails.push(((0, 0), diag("abcdef", 0..=2, 1)));
    cache.pass.push(PassList::new(vec![()]));
    cache.clear();
    assert!(cache.fails.is_empty() && cache.pass.is_empty());

    let all: CacheAndDiags<u8, (), u8> = CacheAndDiags::default();
    assert!(all.errors.is_empty() && all.cursor.is_none());
}

#[test]
fn diag_line_and_layout() {
    let text: Vec<char> = "2fdg  2fdg\n    2fdg".chars().collect();
    assert_eq!(get_line(&text, 0), 1);
    assert_eq!(get_line(&text, 10), 1);
    assert_eq!(get_line(&text, 11), 2);
    assert_eq!(get_line(&text, 18), 2);
    assert_eq!(get_line(&text, 19), 0);

    let d = diag("2fdg  2fdg\n    2fdg", 6..=9, 0);
    let layout = d.layout(&text);
    assert_eq!(layout.line, 1);
    assert!(layout.lead);
    assert_eq!(layout.marked, (6, 10));
    assert_eq!(layout.after, (10, 13));
    assert!(layout.trail);
    assert_eq!(layout.carets, 4);

    // an error just past the end of the code marks its last character
    let text: Vec<char> = "{".chars().collect();
    let d = diag("{", 1..=1, 0);
    let layout = d.layout(&text);
    assert_eq!(layout.line, 0);
    assert_eq!(layout.marked, (0, 1));
    assert_eq!(layout.after, (1, 1));
    assert!(!layout.trail);
    assert_eq!(layout.carets, 1);
}

#[test]
fn cache_lookups() {
    let mut cache: Cache<usize, (usize, usize, char), u8> = Cache::new();
    cache.fails.push(((1, 0), diag("abc", 0..=0, 1)));
    cache.fails.push(((2, 0), diag("abc", 0..=1, 2)));
    cache.fails.push(((1, 0), diag("abc", 0..=2, 3)));
    // the error recorded last for that kind and position
    assert_eq!(cache.check_fail(1, 0).map(|d| d.error), Some(3));
    assert_eq!(cache.check_fail(2, 0).map(|d| d.error), Some(2));
    assert!(cache.check_fail(1, 1).is_none());

    cache.pass.push(PassList::new(vec![(7, 0, 'a'), (8, 1, 'b')]));
    cache.pass.push(PassList::new(vec![(8, 1, 'c')]));
    // the second list is the first whose next item is kind 8 at 1
    assert_eq!(cache.check_pass(8, 1), Some((1, &'c')));
    cache.pass[0].index = 1;
    assert_eq!(cache.check_pass(8, 1), Some((0, &'b')));
    assert_eq!(cache.check_pass(7, 0), None);
}

#[test]
fn ident() {
    assert_eq!(ident_token(&Code::from_str("sdfsfd")), Ok(0..=5));
    assert_eq!(
        ident_token(&Code::from_str("*")),
        Err((0..=0, ErrorType::Ident(IdentError::StartsWithAlphabetic)))
    );
    assert_eq!(
        ident_token(&Code::from_str("!")),
        Err((0..=0, ErrorType::Ident(IdentError::StartsWithAlphabetic)))
    );
    assert_eq!(
        ident_token(&Code::from_str("2sdf x")),
        Err((0..=3, ErrorType::Ident(IdentError::Alphabetic)))
    );
    let mut code = Code::from_str("ab _c1.");
    code.cursor = 3;
    assert_eq!(ident_token(&code), Ok(3..=5));
    code.cursor = 7;
    assert_eq!(ident_token(&code), Err((7..=7, ErrorType::LineOver)));
}

#[test]
fn string_token_cases() {
    assert_eq!(string_token(&Code::from_str("\"abc\" x")), Ok(0..=4));
    assert_eq!(
        string_token(&Code::from_str("abc")),
        Err((0..=0, ErrorType::String(StringError::StartsWithQuote)))
    );
    assert_eq!(
        string_token(&Code::from_str("\"ab")),
        Err((2..=2, ErrorType::String(StringError::EndsWithQuote)))
    );
    assert_eq!(string_token(&Code::from_str("")), Err((0..=0, ErrorType::LineOver)));
}

fn fresh<T>() -> Cad<T> {
    CacheAndDiags::default()
}

fn slices<T>(cad: &Cad<T>) -> Vec<(usize, usize)> {
    cad.errors.iter().map(|d| (*d.slice.start(), *d.slice.end())).collect()
}

#[test]
fn ignore() {
    let text = " \n\t\t  sdfsdf";
    let skipped = lexer::code::Code::new(text).skip_ignored_from(0);
    let mut code = Code::from_str(text);
    code.cursor = skipped;
    let mut cad = fresh::<IdentToken>();
    let t = IdentToken::recog(&mut code, &mut cad).ok().unwrap();
    assert_eq!(t, IdentToken { start: 6, end: 11 });
    assert_eq!(t.slice(), 6..=11);
    assert_eq!(code.cursor, 12);
}

#[test]
fn head() {
    let mut code = Code::from_str("main..");
    let mut cad = fresh::<IdentToken>();
    assert_eq!(IdentToken::recog(&mut code, &mut cad).ok().unwrap(), IdentToken { start: 0, end: 3 });
    assert_eq!(code.cursor, 4);
    // the head taken note of at 0 is given back from the cache, not recognized again
    cad.cache.pass.push(PassList::new(vec![(IDENT, 0, IdentToken { start: 0, end: 1 })]));
    code.cursor = 0;
    assert_eq!(IdentToken::recog(&mut code, &mut cad).ok().unwrap(), IdentToken { start: 0, end: 1 });
    assert_eq!(code.cursor, 2);
    // an item taken note of for another kind or position is not
    code.cursor = 1;
    assert_eq!(IdentToken::recog(&mut code, &mut cad).ok().unwrap(), IdentToken { start: 1, end: 3 });
    assert_eq!(cad.cache.pass.len(), 1);
}

#[test]
fn item() {
    let mut code = Code::from_str("maijn\t=2323 main { }..sdf\nr+=2 t/=4\"sdfsf sdf\"-+=+");
    let mut cad = fresh::<IdentToken>();
    let found = items(&mut code, &mut cad);
    assert_eq!(found, vec![IdentToken { start: 0, end: 4 }]);
    assert_eq!(code.cursor, 50);
    assert_eq!(
        slices(&cad),
        vec![
            (5, 5), (6, 10), (11, 15), (16, 16), (17, 17), (18, 18), (19, 19), (20, 20),
            (21, 24), (25, 26), (27, 27), (28, 29), (30, 31), (32, 32), (33, 34), (35, 40),
            (41, 44), (45, 45), (46, 46), (47, 47), (48, 48), (49, 49)
        ]
    );
    assert_eq!(cad.errors[0].error, ErrorType::Ident(IdentError::Alphabetic));
    assert_eq!(cad.errors[21].error, ErrorType::Ident(IdentError::StartsWithAlphabetic));
}

#[test]
fn list_walkthrough() {
    let mut code = Code::from_str("main}{ ");
    let mut cad = fresh::<IdentToken>();
    // the first item comes from a list taken note of, which is emptied after it
    cad.cache.pass.push(PassList::new(vec![
        (IDENT, 0, IdentToken { start: 0, end: 1 }),
        (IDENT, 2, IdentToken { start: 2, end: 2 }),
    ]));
    let found = items(&mut code, &mut cad);
    assert_eq!(found, vec![IdentToken { start: 0, end: 1 }, IdentToken { start: 2, end: 3 }]);
    assert!(cad.cache.pass.is_empty());
    assert_eq!(slices(&cad), vec![(4, 4), (5, 5), (6, 6)]);
    assert_eq!(code.cursor, 7);

    let mut code = Code::from_str("main}{ ");
    let mut cad = fresh::<IdentToken>();
    assert_eq!(items(&mut code, &mut cad), vec![IdentToken { start: 0, end: 3 }]);
    assert_eq!(slices(&cad), vec![(4, 4), (5, 5), (6, 6)]);
}

#[test]
fn test_token() {
    let mut code = Code::from_str("sdfsdf1.");
    let mut cad = fresh::<IdentToken>();
    assert_eq!(IdentToken::recog(&mut code, &mut cad).ok().unwrap(), IdentToken { start: 0, end: 6 });
    assert_eq!(code.cursor, 7);

    let mut code = Code::from_str("2sdfsfd");
    let mut cad = fresh::<IdentToken>();
    let e = IdentToken::recog(&mut code, &mut cad).err().unwrap();
    assert_eq!(e.slice, 0..=6);
    assert_eq!(e.error, ErrorType::Ident(IdentError::Alphabetic));
    assert_eq!(code.cursor, 0);
    // a failure recorded for the kind at the cursor is given back as it was recorded
    cad.cache.record_fail(IDENT, 0, diag_of("2sdfsfd", 0..=2, ErrorType::LineOver));
    let again = IdentToken::recog(&mut code, &mut cad).err().unwrap();
    assert_eq!(again.slice, 0..=2);
    assert_eq!(again.error, ErrorType::LineOver);
    cad.cache.record_fail(IDENT, 0, diag_of("2sdfsfd", 0..=3, ErrorType::LineOver));
    assert_eq!(cad.cache.fails.len(), 1);
    assert_eq!(IdentToken::recog(&mut code, &mut cad).err().unwrap().slice, 0..=3);
}

#[test]
fn test_enum_() {
    let mut code = Code::from_str("+ ");
    let mut cad = fresh::<IdentToken>();
    let e = IdentToken::recog(&mut code, &mut cad).err().unwrap();
    assert_eq!((e.slice, e.error), (0..=0, ErrorType::Ident(IdentError::Alphabetic)));

    let mut code = Code::from_str("22");
    let e = IdentToken::recog(&mut code, &mut cad).err().unwrap();
    assert_eq!((e.slice, e.error), (0..=1, ErrorType::Ident(IdentError::Alphabetic)));
}

#[test]
fn test_items() {
    let text = "  \"sdfsf ";
    let skipped = lexer::code::Code::new(text).skip_ignored_from(0);
    assert_eq!(skipped, 2);
    let mut code = Code::from_str(text);
    code.cursor = skipped;
    let mut cad = fresh::<StringToken>();
    let e = StringToken::recog(&mut code, &mut cad).err().unwrap();
    assert_eq!((e.slice, e.error), (8..=8, ErrorType::String(StringError::EndsWithQuote)));
}

#[test]
fn string_token_recog() {
    let mut code = Code::from_str("\"ab\" x");
    let mut cad = fresh::<StringToken>();
    assert_eq!(StringToken::recog(&mut code, &mut cad).ok().unwrap(), StringToken { start: 0, end: 3 });
    assert_eq!(code.cursor, 4);
    // a quote that is the last character opens a string nothing closes
    let mut code = Code::from_str("ab\"");
    code.cursor = 2;
    let e = StringToken::recog(&mut code, &mut cad).err().unwrap();
    assert_eq!((e.slice, e.error), (2..=2, ErrorType::String(StringError::EndsWithQuote)));
    assert_eq!(code.cursor, 2);
}

#[test]
fn items_keep_furthest_error() {
    let mut code = Code::from_str("a+ b");
    let mut cad = fresh::<IdentToken>();
    // an error recorded earlier that reaches further is the one kept for the error at 1
    cad.cache.fails.push(((7, 0), diag_of("a+ b", 0..=2, ErrorType::LineOver)));
    let found = items(&mut code, &mut cad);
    assert_eq!(found, vec![IdentToken { start: 0, end: 0 }, IdentToken { start: 3, end: 3 }]);
    assert_eq!(slices(&cad), vec![(0, 2)]);
    assert_eq!(cad.errors[0].error, ErrorType::LineOver);
    assert_eq!(code.cursor, 4);
}

fn diag_of(source: &str, slice: std::ops::RangeInclusive<usize>, error: ErrorType) -> Diag<ErrorType> {
    Diag { slice, source: Source::from_str(source), error }
}

#[test]
fn construct_takes_note_of_elements() {
    let mut code = Code::from_str("main..");
    let mut cad = fresh::<IdentToken>();
    // two names in a row: the second fails at the dots
    let e = construct(&mut code, &mut cad, 2).err().unwrap();
    assert_eq!((e.slice, e.error), (4..=4, ErrorType::Ident(IdentError::Alphabetic)));
    assert_eq!(code.cursor, 4);
    // the name recognized before the failure is taken note of, and the failure recorded
    assert_eq!(cad.cache.pass.len(), 1);
    assert_eq!(cad.cache.pass[0].items, vec![(IDENT, 0, IdentToken { start: 0, end: 3 })]);
    assert_eq!(cad.cache.pass[0].index, 0);
    assert_eq!(cad.cache.fails.len(), 1);
    assert_eq!(cad.cache.fails[0].0, (IDENT, 4));

    // another construct starting at 0 takes the name from the list instead of recognizing it
    code.cursor = 0;
    let got = construct(&mut code, &mut cad, 1).ok().unwrap();
    assert_eq!(got, vec![IdentToken { start: 0, end: 3 }]);
    assert_eq!(cad.cache.pass[0].index, 1);
    assert_eq!(code.cursor, 4);
    // and recognizing a name at 4 gives back the failure recorded there
    let again = IdentToken::recog(&mut code, &mut cad).err().unwrap();
    assert_eq!(again.slice, 4..=4);

    // no elements: nothing looked at
    let mut code = Code::from_str("x");
    let mut cad = fresh::<IdentToken>();
    assert!(construct(&mut code, &mut cad, 0).ok().unwrap().is_empty());
    assert_eq!(code.cursor, 0);
}

#[test]
fn construct_extends_the_list_it_took_from() {
    let mut code = Code::from_str("ab.");
    let mut cad = fresh::<IdentToken>();
    cad.cache.pass.push(PassList::new(vec![(IDENT, 0, IdentToken { start: 0, end: 0 })]));
    // `a` from the list, `b` from scratch, then the dot fails
    let e = construct(&mut code, &mut cad, 3).err().unwrap();
    assert_eq!((e.slice, e.error), (2..=2, ErrorType::Ident(IdentError::StartsWithAlphabetic)));
    // `b` is added to the list `a` came from, which starts over
    assert_eq!(cad.cache.pass.len(), 1);
    assert_eq!(
        cad.cache.pass[0].items,
        vec![(IDENT, 0, IdentToken { start: 0, end: 0 }), (IDENT, 1, IdentToken { start: 1, end: 1 })]
    );
    assert_eq!(cad.cache.pass[0].index, 0);
    assert_eq!(cad.cache.fails[0].0, (IDENT, 2));

    // the same construct again takes both names from the list
    code.cursor = 0;
    let e = construct(&mut code, &mut cad, 3).err().unwrap();
    assert_eq!(e.slice, 2..=2);
    assert_eq!(cad.cache.pass[0].index, 2);
    assert_eq!(cad.cache.pass[0].items.len(), 2);
}

#[test]
fn alternative_takes_first_recognized() {
    let mut names = fresh::<IdentToken>();
    let mut strings = fresh::<StringToken>();

    let mut code = Code::from_str("ab");
    match alternative(&mut code, &mut names, &mut strings) {
        Ok(Alt::First(t)) => assert_eq!(t, IdentToken { start: 0, end: 1 }),
        _ => panic!("a name was expected"),
    }
    assert_eq!(code.cursor, 2);

    let mut code = Code::from_str("\"ab\"");
    match alternative(&mut code, &mut names, &mut strings) {
        Ok(Alt::Second(t)) => assert_eq!(t, StringToken { start: 0, end: 3 }),
        _ => panic!("a string was expected"),
    }
    assert_eq!(code.cursor, 4);

    let mut code = Code::from_str("+");
    match alternative(&mut code, &mut names, &mut strings) {
        Err((a, b)) => {
            assert_eq!((a.slice, a.error), (0..=0, ErrorType::Ident(IdentError::StartsWithAlphabetic)));
            assert_eq!((b.slice, b.error), (0..=0, ErrorType::String(StringError::StartsWithQuote)));
        },
        _ => panic!("both kinds were expected to fail"),
    }
    assert_eq!(code.cursor, 0);
}
