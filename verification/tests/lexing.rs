use minic::error::{CompileError, ErrorKind};
use minic::lexer::Lexer;
use minic::loc::Loc;
use minic::token::{Token, TokenKind};

fn lexer(source: &str) -> Lexer {
    Lexer::new("t.c".to_string(), source.to_string())
}

fn all_tokens(source: &str) -> Result<Vec<Token>, CompileError> {
    let mut lx = lexer(source);
    let mut out = Vec::new();
    loop {
        match lx.next_token()? {
            Some(t) => out.push(t),
            None => return Ok(out),
        }
    }
}

fn kinds(source: &str) -> Vec<TokenKind> {
    all_tokens(source).unwrap().into_iter().map(|t| t.kind).collect()
}

fn first_error(source: &str) -> CompileError {
    all_tokens(source).unwrap_err()
}

#[test]
fn loc_display_is_one_based() {
    assert_eq!(Loc::new("a.c".to_string(), 0, 0).display(), "a.c:1:1");
    assert_eq!(Loc::new("dir/b.c".to_string(), 9, 99).display(), "dir/b.c:10:100");
    assert_eq!(Loc::new("".to_string(), 122, 4).display(), ":123:5");
}

#[test]
fn token_location_is_offset_of_first_character() {
    let toks = all_tokens("\n\n  foo").unwrap();
    assert_eq!(toks.len(), 1);
    assert_eq!(toks[0].kind, TokenKind::Name("foo".to_string()));
    assert_eq!(toks[0].loc, Loc::new("t.c".to_string(), 2, 2));
    assert_eq!(toks[0].loc.display(), "t.c:3:3");
}

#[test]
fn single_token_at_start_is_at_origin() {
    for src in ["x", "(", ")", "{", "}", ",", ";", "42", "\"s\""] {
        let toks = all_tokens(src).unwrap();
        assert_eq!(toks.len(), 1);
        assert_eq!(toks[0].loc, Loc::new("t.c".to_string(), 0, 0));
    }
}

#[test]
fn columns_count_characters_not_bytes() {
    let toks = all_tokens("\"\u{e9}\u{e9}\" x").unwrap();
    assert_eq!(toks[0].kind, TokenKind::StringLiteral("\u{e9}\u{e9}".to_string()));
    assert_eq!(toks[1].loc, Loc::new("t.c".to_string(), 0, 5));
}

#[test]
fn locations_follow_line_breaks() {
    let toks = all_tokens("a\n b\n\n   c d").unwrap();
    let locs: Vec<(usize, usize)> = toks.iter().map(|t| (t.loc.row, t.loc.col)).collect();
    assert_eq!(locs, vec![(0, 0), (1, 1), (3, 3), (3, 5)]);
}

#[test]
fn string_escape_newline_is_resolved() {
    assert_eq!(kinds("\"a\\nb\""), vec![TokenKind::StringLiteral("a\nb".to_string())]);
}

#[test]
fn string_escape_quote_is_resolved() {
    assert_eq!(kinds("\"a\\\"b\""), vec![TokenKind::StringLiteral("a\"b".to_string())]);
}

#[test]
fn empty_string_literal() {
    assert_eq!(kinds("\"\""), vec![TokenKind::StringLiteral(String::new())]);
}

#[test]
fn unknown_escape_is_an_error() {
    let e = first_error("\"a\\qb\"");
    assert_eq!(e.kind, ErrorKind::UnknownEscape('q'));
    assert_eq!(e.loc, Loc::new("t.c".to_string(), 0, 0));
}

#[test]
fn escape_at_end_of_input_is_an_error() {
    assert_eq!(first_error("  \"a\\").kind, ErrorKind::UnfinishedEscape);
    assert_eq!(first_error("  \"a\\").loc, Loc::new("t.c".to_string(), 0, 2));
}

#[test]
fn unterminated_string_is_an_error() {
    assert_eq!(first_error("\"abc").kind, ErrorKind::UnclosedString);
    assert_eq!(first_error("\"").kind, ErrorKind::UnclosedString);
}

#[test]
fn comments_and_whitespace_yield_no_token() {
    assert_eq!(kinds(""), vec![]);
    assert_eq!(kinds("   \n\t \n"), vec![]);
    assert_eq!(kinds("# a comment"), vec![]);
    assert_eq!(kinds("// one\n# two\n\n   // three\n  "), vec![]);
}

#[test]
fn end_of_input_is_terminal() {
    let mut lx = lexer("x // done");
    assert!(lx.next_token().unwrap().is_some());
    assert!(lx.next_token().unwrap().is_none());
    assert!(lx.next_token().unwrap().is_none());
    assert!(lx.is_empty());
    assert!(!lx.is_not_empty());
}

#[test]
fn comments_between_tokens_are_skipped() {
    assert_eq!(
        kinds("a # x\n// y\n  b"),
        vec![TokenKind::Name("a".to_string()), TokenKind::Name("b".to_string())]
    );
}

#[test]
fn single_slash_is_no_comment() {
    assert_eq!(first_error("/ x").kind, ErrorKind::UnknownToken('/'));
}

#[test]
fn punctuation_tokens() {
    assert_eq!(
        kinds("(){},;"),
        vec![
            TokenKind::Oparen,
            TokenKind::Cparen,
            TokenKind::OpenBrace,
            TokenKind::CloseBrace,
            TokenKind::Comma,
            TokenKind::Semicolon
        ]
    );
}

#[test]
fn names_are_maximal_alphanumeric_runs() {
    assert_eq!(
        kinds("ab12 c3(return"),
        vec![
            TokenKind::Name("ab12".to_string()),
            TokenKind::Name("c3".to_string()),
            TokenKind::Oparen,
            TokenKind::Name("return".to_string())
        ]
    );
}

#[test]
fn names_may_hold_letters_beyond_ascii() {
    assert_eq!(kinds("\u{e9}t\u{e9}2"), vec![TokenKind::Name("\u{e9}t\u{e9}2".to_string())]);
}

#[test]
fn underscore_does_not_start_a_name() {
    assert_eq!(first_error("_x").kind, ErrorKind::UnknownToken('_'));
    assert_eq!(first_error("TYPE_INT").kind, ErrorKind::UnknownToken('_'));
}

#[test]
fn whitespace_beyond_ascii_is_skipped() {
    assert_eq!(kinds("\u{a0}\u{2003}7"), vec![TokenKind::Number(7)]);
}

#[test]
fn numbers_are_decimal_runs() {
    assert_eq!(kinds("0"), vec![TokenKind::Number(0)]);
    assert_eq!(kinds("007"), vec![TokenKind::Number(7)]);
    assert_eq!(kinds("12 345"), vec![TokenKind::Number(12), TokenKind::Number(345)]);
    assert_eq!(kinds("2147483647"), vec![TokenKind::Number(2147483647)]);
}

#[test]
fn number_followed_by_letters_is_two_tokens() {
    assert_eq!(kinds("12ab"), vec![TokenKind::Number(12), TokenKind::Name("ab".to_string())]);
}

#[test]
fn number_out_of_range_is_an_error() {
    assert_eq!(first_error("2147483648").kind, ErrorKind::NumberOutOfRange);
    assert_eq!(first_error(" 99999999999999999999999999").kind, ErrorKind::NumberOutOfRange);
    assert_eq!(first_error(" 99999999999999999999999999").loc, Loc::new("t.c".to_string(), 0, 1));
}

#[test]
fn unknown_character_is_an_error() {
    let e = first_error("a\n  @");
    assert_eq!(e.kind, ErrorKind::UnknownToken('@'));
    assert_eq!(e.loc.display(), "t.c:2:3");
}

#[test]
fn cursor_primitives() {
    let mut lx = lexer("a\n \tb#c\nd");
    lx.chop_char();
    assert_eq!((lx.cur, lx.row, lx.bol), (1, 0, 0));
    lx.trim_left();
    assert_eq!((lx.cur, lx.row, lx.bol), (4, 1, 2));
    assert_eq!(lx.loc(), Loc::new("t.c".to_string(), 1, 2));
    assert!(!lx.at_comment());
    lx.chop_char();
    assert!(lx.at_comment());
    lx.drop_line();
    assert_eq!((lx.cur, lx.row, lx.bol), (8, 2, 8));
    lx.drop_line();
    assert_eq!((lx.cur, lx.row, lx.bol), (9, 2, 8));
    lx.chop_char();
    assert_eq!((lx.cur, lx.row, lx.bol), (9, 2, 8));
}

#[test]
fn token_new_keeps_its_parts() {
    let t = Token::new(Loc::new("f".to_string(), 1, 2), TokenKind::Number(5));
    assert_eq!(t.loc, Loc::new("f".to_string(), 1, 2));
    assert_eq!(t.kind, TokenKind::Number(5));
}
