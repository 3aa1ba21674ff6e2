use minic::ast::{Function, Statement};
use minic::error::{CompileError, ErrorKind, Expected};
use minic::lexer::Lexer;
use minic::loc::Loc;
use minic::parser::{
    accepts, expect_token, parse_arglist, parse_block, parse_function, parse_head, parse_type,
};
use minic::token::{Token, TokenKind};

fn lexer(source: &str) -> Lexer {
    Lexer::new("p.c".to_string(), source.to_string())
}

fn at(row: usize, col: usize) -> Loc {
    Loc::new("p.c".to_string(), row, col)
}

fn name(s: &str) -> TokenKind {
    TokenKind::Name(s.to_string())
}

fn string(s: &str) -> TokenKind {
    TokenKind::StringLiteral(s.to_string())
}

/// Parses what follows the type keyword of a function.
fn function_after_type(source: &str) -> Result<Function, CompileError> {
    let mut lx = lexer(source);
    let name = expect_token(&mut lx, Expected::Name)?;
    expect_token(&mut lx, Expected::Oparen)?;
    expect_token(&mut lx, Expected::Cparen)?;
    let body = parse_block(&mut lx)?;
    Ok(Function { name, body })
}

#[test]
fn function_with_return_zero() {
    let f = function_after_type("main() { return 0; }").unwrap();
    assert_eq!(f.name, Token::new(at(0, 0), name("main")));
    assert_eq!(
        f.body,
        vec![Statement::Return { expr: Token::new(at(0, 16), TokenKind::Number(0)) }]
    );
}

#[test]
fn type_keyword_is_cut_at_its_underscore() {
    let e = parse_function(&mut lexer("TYPE_INT main() { return 0; }")).unwrap_err();
    assert_eq!(e.loc, at(0, 0));
    assert_eq!(
        e.kind,
        ErrorKind::UnexpectedToken { expected: Expected::TypeKeyword, found: name("TYPE") }
    );
    let e = parse_type(&mut lexer("TYPE_INT")).unwrap_err();
    assert_eq!(
        e.kind,
        ErrorKind::UnexpectedToken { expected: Expected::TypeKeyword, found: name("TYPE") }
    );
    let e = parse_head(&mut lexer("int main()")).unwrap_err();
    assert_eq!(
        e.kind,
        ErrorKind::UnexpectedToken { expected: Expected::TypeKeyword, found: name("int") }
    );
}

#[test]
fn type_keyword_is_compared_by_its_text() {
    assert!(accepts(Expected::TypeKeyword, &name("TYPE_INT")));
    assert!(!accepts(Expected::TypeKeyword, &name("TYPE")));
    assert!(!accepts(Expected::TypeKeyword, &string("TYPE_INT")));
    assert!(accepts(Expected::Name, &name("TYPE")));
    assert!(!accepts(Expected::Name, &TokenKind::Number(1)));
    assert!(accepts(Expected::Literal, &TokenKind::Number(1)));
    assert!(accepts(Expected::Literal, &string("x")));
    assert!(!accepts(Expected::Literal, &name("x")));
    assert!(accepts(Expected::CparenOrLiteral, &TokenKind::Cparen));
    assert!(!accepts(Expected::CparenOrLiteral, &TokenKind::Comma));
    assert!(accepts(Expected::CloseBraceOrName, &TokenKind::CloseBrace));
    assert!(accepts(Expected::CloseBraceOrName, &name("f")));
    assert!(!accepts(Expected::CloseBraceOrName, &TokenKind::OpenBrace));
    assert!(accepts(Expected::Oparen, &TokenKind::Oparen));
    assert!(accepts(Expected::Cparen, &TokenKind::Cparen));
    assert!(accepts(Expected::OpenBrace, &TokenKind::OpenBrace));
    assert!(accepts(Expected::Semicolon, &TokenKind::Semicolon));
    assert!(!accepts(Expected::Semicolon, &TokenKind::Comma));
}

#[test]
fn function_with_call_and_return() {
    let f = function_after_type("main() {\n  printf(\"hi\\n\");\n  return 0;\n}").unwrap();
    assert_eq!(
        f.body,
        vec![
            Statement::Funcall {
                name: Token::new(at(1, 2), name("printf")),
                args: vec![Token::new(at(1, 9), string("hi\n"))],
            },
            Statement::Return { expr: Token::new(at(2, 9), TokenKind::Number(0)) },
        ]
    );
}

#[test]
fn empty_block() {
    assert_eq!(parse_block(&mut lexer(" { } ")).unwrap(), vec![]);
}

#[test]
fn return_of_a_string_literal() {
    let body = parse_block(&mut lexer("{return \"x\";}")).unwrap();
    assert_eq!(body, vec![Statement::Return { expr: Token::new(at(0, 8), string("x")) }]);
}

#[test]
fn arguments_stand_without_commas() {
    let args = parse_arglist(&mut lexer("(\"%d %d\" 1 2)")).unwrap();
    let kinds: Vec<TokenKind> = args.into_iter().map(|t| t.kind).collect();
    assert_eq!(kinds, vec![string("%d %d"), TokenKind::Number(1), TokenKind::Number(2)]);
    assert_eq!(parse_arglist(&mut lexer("()")).unwrap(), vec![]);
}

#[test]
fn comma_between_arguments_is_an_error() {
    let e = parse_arglist(&mut lexer("(\"a\", 1)")).unwrap_err();
    assert_eq!(e.loc, at(0, 4));
    assert_eq!(
        e.kind,
        ErrorKind::UnexpectedToken { expected: Expected::CparenOrLiteral, found: TokenKind::Comma }
    );
}

#[test]
fn name_as_argument_is_an_error() {
    let e = parse_arglist(&mut lexer("(x)")).unwrap_err();
    assert_eq!(
        e.kind,
        ErrorKind::UnexpectedToken { expected: Expected::CparenOrLiteral, found: name("x") }
    );
}

#[test]
fn unclosed_brace_is_an_error() {
    let e = function_after_type("main() { return 0; ").unwrap_err();
    assert_eq!(e.kind, ErrorKind::UnexpectedEnd { expected: Expected::CloseBraceOrName });
    assert_eq!(e.loc, at(0, 19));
}

#[test]
fn missing_semicolon_is_an_error() {
    let e = function_after_type("main() { return 0 }").unwrap_err();
    assert_eq!(e.loc, at(0, 18));
    assert_eq!(
        e.kind,
        ErrorKind::UnexpectedToken { expected: Expected::Semicolon, found: TokenKind::CloseBrace }
    );
    let e = function_after_type("main() { f() }").unwrap_err();
    assert_eq!(
        e.kind,
        ErrorKind::UnexpectedToken { expected: Expected::Semicolon, found: TokenKind::CloseBrace }
    );
}

#[test]
fn wrong_token_for_a_literal_is_an_error() {
    let e = function_after_type("main() { return x; }").unwrap_err();
    assert_eq!(e.loc, at(0, 16));
    assert_eq!(
        e.kind,
        ErrorKind::UnexpectedToken { expected: Expected::Literal, found: name("x") }
    );
    let e = function_after_type("main() { return ; }").unwrap_err();
    assert_eq!(
        e.kind,
        ErrorKind::UnexpectedToken { expected: Expected::Literal, found: TokenKind::Semicolon }
    );
}

#[test]
fn call_without_parenthesis_is_an_error() {
    let e = function_after_type("main() { f; }").unwrap_err();
    assert_eq!(
        e.kind,
        ErrorKind::UnexpectedToken { expected: Expected::Oparen, found: TokenKind::Semicolon }
    );
}

#[test]
fn statement_must_start_with_a_name() {
    let e = function_after_type("main() { 1; }").unwrap_err();
    assert_eq!(
        e.kind,
        ErrorKind::UnexpectedToken {
            expected: Expected::CloseBraceOrName,
            found: TokenKind::Number(1)
        }
    );
}

#[test]
fn parameters_are_not_accepted() {
    let e = function_after_type("main(1) { }").unwrap_err();
    assert_eq!(
        e.kind,
        ErrorKind::UnexpectedToken { expected: Expected::Cparen, found: TokenKind::Number(1) }
    );
}

#[test]
fn empty_source_is_an_error() {
    let e = parse_function(&mut lexer("  # nothing\n")).unwrap_err();
    assert_eq!(e.kind, ErrorKind::UnexpectedEnd { expected: Expected::TypeKeyword });
    assert_eq!(e.loc, at(1, 0));
    let e = parse_block(&mut lexer("")).unwrap_err();
    assert_eq!(e.kind, ErrorKind::UnexpectedEnd { expected: Expected::OpenBrace });
}

#[test]
fn lexical_error_ends_the_parse() {
    let e = function_after_type("main() { printf(\"a\\q\"); }").unwrap_err();
    assert_eq!(e.kind, ErrorKind::UnknownEscape('q'));
    let e = function_after_type("main() { return 2147483648; }").unwrap_err();
    assert_eq!(e.kind, ErrorKind::NumberOutOfRange);
}

#[test]
fn expect_token_moves_past_the_token() {
    let mut lx = lexer("  ( )");
    let t = expect_token(&mut lx, Expected::Oparen).unwrap();
    assert_eq!(t, Token::new(at(0, 2), TokenKind::Oparen));
    assert_eq!(lx.cur, 3);
    let t = expect_token(&mut lx, Expected::Cparen).unwrap();
    assert_eq!(t.loc, at(0, 4));
    assert_eq!(lx.cur, 5);
}
