use minic::error::{CompileError, ErrorKind, Expected};
use minic::lexer::Lexer;
use minic::loc::Loc;
use minic::parser::{parse_block, parse_function};
use minic::token::TokenKind;

fn error(kind: ErrorKind) -> CompileError {
    CompileError { loc: Loc::new("d.c".to_string(), 2, 11), kind }
}

#[test]
fn lexical_messages() {
    assert_eq!(
        error(ErrorKind::UnfinishedEscape).message(),
        "d.c:3:12: ERROR: unfinished escape sequence"
    );
    assert_eq!(
        error(ErrorKind::UnknownEscape('q')).message(),
        "d.c:3:12: ERROR: unknown escape sequence starts with q"
    );
    assert_eq!(
        error(ErrorKind::UnclosedString).message(),
        "d.c:3:12: ERROR: unclosed string literal"
    );
    assert_eq!(
        error(ErrorKind::UnknownToken('@')).message(),
        "d.c:3:12: ERROR: unknown token starts with @"
    );
    assert_eq!(
        error(ErrorKind::NumberOutOfRange).message(),
        "d.c:3:12: ERROR: number literal is out of range"
    );
}

#[test]
fn syntactic_messages_name_expected_and_found() {
    let found = |expected: Expected, found: TokenKind| {
        error(ErrorKind::UnexpectedToken { expected, found }).message()
    };
    assert_eq!(
        found(Expected::TypeKeyword, TokenKind::Name("int".to_string())),
        "d.c:3:12: ERROR: expected name TYPE_INT but got name int"
    );
    assert_eq!(
        found(Expected::Name, TokenKind::Number(-12)),
        "d.c:3:12: ERROR: expected a name but got number -12"
    );
    assert_eq!(
        found(Expected::Oparen, TokenKind::Cparen),
        "d.c:3:12: ERROR: expected `(` but got `)`"
    );
    assert_eq!(
        found(Expected::Cparen, TokenKind::Oparen),
        "d.c:3:12: ERROR: expected `)` but got `(`"
    );
    assert_eq!(
        found(Expected::OpenBrace, TokenKind::CloseBrace),
        "d.c:3:12: ERROR: expected `{` but got `}`"
    );
    assert_eq!(
        found(Expected::Semicolon, TokenKind::Comma),
        "d.c:3:12: ERROR: expected `;` but got `,`"
    );
    assert_eq!(
        found(Expected::Literal, TokenKind::Semicolon),
        "d.c:3:12: ERROR: expected a number or a string literal but got `;`"
    );
    assert_eq!(
        found(Expected::CparenOrLiteral, TokenKind::OpenBrace),
        "d.c:3:12: ERROR: expected `)`, a number or a string literal but got `{`"
    );
    assert_eq!(
        found(Expected::CloseBraceOrName, TokenKind::StringLiteral("a\nb".to_string())),
        "d.c:3:12: ERROR: expected `}` or a name but got string literal \"a\nb\""
    );
    assert_eq!(
        error(ErrorKind::UnexpectedEnd { expected: Expected::Semicolon }).message(),
        "d.c:3:12: ERROR: expected `;` but got end of file"
    );
}

#[test]
fn semantic_messages() {
    assert_eq!(
        error(ErrorKind::UnknownFunction("puts".to_string())).message(),
        "d.c:3:12: ERROR: unknown function puts"
    );
    assert_eq!(
        error(ErrorKind::WrongArgumentCount { wanted: 1, got: 10 }).message(),
        "d.c:3:12: ERROR: expected 1 argument but got 10"
    );
}

#[test]
fn message_of_a_parse_failure() {
    let mut lx = Lexer::new("m.c".to_string(), "{\n  return 0\n}".to_string());
    let e = parse_block(&mut lx).unwrap_err();
    assert_eq!(e.message(), "m.c:3:1: ERROR: expected `;` but got `}`");
    let mut lx = Lexer::new("m.c".to_string(), "TYPE_INT main() { return 0; }".to_string());
    let e = parse_function(&mut lx).unwrap_err();
    assert_eq!(e.message(), "m.c:1:1: ERROR: expected name TYPE_INT but got name TYPE");
}
