use minic::ast::Statement;
use minic::chars::{char_digit_value, char_is_digit, classify, Classified};
use minic::fasm::generate_fasm_x86_64_linux;
use minic::lexer::Lexer;
use minic::loc::Loc;
use minic::parser::parse_function;
use minic::python3::generate_python3;
use minic::token::{Token, TokenKind};

/// Classifies as `char` does, but counts the underscore as a letter.
fn with_underscore(source: &str) -> Vec<Classified> {
    source
        .chars()
        .map(|c| {
            if c == '_' {
                Classified { ch: c, whitespace: false, alphabetic: true, alphanumeric: true }
            } else {
                classify(c)
            }
        })
        .collect()
}

fn at(row: usize, col: usize) -> Loc {
    Loc::new("c.c".to_string(), row, col)
}

#[test]
fn classify_follows_char() {
    assert_eq!(
        classify('a'),
        Classified { ch: 'a', whitespace: false, alphabetic: true, alphanumeric: true }
    );
    assert_eq!(
        classify('7'),
        Classified { ch: '7', whitespace: false, alphabetic: false, alphanumeric: true }
    );
    assert_eq!(
        classify('\n'),
        Classified { ch: '\n', whitespace: true, alphabetic: false, alphanumeric: false }
    );
    assert_eq!(
        classify('_'),
        Classified { ch: '_', whitespace: false, alphabetic: false, alphanumeric: false }
    );
    assert_eq!(
        classify('\u{e9}'),
        Classified { ch: '\u{e9}', whitespace: false, alphabetic: true, alphanumeric: true }
    );
}

#[test]
fn decimal_digits() {
    assert!(char_is_digit('0'));
    assert!(char_is_digit('9'));
    assert!(!char_is_digit('a'));
    assert!(!char_is_digit('/'));
    assert!(!char_is_digit(':'));
    assert!(!char_is_digit('\u{663}'));
    assert_eq!(char_digit_value('0'), 0);
    assert_eq!(char_digit_value('7'), 7);
    assert_eq!(char_digit_value('9'), 9);
}

#[test]
fn new_classifies_the_source() {
    let lx = Lexer::new("c.c".to_string(), "a_ 1".to_string());
    let expected: Vec<Classified> = "a_ 1".chars().map(classify).collect();
    assert_eq!(lx.source, expected);
    assert_eq!((lx.cur, lx.bol, lx.row), (0, 0, 0));
    assert_eq!(lx.file_path, "c.c");
}

#[test]
fn lexer_goes_by_the_classes_it_is_given() {
    let source = vec![
        Classified { ch: '1', whitespace: false, alphabetic: true, alphanumeric: true },
        Classified { ch: '+', whitespace: false, alphabetic: false, alphanumeric: true },
        Classified { ch: 'x', whitespace: true, alphabetic: true, alphanumeric: true },
        Classified { ch: ';', whitespace: false, alphabetic: false, alphanumeric: false },
    ];
    let mut lx = Lexer::from_classified("c.c".to_string(), source);
    assert_eq!(
        lx.next_token().unwrap(),
        Some(Token::new(at(0, 0), TokenKind::Name("1+x".to_string())))
    );
    assert_eq!(lx.next_token().unwrap(), Some(Token::new(at(0, 3), TokenKind::Semicolon)));
    assert_eq!(lx.next_token().unwrap(), None);
}

#[test]
fn whole_function_where_underscore_counts_as_letter() {
    let source = with_underscore("TYPE_INT main() { return 0; }");
    let mut lx = Lexer::from_classified("c.c".to_string(), source);
    let f = parse_function(&mut lx).unwrap();
    assert_eq!(f.name, Token::new(at(0, 9), TokenKind::Name("main".to_string())));
    assert_eq!(
        f.body,
        vec![Statement::Return { expr: Token::new(at(0, 25), TokenKind::Number(0)) }]
    );
    assert!(lx.is_empty() || lx.next_token().unwrap().is_none());
}

#[test]
fn whole_program_where_underscore_counts_as_letter() {
    let source = with_underscore("TYPE_INT main() { printf(\"hi\\n\"); return 0; }");
    let mut lx = Lexer::from_classified("c.c".to_string(), source);
    let f = parse_function(&mut lx).unwrap();
    assert_eq!(f.body.len(), 2);
    assert_eq!(generate_python3(&f).unwrap(), "print(\"hi\\n\")\n");
    assert_eq!(
        generate_fasm_x86_64_linux(&f).unwrap(),
        "format ELF64 executable 3\nsegment readable executable\nentry start\nstart:\n    mov rax, 1\n    mov rdi, 1\n    mov rsi, str_0\n    mov rdx, 3\n    syscall\n    mov rax, 60\n    mov rdi, 0\n    syscall\nsegment readable writable\nstr_0 db 104,105,10\n"
    );
}

#[test]
fn malformed_programs_fail_where_underscore_counts_as_letter() {
    for source in [
        "TYPE_INT main() { return 0; ",
        "TYPE_INT main() { return 0 }",
        "TYPE_INT main() { return main; }",
        "TYPE_INT main() { printf(\"a\", 1); }",
        "TYPE_INT main( { }",
        "TYPE_INT () { }",
        "INT main() { }",
        "",
    ] {
        let mut lx = Lexer::from_classified("c.c".to_string(), with_underscore(source));
        assert!(parse_function(&mut lx).is_err());
    }
}
