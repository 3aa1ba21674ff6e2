use vstd::prelude::*;
use vstd::string::*;
use crate::loc::{Loc, LocView, display_spec};
use crate::text::{decimal, push_char, push_decimal, push_signed_decimal, signed_decimal};
use crate::token::{TokenKind, TokenKindView};

verus! {

/// What the parser accepts at one point of the grammar.
#[derive(Debug, Clone, Copy, PartialEq, Eq, Structural)]
pub enum Expected {
    /// The name `TYPE_INT`.
    TypeKeyword,
    /// Any name.
    Name,
    Oparen,
    Cparen,
    OpenBrace,
    Semicolon,
    /// A number or a string literal.
    Literal,
    /// A closing parenthesis, a number or a string literal.
    CparenOrLiteral,
    /// A closing brace or any name.
    CloseBraceOrName,
}

impl Expected {
    /// Whether a token of kind `k` is accepted.
    pub open spec fn accepts(self, k: TokenKindView) -> bool {
        match self {
            Expected::TypeKeyword => k == TokenKindView::Name("TYPE_INT"@),
            Expected::Name => k is Name,
            Expected::Oparen => k is Oparen,
            Expected::Cparen => k is Cparen,
            Expected::OpenBrace => k is OpenBrace,
            Expected::Semicolon => k is Semicolon,
            Expected::Literal => k.is_literal(),
            Expected::CparenOrLiteral => k is Cparen || k.is_literal(),
            Expected::CloseBraceOrName => k is CloseBrace || k is Name,
        }
    }
}

/// What went wrong.
#[derive(Debug, PartialEq, Eq)]
pub enum ErrorKind {
    /// A backslash is the last character of the source.
    UnfinishedEscape,
    /// A backslash is followed by a character that is neither `n` nor `"`.
    UnknownEscape(char),
    /// The source ends inside a string literal.
    UnclosedString,
    /// No token starts with this character.
    UnknownToken(char),
    /// A run of digits is no 32-bit signed number.
    NumberOutOfRange,
    /// A token is not among those accepted where it stands.
    UnexpectedToken { expected: Expected, found: TokenKind },
    /// The source ends where a token is needed.
    UnexpectedEnd { expected: Expected },
    /// A call of a function that the target does not know.
    UnknownFunction(String),
    /// A call with the wrong number of arguments.
    WrongArgumentCount { wanted: usize, got: usize },
}

/// The mathematical value of an `ErrorKind`.
pub enum ErrorKindView {
    UnfinishedEscape,
    UnknownEscape(char),
    UnclosedString,
    UnknownToken(char),
    NumberOutOfRange,
    UnexpectedToken { expected: Expected, found: TokenKindView },
    UnexpectedEnd { expected: Expected },
    UnknownFunction(Seq<char>),
    WrongArgumentCount { wanted: nat, got: nat },
}

impl View for ErrorKind {
    type V = ErrorKindView;

    open spec fn view(&self) -> ErrorKindView {
        match self {
            ErrorKind::UnfinishedEscape => ErrorKindView::UnfinishedEscape,
            ErrorKind::UnknownEscape(c) => ErrorKindView::UnknownEscape(*c),
            ErrorKind::UnclosedString => ErrorKindView::UnclosedString,
            ErrorKind::UnknownToken(c) => ErrorKindView::UnknownToken(*c),
            ErrorKind::NumberOutOfRange => ErrorKindView::NumberOutOfRange,
            ErrorKind::UnexpectedToken { expected, found } => ErrorKindView::UnexpectedToken {
                expected: *expected,
                found: found@,
            },
            ErrorKind::UnexpectedEnd { expected } => ErrorKindView::UnexpectedEnd {
                expected: *expected,
            },
            ErrorKind::UnknownFunction(s) => ErrorKindView::UnknownFunction(s@),
            ErrorKind::WrongArgumentCount { wanted, got } => ErrorKindView::WrongArgumentCount {
                wanted: *wanted as nat,
                got: *got as nat,
            },
        }
    }
}

/// A failure of the compiler: what went wrong, and where.
#[derive(Debug, PartialEq, Eq)]
pub struct CompileError {
    pub loc: Loc,
    pub kind: ErrorKind,
}

/// The mathematical value of a `CompileError`.
pub struct ErrorView {
    pub loc: LocView,
    pub kind: ErrorKindView,
}

impl View for CompileError {
    type V = ErrorView;

    open spec fn view(&self) -> ErrorView {
        ErrorView { loc: self.loc@, kind: self.kind@ }
    }
}

/// How a diagnostic names what was expected.
pub open spec fn expected_text(expected: Expected) -> Seq<char> {
    match expected {
        Expected::TypeKeyword => "name TYPE_INT"@,
        Expected::Name => "a name"@,
        Expected::Oparen => "`(`"@,
        Expected::Cparen => "`)`"@,
        Expected::OpenBrace => "`{`"@,
        Expected::Semicolon => "`;`"@,
        Expected::Literal => "a number or a string literal"@,
        Expected::CparenOrLiteral => "`)`, a number or a string literal"@,
        Expected::CloseBraceOrName => "`}` or a name"@,
    }
}

/// How a diagnostic names a token that was found.
pub open spec fn kind_text(kind: TokenKindView) -> Seq<char> {
    match kind {
        TokenKindView::Name(s) => "name "@ + s,
        TokenKindView::Oparen => "`(`"@,
        TokenKindView::Cparen => "`)`"@,
        TokenKindView::OpenBrace => "`{`"@,
        TokenKindView::CloseBrace => "`}`"@,
        TokenKindView::Comma => "`,`"@,
        TokenKindView::Semicolon => "`;`"@,
        TokenKindView::Number(n) => "number "@ + signed_decimal(n),
        TokenKindView::StringLiteral(s) => "string literal \""@ + s + "\""@,
    }
}

/// What a diagnostic says of an error, behind its place.
pub open spec fn kind_message(kind: ErrorKindView) -> Seq<char> {
    match kind {
        ErrorKindView::UnfinishedEscape => "unfinished escape sequence"@,
        ErrorKindView::UnknownEscape(c) => "unknown escape sequence starts with "@.push(c),
        ErrorKindView::UnclosedString => "unclosed string literal"@,
        ErrorKindView::UnknownToken(c) => "unknown token starts with "@.push(c),
        ErrorKindView::NumberOutOfRange => "number literal is out of range"@,
        ErrorKindView::UnexpectedToken { expected, found } => "expected "@ + expected_text(
            expected,
        ) + " but got "@ + kind_text(found),
        ErrorKindView::UnexpectedEnd { expected } => "expected "@ + expected_text(expected)
            + " but got end of file"@,
        ErrorKindView::UnknownFunction(s) => "unknown function "@ + s,
        ErrorKindView::WrongArgumentCount { wanted, got } => "expected "@ + decimal(wanted)
            + " argument but got "@ + decimal(got),
    }
}

/// The diagnostic of an error: its place, shown with row and column counted
/// from one, then what went wrong.
pub open spec fn message_spec(e: ErrorView) -> Seq<char> {
    display_spec(e.loc) + ": ERROR: "@ + kind_message(e.kind)
}

/// Appends how a diagnostic names what was expected.
pub fn push_expected(out: &mut String, expected: Expected)
    ensures
        final(out)@ == old(out)@ + expected_text(expected),
{
    match expected {
        Expected::TypeKeyword => out.append("name TYPE_INT"),
        Expected::Name => out.append("a name"),
        Expected::Oparen => out.append("`(`"),
        Expected::Cparen => out.append("`)`"),
        Expected::OpenBrace => out.append("`{`"),
        Expected::Semicolon => out.append("`;`"),
        Expected::Literal => out.append("a number or a string literal"),
        Expected::CparenOrLiteral => out.append("`)`, a number or a string literal"),
        Expected::CloseBraceOrName => out.append("`}` or a name"),
    }
}

/// Appends how a diagnostic names a token that was found.
pub fn push_kind(out: &mut String, kind: &TokenKind)
    ensures
        final(out)@ == old(out)@ + kind_text(kind@),
{
    match kind {
        TokenKind::Name(s) => {
            out.append("name ");
            out.append(s.as_str());
        },
        TokenKind::Oparen => out.append("`(`"),
        TokenKind::Cparen => out.append("`)`"),
        TokenKind::OpenBrace => out.append("`{`"),
        TokenKind::CloseBrace => out.append("`}`"),
        TokenKind::Comma => out.append("`,`"),
        TokenKind::Semicolon => out.append("`;`"),
        TokenKind::Number(n) => {
            out.append("number ");
            push_signed_decimal(out, *n);
        },
        TokenKind::StringLiteral(s) => {
            out.append("string literal \"");
            out.append(s.as_str());
            out.append("\"");
        },
    }
    assert(out@ =~= old(out)@ + kind_text(kind@));
}

impl CompileError {
    /// The diagnostic of this error.
    pub fn message(&self) -> (s: String)
        ensures
            s@ == message_spec(self@),
    {
        let mut out: String = self.loc.display();
        out.append(": ERROR: ");
        let ghost base: Seq<char> = out@;
        match &self.kind {
            ErrorKind::UnfinishedEscape => out.append("unfinished escape sequence"),
            ErrorKind::UnknownEscape(c) => {
                out.append("unknown escape sequence starts with ");
                push_char(&mut out, *c);
            },
            ErrorKind::UnclosedString => out.append("unclosed string literal"),
            ErrorKind::UnknownToken(c) => {
                out.append("unknown token starts with ");
                push_char(&mut out, *c);
            },
            ErrorKind::NumberOutOfRange => out.append("number literal is out of range"),
            ErrorKind::UnexpectedToken { expected, found } => {
                out.append("expected ");
                push_expected(&mut out, *expected);
                out.append(" but got ");
                push_kind(&mut out, found);
            },
            ErrorKind::UnexpectedEnd { expected } => {
                out.append("expected ");
                push_expected(&mut out, *expected);
                out.append(" but got end of file");
            },
            ErrorKind::UnknownFunction(s) => {
                out.append("unknown function ");
                out.append(s.as_str());
            },
            ErrorKind::WrongArgumentCount { wanted, got } => {
                out.append("expected ");
                push_decimal(&mut out, *wanted as u128);
                out.append(" argument but got ");
                push_decimal(&mut out, *got as u128);
            },
        }
        assert(out@ =~= base + kind_message(self.kind@));
        assert(out@ =~= message_spec(self@));
        out
    }
}

} // verus!
