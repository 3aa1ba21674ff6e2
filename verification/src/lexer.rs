use vstd::prelude::*;
use vstd::string::*;
use crate::chars::{
    Classified, char_digit_value, char_is_digit, chars_of, classified, classify, classify_spec,
    digit_value, is_digit_char,
};
use crate::error::{CompileError, ErrorKind, ErrorKindView, ErrorView};
use crate::loc::{Loc, LocView};
use crate::text::push_char;
use crate::token::{Token, TokenKind, TokenKindView, TokenView};

verus! {

/// The number of line breaks among the first `i` characters of `src`.
pub open spec fn newlines_before(src: Seq<Classified>, i: int) -> nat
    decreases i,
{
    if i <= 0 {
        0
    } else {
        newlines_before(src, i - 1) + if src[i - 1].ch == '\n' {
            1nat
        } else {
            0nat
        }
    }
}

/// The offset at which the line that holds offset `i` begins.
pub open spec fn line_start(src: Seq<Classified>, i: int) -> int
    decreases i,
{
    if i <= 0 {
        0
    } else if src[i - 1].ch == '\n' {
        i
    } else {
        line_start(src, i - 1)
    }
}

/// The place of offset `i`: its row is the number of line breaks before it,
/// its column the distance from the beginning of its line.
pub open spec fn loc_at(path: Seq<char>, src: Seq<Classified>, i: int) -> LocView {
    LocView {
        file_path: path,
        row: newlines_before(src, i),
        col: (i - line_start(src, i)) as nat,
    }
}

/// The number of characters from offset `i` to the end of `src`.
pub open spec fn remaining(src: Seq<Classified>, i: int) -> nat {
    if i <= src.len() {
        (src.len() - i) as nat
    } else {
        0
    }
}

/// The length of the run of whitespace that begins at offset `i`.
pub open spec fn blank_len(src: Seq<Classified>, i: int) -> nat
    decreases src.len() - i,
{
    if 0 <= i < src.len() && src[i].whitespace {
        1 + blank_len(src, i + 1)
    } else {
        0
    }
}

/// The length of what is left of a line from offset `i`, its line break
/// included.
pub open spec fn line_len(src: Seq<Classified>, i: int) -> nat
    decreases src.len() - i,
{
    if i < 0 || i >= src.len() {
        0
    } else if src[i].ch == '\n' {
        1
    } else {
        1 + line_len(src, i + 1)
    }
}

/// Whether a line comment begins at offset `i`: a `#`, or two slashes.
pub open spec fn starts_comment(src: Seq<Classified>, i: int) -> bool {
    0 <= i < src.len() && (src[i].ch == '#' || (i + 1 < src.len() && src[i].ch == '/'
        && src[i + 1].ch == '/'))
}

/// The length of the whitespace and line comments that begin at offset `i`.
pub open spec fn trivia_len(src: Seq<Classified>, i: int) -> nat
    decreases remaining(src, i),
{
    if i < 0 || i >= src.len() {
        0
    } else if src[i].whitespace {
        1 + trivia_len(src, i + 1)
    } else if starts_comment(src, i) {
        line_len(src, i) + trivia_len(src, i + line_len(src, i))
    } else {
        0
    }
}

/// The length of the run of alphanumeric characters that begins at offset `i`.
pub open spec fn alnum_len(src: Seq<Classified>, i: int) -> nat
    decreases src.len() - i,
{
    if 0 <= i < src.len() && src[i].alphanumeric {
        1 + alnum_len(src, i + 1)
    } else {
        0
    }
}

/// The length of the run of decimal digits that begins at offset `i`.
pub open spec fn digit_len(src: Seq<Classified>, i: int) -> nat
    decreases src.len() - i,
{
    if 0 <= i < src.len() && is_digit_char(src[i].ch) {
        1 + digit_len(src, i + 1)
    } else {
        0
    }
}

/// The number that a sequence of decimal digits writes.
pub open spec fn digits_value(s: Seq<char>) -> nat
    decreases s.len(),
{
    if s.len() == 0 {
        0
    } else {
        digits_value(s.drop_last()) * 10 + digit_value(s.last())
    }
}

/// What the inside of a string literal comes to.
pub enum StringScan {
    /// The literal closes: its value with the escapes resolved, and the number
    /// of characters up to and including the closing quote.
    Closed { value: Seq<char>, len: nat },
    UnfinishedEscape,
    UnknownEscape(char),
    Unclosed,
}

/// Puts `prefix`, read from `n` characters, before what a scan found.
pub open spec fn scan_after(prefix: Seq<char>, n: nat, rest: StringScan) -> StringScan {
    match rest {
        StringScan::Closed { value, len } => StringScan::Closed {
            value: prefix + value,
            len: n + len,
        },
        other => other,
    }
}

/// Scans the inside of a string literal from offset `i`, the first character
/// after the opening quote. `\n` stands for a line break and `\"` for a quote.
pub open spec fn scan_string(src: Seq<Classified>, i: int) -> StringScan
    decreases src.len() - i,
{
    if i < 0 || i >= src.len() {
        StringScan::Unclosed
    } else if src[i].ch == '"' {
        StringScan::Closed { value: Seq::empty(), len: 1 }
    } else if src[i].ch == '\\' {
        if i + 1 >= src.len() {
            StringScan::UnfinishedEscape
        } else if src[i + 1].ch == 'n' {
            scan_after(seq!['\n'], 2, scan_string(src, i + 2))
        } else if src[i + 1].ch == '"' {
            scan_after(seq!['"'], 2, scan_string(src, i + 2))
        } else {
            StringScan::UnknownEscape(src[i + 1].ch)
        }
    } else {
        scan_after(seq![src[i].ch], 1, scan_string(src, i + 1))
    }
}

/// What stands at an offset where no whitespace or comment begins.
pub enum Lexed {
    /// The source ends here.
    End,
    /// A token of this kind and length.
    Token { kind: TokenKindView, len: nat },
    Error(ErrorKindView),
}

/// The token that begins at offset `i`.
pub open spec fn lex_at(src: Seq<Classified>, i: int) -> Lexed {
    if i < 0 || i >= src.len() {
        Lexed::End
    } else if src[i].alphabetic {
        let len = 1 + alnum_len(src, i + 1);
        Lexed::Token { kind: TokenKindView::Name(chars_of(src.subrange(i, i + len))), len }
    } else if src[i].ch == '(' {
        Lexed::Token { kind: TokenKindView::Oparen, len: 1 }
    } else if src[i].ch == ')' {
        Lexed::Token { kind: TokenKindView::Cparen, len: 1 }
    } else if src[i].ch == '{' {
        Lexed::Token { kind: TokenKindView::OpenBrace, len: 1 }
    } else if src[i].ch == '}' {
        Lexed::Token { kind: TokenKindView::CloseBrace, len: 1 }
    } else if src[i].ch == ',' {
        Lexed::Token { kind: TokenKindView::Comma, len: 1 }
    } else if src[i].ch == ';' {
        Lexed::Token { kind: TokenKindView::Semicolon, len: 1 }
    } else if src[i].ch == '"' {
        match scan_string(src, i + 1) {
            StringScan::Closed { value, len } => Lexed::Token {
                kind: TokenKindView::StringLiteral(value),
                len: 1 + len,
            },
            StringScan::UnfinishedEscape => Lexed::Error(ErrorKindView::UnfinishedEscape),
            StringScan::UnknownEscape(c) => Lexed::Error(ErrorKindView::UnknownEscape(c)),
            StringScan::Unclosed => Lexed::Error(ErrorKindView::UnclosedString),
        }
    } else if is_digit_char(src[i].ch) {
        let len = 1 + digit_len(src, i + 1);
        let value = digits_value(chars_of(src.subrange(i, i + len)));
        if value <= i32::MAX {
            Lexed::Token { kind: TokenKindView::Number(value as int), len }
        } else {
            Lexed::Error(ErrorKindView::NumberOutOfRange)
        }
    } else {
        Lexed::Error(ErrorKindView::UnknownToken(src[i].ch))
    }
}

/// What a lexer at offset `i` yields next.
pub enum Next {
    /// Nothing: only whitespace and comments are left.
    End,
    /// A token, and the number of characters read up to its end.
    Token { tok: TokenView, len: nat },
    Error(ErrorView),
}

/// The next token from offset `i`: whitespace and comments are skipped, and
/// the token's place is that of its first character.
pub open spec fn next_token_spec(path: Seq<char>, src: Seq<Classified>, i: int) -> Next {
    let start = i + trivia_len(src, i);
    match lex_at(src, start) {
        Lexed::End => Next::End,
        Lexed::Token { kind, len } => Next::Token {
            tok: TokenView { loc: loc_at(path, src, start), kind },
            len: trivia_len(src, i) + len,
        },
        Lexed::Error(kind) => Next::Error(ErrorView { loc: loc_at(path, src, start), kind }),
    }
}

/// A cursor over a source text.
pub struct Lexer {
    pub file_path: String,
    /// The characters of the source, each with its classes.
    pub source: Vec<Classified>,
    /// The offset of the next character.
    pub cur: usize,
    /// The offset at which the current line begins.
    pub bol: usize,
    /// The number of line breaks before the cursor.
    pub row: usize,
}

impl Lexer {
    /// The cursor lies within the source, and row and beginning of line are
    /// those of the cursor's offset.
    pub open spec fn wf(&self) -> bool {
        &&& self.cur <= self.source@.len()
        &&& self.row <= self.cur
        &&& self.bol <= self.cur
        &&& self.row == newlines_before(self.source@, self.cur as int)
        &&& self.bol == line_start(self.source@, self.cur as int)
    }

    /// The same source under the same name.
    pub open spec fn same_text(&self, other: &Lexer) -> bool {
        self.source@ == other.source@ && self.file_path@ == other.file_path@
    }

    /// The same source under the same name, with the cursor `n` characters on.
    pub open spec fn moved(&self, before: &Lexer, n: nat) -> bool {
        self.wf() && self.same_text(before) && self.cur == before.cur + n
    }

    /// A lexer at the beginning of a source, whose characters are classified
    /// as `char` classifies them.
    pub fn new(file_path: String, source: String) -> (lexer: Lexer)
        ensures
            lexer.wf(),
            lexer.file_path@ == file_path@,
            lexer.source@ == classified(source@),
            lexer.cur == 0,
    {
        let text: &str = source.as_str();
        let n: usize = text.unicode_len();
        let mut chars: Vec<Classified> = Vec::new();
        let mut i: usize = 0;
        while i < n
            invariant
                n == text@.len(),
                i <= n,
                chars@.len() == i,
                forall|j: int| 0 <= j < i ==> chars@[j] == classify_spec(text@[j]),
            decreases n - i,
        {
            chars.push(classify(text.get_char(i)));
            i = i + 1;
        }
        assert(chars@ =~= classified(source@));
        Lexer::from_classified(file_path, chars)
    }

    /// A lexer at the beginning of a source whose characters come with
    /// their classes.
    pub fn from_classified(file_path: String, source: Vec<Classified>) -> (lexer: Lexer)
        ensures
            lexer.wf(),
            lexer.file_path@ == file_path@,
            lexer.source@ == source@,
            lexer.cur == 0,
    {
        Lexer { file_path, source, cur: 0, bol: 0, row: 0 }
    }

    /// Tells whether a character is left at the cursor.
    pub fn is_not_empty(&self) -> (b: bool)
        ensures
            b == (self.cur < self.source@.len()),
    {
        self.cur < self.source.len()
    }

    /// Tells whether the cursor is at the end of the source.
    pub fn is_empty(&self) -> (b: bool)
        ensures
            b == (self.cur >= self.source@.len()),
    {
        !self.is_not_empty()
    }

    /// Moves the cursor over one character, if one is left.
    pub fn chop_char(&mut self)
        requires
            old(self).wf(),
        ensures
            final(self).moved(old(self), if old(self).cur < old(self).source@.len() {
                1nat
            } else {
                0nat
            }),
    {
        if self.cur < self.source.len() {
            let x: char = self.source[self.cur].ch;
            self.cur = self.cur + 1;
            if x == '\n' {
                self.bol = self.cur;
                self.row = self.row + 1;
            }
        }
    }

    /// The place of the cursor.
    pub fn loc(&self) -> (l: Loc)
        requires
            self.wf(),
        ensures
            l@ == loc_at(self.file_path@, self.source@, self.cur as int),
    {
        Loc::new(self.file_path.clone(), self.row, self.cur - self.bol)
    }

    /// Skips the whitespace at the cursor.
    pub fn trim_left(&mut self)
        requires
            old(self).wf(),
        ensures
            final(self).moved(old(self), blank_len(old(self).source@, old(self).cur as int)),
    {
        while self.is_not_empty() && self.source[self.cur].whitespace
            invariant
                self.wf(),
                self.same_text(old(self)),
                self.cur >= old(self).cur,
                self.cur + blank_len(self.source@, self.cur as int) == old(self).cur + blank_len(
                    old(self).source@,
                    old(self).cur as int,
                ),
            decreases self.source@.len() - self.cur,
        {
            self.chop_char();
        }
    }

    /// Skips what is left of the line at the cursor, its line break included.
    pub fn drop_line(&mut self)
        requires
            old(self).wf(),
        ensures
            final(self).moved(old(self), line_len(old(self).source@, old(self).cur as int)),
    {
        while self.is_not_empty() && self.source[self.cur].ch != '\n'
            invariant
                self.wf(),
                self.same_text(old(self)),
                self.cur >= old(self).cur,
                self.cur + line_len(self.source@, self.cur as int) == old(self).cur + line_len(
                    old(self).source@,
                    old(self).cur as int,
                ),
            decreases self.source@.len() - self.cur,
        {
            self.chop_char();
        }
        if self.is_not_empty() {
            self.chop_char();
        }
    }

    /// Tells whether a line comment begins at the cursor.
    pub fn at_comment(&self) -> (b: bool)
        requires
            self.wf(),
        ensures
            b == starts_comment(self.source@, self.cur as int),
    {
        if self.cur < self.source.len() {
            let c: char = self.source[self.cur].ch;
            c == '#' || (c == '/' && self.cur + 1 < self.source.len() && self.source[self.cur + 1].ch
                == '/')
        } else {
            false
        }
    }

    /// Skips the whitespace and the line comments at the cursor.
    pub fn skip_trivia(&mut self)
        requires
            old(self).wf(),
        ensures
            final(self).moved(old(self), trivia_len(old(self).source@, old(self).cur as int)),
    {
        loop
            invariant
                self.wf(),
                self.same_text(old(self)),
                self.cur >= old(self).cur,
                self.cur + trivia_len(self.source@, self.cur as int) == old(self).cur
                    + trivia_len(old(self).source@, old(self).cur as int),
            ensures
                trivia_len(self.source@, self.cur as int) == 0,
            decreases self.source@.len() - self.cur,
        {
            if self.is_empty() {
                break ;
            }
            if self.source[self.cur].whitespace {
                self.chop_char();
            } else if self.at_comment() {
                self.drop_line();
            } else {
                break ;
            }
        }
    }

    /// Reads the name that begins at the cursor: its first character and the
    /// alphanumeric characters that follow.
    fn take_name(&mut self) -> (name: String)
        requires
            old(self).wf(),
            old(self).cur < old(self).source@.len(),
        ensures
            final(self).moved(old(self), 1 + alnum_len(old(self).source@, old(self).cur + 1)),
            name@ == chars_of(
                old(self).source@.subrange(old(self).cur as int, final(self).cur as int),
            ),
    {
        let ghost start: int = self.cur as int;
        let mut name: String = String::new();
        push_char(&mut name, self.source[self.cur].ch);
        self.chop_char();
        assert(name@ =~= chars_of(self.source@.subrange(start, self.cur as int)));
        while self.cur < self.source.len() && self.source[self.cur].alphanumeric
            invariant
                self.wf(),
                self.same_text(old(self)),
                start == old(self).cur,
                self.cur >= start + 1,
                self.cur + alnum_len(self.source@, self.cur as int) == start + 1 + alnum_len(
                    self.source@,
                    start + 1,
                ),
                name@ == chars_of(self.source@.subrange(start, self.cur as int)),
            decreases self.source@.len() - self.cur,
        {
            push_char(&mut name, self.source[self.cur].ch);
            self.chop_char();
            assert(name@ =~= chars_of(self.source@.subrange(start, self.cur as int)));
        }
        name
    }

    /// Reads the run of digits that begins at the cursor, and gives the number
    /// that it writes where that is a 32-bit signed number.
    fn take_number(&mut self) -> (r: Option<i32>)
        requires
            old(self).wf(),
            old(self).cur < old(self).source@.len(),
            is_digit_char(old(self).source@[old(self).cur as int].ch),
        ensures
            final(self).moved(old(self), 1 + digit_len(old(self).source@, old(self).cur + 1)),
            number_read(
                digits_value(
                    chars_of(
                        old(self).source@.subrange(old(self).cur as int, final(self).cur as int),
                    ),
                ),
            ) == match r {
                Some(n) => Some(n as int),
                None => None,
            },
    {
        let ghost start: int = self.cur as int;
        let mut acc: u64 = 0;
        let mut over: bool = false;
        assert(chars_of(self.source@.subrange(start, start)) =~= Seq::<char>::empty());
        while self.cur < self.source.len() && char_is_digit(self.source[self.cur].ch)
            invariant
                self.wf(),
                self.same_text(old(self)),
                start == old(self).cur,
                self.cur >= start,
                self.cur + digit_len(self.source@, self.cur as int) == start + digit_len(
                    self.source@,
                    start,
                ),
                !over ==> acc == digits_value(
                    chars_of(self.source@.subrange(start, self.cur as int)),
                )
                    && acc <= i32::MAX,
                over ==> digits_value(chars_of(self.source@.subrange(start, self.cur as int)))
                    > i32::MAX,
            decreases self.source@.len() - self.cur,
        {
            let d: u32 = char_digit_value(self.source[self.cur].ch);
            proof {
                let longer = chars_of(self.source@.subrange(start, self.cur + 1));
                assert(longer.drop_last() =~= chars_of(
                    self.source@.subrange(start, self.cur as int),
                ));
                assert(longer.last() == self.source@[self.cur as int].ch);
            }
            if !over {
                let next: u64 = acc * 10 + d as u64;
                if next > 2147483647 {
                    over = true;
                } else {
                    acc = next;
                }
            }
            self.chop_char();
        }
        if over {
            None
        } else {
            Some(acc as i32)
        }
    }

    /// Reads the inside of a string literal that begins at the cursor, up to
    /// and including the closing quote.
    pub fn take_string(&mut self) -> (r: Result<String, ErrorKind>)
        requires
            old(self).wf(),
        ensures
            final(self).wf(),
            final(self).same_text(old(self)),
            match scan_string(old(self).source@, old(self).cur as int) {
                StringScan::Closed { value, len } => r is Ok && r->Ok_0@ == value
                    && final(self).cur == old(self).cur + len,
                StringScan::UnfinishedEscape => r is Err && r->Err_0@
                    == ErrorKindView::UnfinishedEscape,
                StringScan::UnknownEscape(c) => r is Err && r->Err_0@
                    == ErrorKindView::UnknownEscape(c),
                StringScan::Unclosed => r is Err && r->Err_0@ == ErrorKindView::UnclosedString,
            },
    {
        let ghost start: int = self.cur as int;
        let ghost src: Seq<Classified> = self.source@;
        let mut literal: String = String::new();
        loop
            invariant
                self.wf(),
                self.same_text(old(self)),
                src == self.source@,
                start == old(self).cur,
                self.cur >= start,
                scan_string(src, start) == scan_after(
                    literal@,
                    (self.cur - start) as nat,
                    scan_string(src, self.cur as int),
                ),
            decreases self.source@.len() - self.cur,
        {
            if self.cur >= self.source.len() {
                return Err(ErrorKind::UnclosedString);
            }
            let ch: char = self.source[self.cur].ch;
            let ghost at: int = self.cur as int;
            let ghost before: Seq<char> = literal@;
            if ch == '"' {
                self.chop_char();
                assert(literal@ + Seq::<char>::empty() =~= literal@);
                return Ok(literal);
            }
            if ch == '\\' {
                self.chop_char();
                if self.cur >= self.source.len() {
                    return Err(ErrorKind::UnfinishedEscape);
                }
                let escape: char = self.source[self.cur].ch;
                if escape == 'n' {
                    push_char(&mut literal, '\n');
                    self.chop_char();
                    proof {
                        lemma_scan_after(before, (at - start) as nat, '\n', 2, scan_string(src, at + 2));
                    }
                } else if escape == '"' {
                    push_char(&mut literal, '"');
                    self.chop_char();
                    proof {
                        lemma_scan_after(before, (at - start) as nat, '"', 2, scan_string(src, at + 2));
                    }
                } else {
                    return Err(ErrorKind::UnknownEscape(escape));
                }
            } else {
                push_char(&mut literal, ch);
                self.chop_char();
                proof {
                    lemma_scan_after(before, (at - start) as nat, ch, 1, scan_string(src, at + 1));
                }
            }
        }
    }

    /// Yields the next token, `None` where only whitespace and comments are
    /// left, or the error that the text at the cursor gives.
    pub fn next_token(&mut self) -> (r: Result<Option<Token>, CompileError>)
        requires
            old(self).wf(),
        ensures
            final(self).wf(),
            final(self).same_text(old(self)),
            match next_token_spec(old(self).file_path@, old(self).source@, old(self).cur as int) {
                Next::End => r is Ok && r->Ok_0 is None && final(self).cur == old(self).cur
                    + trivia_len(old(self).source@, old(self).cur as int) && final(self).cur
                    == final(self).source@.len(),
                Next::Token { tok, len } => r is Ok && r->Ok_0 is Some && r->Ok_0->Some_0@ == tok
                    && final(self).cur == old(self).cur + len,
                Next::Error(e) => r is Err && r->Err_0@ == e,
            },
    {
        self.skip_trivia();
        if self.is_empty() {
            return Ok(None);
        }
        let loc: Loc = self.loc();
        let first: char = self.source[self.cur].ch;
        if self.source[self.cur].alphabetic {
            let name: String = self.take_name();
            return Ok(Some(Token::new(loc, TokenKind::Name(name))));
        }
        if first == '(' {
            self.chop_char();
            return Ok(Some(Token::new(loc, TokenKind::Oparen)));
        }
        if first == ')' {
            self.chop_char();
            return Ok(Some(Token::new(loc, TokenKind::Cparen)));
        }
        if first == '{' {
            self.chop_char();
            return Ok(Some(Token::new(loc, TokenKind::OpenBrace)));
        }
        if first == '}' {
            self.chop_char();
            return Ok(Some(Token::new(loc, TokenKind::CloseBrace)));
        }
        if first == ',' {
            self.chop_char();
            return Ok(Some(Token::new(loc, TokenKind::Comma)));
        }
        if first == ';' {
            self.chop_char();
            return Ok(Some(Token::new(loc, TokenKind::Semicolon)));
        }
        if first == '"' {
            self.chop_char();
            return match self.take_string() {
                Ok(value) => Ok(Some(Token::new(loc, TokenKind::StringLiteral(value)))),
                Err(kind) => Err(CompileError { loc, kind }),
            };
        }
        if char_is_digit(first) {
            return match self.take_number() {
                Some(n) => Ok(Some(Token::new(loc, TokenKind::Number(n)))),
                None => Err(CompileError { loc, kind: ErrorKind::NumberOutOfRange }),
            };
        }
        Err(CompileError { loc, kind: ErrorKind::UnknownToken(first) })
    }
}

/// The number that a run of digits gives: its value where that is a 32-bit
/// signed number, and none otherwise.
pub open spec fn number_read(value: nat) -> Option<int> {
    if value <= i32::MAX {
        Some(value as int)
    } else {
        None
    }
}

proof fn lemma_scan_after(prefix: Seq<char>, n: nat, c: char, k: nat, rest: StringScan)
    ensures
        scan_after(prefix, n, scan_after(seq![c], k, rest)) == scan_after(
            prefix.push(c),
            n + k,
            rest,
        ),
{
    match rest {
        StringScan::Closed { value, len } => {
            assert(prefix + (seq![c] + value) =~= prefix.push(c) + value);
        },
        _ => {},
    }
}

} // verus!
