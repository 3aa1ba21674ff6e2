use vstd::prelude::*;
use crate::chars::Classified;
use crate::ast::{Function, FunctionView, Statement, StatementView, statement_views};
use crate::error::{CompileError, ErrorKind, ErrorKindView, ErrorView, Expected};
use crate::laws::lemma_parsed_function_is_well_formed;
use crate::lexer::{Lexer, Next, loc_at, next_token_spec, remaining, trivia_len};
use crate::text::same_chars;
use crate::token::{Token, TokenKind, TokenKindView, TokenView, token_views};

verus! {

/// What a parsing step gives: a value and the number of characters read, or
/// the first error.
pub type Parsed<V> = Result<(V, nat), ErrorView>;

/// The next token from offset `i`, which must be one that `expected`
/// accepts. The error names what was expected and what was found, at the
/// place of the token found or of the end of the source.
pub open spec fn expect_spec(path: Seq<char>, src: Seq<Classified>, i: int, expected: Expected) -> Parsed<
    TokenView,
> {
    match next_token_spec(path, src, i) {
        Next::End => Err(
            ErrorView {
                loc: loc_at(path, src, i + trivia_len(src, i)),
                kind: ErrorKindView::UnexpectedEnd { expected },
            },
        ),
        Next::Token { tok, len } => if expected.accepts(tok.kind) {
            Ok((tok, len))
        } else {
            Err(
                ErrorView {
                    loc: tok.loc,
                    kind: ErrorKindView::UnexpectedToken { expected, found: tok.kind },
                },
            )
        },
        Next::Error(e) => Err(e),
    }
}

/// Puts `prefix`, read from `n` characters, before the items that a step gave.
pub open spec fn items_after<V>(prefix: Seq<V>, n: nat, rest: Parsed<Seq<V>>) -> Parsed<Seq<V>> {
    match rest {
        Ok((items, m)) => Ok((prefix + items, n + m)),
        Err(e) => Err(e),
    }
}

/// The arguments from offset `i`, which lies behind the opening parenthesis:
/// literals, one after another, up to the closing parenthesis. No comma
/// stands between them.
pub open spec fn args_spec(path: Seq<char>, src: Seq<Classified>, i: int) -> Parsed<Seq<TokenView>>
    decreases remaining(src, i),
{
    match expect_spec(path, src, i, Expected::CparenOrLiteral) {
        Err(e) => Err(e),
        Ok((tok, n)) => if tok.kind is Cparen {
            Ok((Seq::empty(), n))
        } else {
            items_after(seq![tok], n, args_spec(path, src, i + n))
        },
    }
}

/// An argument list from offset `i`: an opening parenthesis, then the
/// arguments.
pub open spec fn parse_arglist_spec(path: Seq<char>, src: Seq<Classified>, i: int) -> Parsed<
    Seq<TokenView>,
> {
    match expect_spec(path, src, i, Expected::Oparen) {
        Err(e) => Err(e),
        Ok((_, n)) => items_after(Seq::empty(), n, args_spec(path, src, i + n)),
    }
}

/// Whether a token is the name `return`.
pub open spec fn is_return(kind: TokenKindView) -> bool {
    kind == TokenKindView::Name("return"@)
}

/// What follows the name `head` at offset `i` to make a statement: after
/// `return` a literal, after another name an argument list, and then a
/// semicolon.
pub open spec fn statement_spec(path: Seq<char>, src: Seq<Classified>, i: int, head: TokenView) -> Parsed<
    StatementView,
> {
    if is_return(head.kind) {
        match expect_spec(path, src, i, Expected::Literal) {
            Err(e) => Err(e),
            Ok((expr, n)) => match expect_spec(path, src, i + n, Expected::Semicolon) {
                Err(e) => Err(e),
                Ok((_, m)) => Ok((StatementView::Return { expr }, n + m)),
            },
        }
    } else {
        match parse_arglist_spec(path, src, i) {
            Err(e) => Err(e),
            Ok((args, n)) => match expect_spec(path, src, i + n, Expected::Semicolon) {
                Err(e) => Err(e),
                Ok((_, m)) => Ok((StatementView::Funcall { name: head, args }, n + m)),
            },
        }
    }
}

/// The statements from offset `i`, which lies behind the opening brace, up to
/// the closing brace.
pub open spec fn statements_spec(path: Seq<char>, src: Seq<Classified>, i: int) -> Parsed<
    Seq<StatementView>,
>
    decreases remaining(src, i),
{
    match expect_spec(path, src, i, Expected::CloseBraceOrName) {
        Err(e) => Err(e),
        Ok((head, n)) => if head.kind is CloseBrace {
            Ok((Seq::empty(), n))
        } else {
            match statement_spec(path, src, i + n, head) {
                Err(e) => Err(e),
                Ok((stmt, m)) => items_after(
                    seq![stmt],
                    n + m,
                    statements_spec(path, src, i + n + m),
                ),
            }
        },
    }
}

/// A block from offset `i`: an opening brace, then the statements.
pub open spec fn parse_block_spec(path: Seq<char>, src: Seq<Classified>, i: int) -> Parsed<
    Seq<StatementView>,
> {
    match expect_spec(path, src, i, Expected::OpenBrace) {
        Err(e) => Err(e),
        Ok((_, n)) => items_after(Seq::empty(), n, statements_spec(path, src, i + n)),
    }
}

/// The head of a function from offset `i`: the type keyword, the function's
/// name, and an empty pair of parentheses.
pub open spec fn head_spec(path: Seq<char>, src: Seq<Classified>, i: int) -> Parsed<TokenView> {
    match expect_spec(path, src, i, Expected::TypeKeyword) {
        Err(e) => Err(e),
        Ok((_, a)) => match expect_spec(path, src, i + a, Expected::Name) {
            Err(e) => Err(e),
            Ok((name, b)) => match expect_spec(path, src, i + a + b, Expected::Oparen) {
                Err(e) => Err(e),
                Ok((_, c)) => match expect_spec(path, src, i + a + b + c, Expected::Cparen) {
                    Err(e) => Err(e),
                    Ok((_, d)) => Ok((name, a + b + c + d)),
                },
            },
        },
    }
}

/// A function from offset `i`: its head, then its block.
pub open spec fn parse_function_spec(path: Seq<char>, src: Seq<Classified>, i: int) -> Parsed<
    FunctionView,
> {
    match head_spec(path, src, i) {
        Err(e) => Err(e),
        Ok((name, n)) => match parse_block_spec(path, src, i + n) {
            Err(e) => Err(e),
            Ok((body, m)) => Ok((FunctionView { name, body }, n + m)),
        },
    }
}

/// Whether a call on a lexer gave what the grammar gives from the lexer's
/// offset before the call: the value and a cursor moved over what was read,
/// or the error.
pub open spec fn parsed_as<T: View>(
    r: Result<T, CompileError>,
    before: &Lexer,
    after: &Lexer,
    expected: Parsed<T::V>,
) -> bool {
    &&& after.wf()
    &&& after.same_text(before)
    &&& match expected {
        Ok((v, n)) => r is Ok && r->Ok_0@ == v && after.cur == before.cur + n,
        Err(e) => r is Err && r->Err_0@ == e,
    }
}

/// Tells whether `expected` accepts a token of this kind.
pub fn accepts(expected: Expected, kind: &TokenKind) -> (b: bool)
    ensures
        b == expected.accepts(kind@),
{
    match expected {
        Expected::TypeKeyword => match kind {
            TokenKind::Name(s) => same_chars(s.as_str(), "TYPE_INT"),
            _ => false,
        },
        Expected::Name => match kind {
            TokenKind::Name(_) => true,
            _ => false,
        },
        Expected::Oparen => match kind {
            TokenKind::Oparen => true,
            _ => false,
        },
        Expected::Cparen => match kind {
            TokenKind::Cparen => true,
            _ => false,
        },
        Expected::OpenBrace => match kind {
            TokenKind::OpenBrace => true,
            _ => false,
        },
        Expected::Semicolon => match kind {
            TokenKind::Semicolon => true,
            _ => false,
        },
        Expected::Literal => match kind {
            TokenKind::Number(_) => true,
            TokenKind::StringLiteral(_) => true,
            _ => false,
        },
        Expected::CparenOrLiteral => match kind {
            TokenKind::Cparen => true,
            TokenKind::Number(_) => true,
            TokenKind::StringLiteral(_) => true,
            _ => false,
        },
        Expected::CloseBraceOrName => match kind {
            TokenKind::CloseBrace => true,
            TokenKind::Name(_) => true,
            _ => false,
        },
    }
}

/// Pulls the next token, which must be one that `expected` accepts.
pub fn expect_token(lexer: &mut Lexer, expected: Expected) -> (r: Result<Token, CompileError>)
    requires
        old(lexer).wf(),
    ensures
        parsed_as(
            r,
            old(lexer),
            final(lexer),
            expect_spec(old(lexer).file_path@, old(lexer).source@, old(lexer).cur as int, expected),
        ),
{
    match lexer.next_token() {
        Err(e) => Err(e),
        Ok(None) => Err(
            CompileError { loc: lexer.loc(), kind: ErrorKind::UnexpectedEnd { expected } },
        ),
        Ok(Some(tok)) => {
            if accepts(expected, &tok.kind) {
                Ok(tok)
            } else {
                let Token { loc, kind } = tok;
                Err(CompileError { loc, kind: ErrorKind::UnexpectedToken { expected, found: kind } })
            }
        },
    }
}

/// The type of a function from offset `i`: the keyword `TYPE_INT`.
pub open spec fn parse_type_spec(path: Seq<char>, src: Seq<Classified>, i: int) -> Parsed<Seq<char>> {
    match expect_spec(path, src, i, Expected::TypeKeyword) {
        Err(e) => Err(e),
        Ok((_, n)) => Ok(("TYPE_INT"@, n)),
    }
}

/// Reads the type of a function and gives its name. The keyword is
/// compared by its whole text, so a name that the lexer cuts at an
/// underscore is not the keyword.
pub fn parse_type(lexer: &mut Lexer) -> (r: Result<String, CompileError>)
    requires
        old(lexer).wf(),
    ensures
        parsed_as(
            r,
            old(lexer),
            final(lexer),
            parse_type_spec(old(lexer).file_path@, old(lexer).source@, old(lexer).cur as int),
        ),
{
    match expect_token(lexer, Expected::TypeKeyword) {
        Err(e) => Err(e),
        Ok(_) => Ok("TYPE_INT".to_owned()),
    }
}

proof fn lemma_items_after<V>(prefix: Seq<V>, n: nat, item: V, m: nat, rest: Parsed<Seq<V>>)
    ensures
        items_after(prefix, n, items_after(seq![item], m, rest)) == items_after(
            prefix.push(item),
            n + m,
            rest,
        ),
{
    match rest {
        Ok((items, k)) => {
            assert(prefix + (seq![item] + items) =~= prefix.push(item) + items);
        },
        Err(_) => {},
    }
}

/// Reads the arguments of a call up to the closing parenthesis; the cursor
/// lies behind the opening one.
pub fn parse_args(lexer: &mut Lexer) -> (r: Result<Vec<Token>, CompileError>)
    requires
        old(lexer).wf(),
    ensures
        final(lexer).wf(),
        final(lexer).same_text(old(lexer)),
        match args_spec(old(lexer).file_path@, old(lexer).source@, old(lexer).cur as int) {
            Ok((args, n)) => r is Ok && token_views(r->Ok_0@) == args && final(lexer).cur == old(
                lexer,
            ).cur + n,
            Err(e) => r is Err && r->Err_0@ == e,
        },
{
    let ghost path: Seq<char> = lexer.file_path@;
    let ghost src: Seq<Classified> = lexer.source@;
    let ghost start: int = lexer.cur as int;
    let mut args: Vec<Token> = Vec::new();
    assert(token_views(args@) =~= Seq::<TokenView>::empty());
    proof {
        let first = args_spec(path, src, start);
        match first {
            Ok((items, k)) => {
                assert(Seq::<TokenView>::empty() + items =~= items);
            },
            Err(_) => {},
        }
    }
    loop
        invariant
            lexer.wf(),
            lexer.same_text(old(lexer)),
            path == lexer.file_path@,
            src == lexer.source@,
            start == old(lexer).cur,
            lexer.cur >= start,
            args_spec(path, src, start) == items_after(
                token_views(args@),
                (lexer.cur - start) as nat,
                args_spec(path, src, lexer.cur as int),
            ),
        decreases src.len() - lexer.cur,
    {
        let ghost at: int = lexer.cur as int;
        let ghost before: Seq<TokenView> = token_views(args@);
        match expect_token(lexer, Expected::CparenOrLiteral) {
            Err(e) => {
                return Err(e);
            },
            Ok(tok) => {
                if accepts(Expected::Cparen, &tok.kind) {
                    assert(before + Seq::<TokenView>::empty() =~= before);
                    return Ok(args);
                }
                proof {
                    lemma_items_after(
                        before,
                        (at - start) as nat,
                        tok@,
                        (lexer.cur - at) as nat,
                        args_spec(path, src, lexer.cur as int),
                    );
                }
                args.push(tok);
                assert(token_views(args@) =~= before.push(tok@));
            },
        }
    }
}

/// Reads an argument list: an opening parenthesis, then the arguments up to
/// the closing parenthesis. The arguments stand one after another; a comma
/// between them is an unexpected token.
pub fn parse_arglist(lexer: &mut Lexer) -> (r: Result<Vec<Token>, CompileError>)
    requires
        old(lexer).wf(),
    ensures
        final(lexer).wf(),
        final(lexer).same_text(old(lexer)),
        match parse_arglist_spec(old(lexer).file_path@, old(lexer).source@, old(lexer).cur as int) {
            Ok((args, n)) => r is Ok && token_views(r->Ok_0@) == args && final(lexer).cur == old(
                lexer,
            ).cur + n,
            Err(e) => r is Err && r->Err_0@ == e,
        },
{
    match expect_token(lexer, Expected::Oparen) {
        Err(e) => Err(e),
        Ok(_) => {
            proof {
                match args_spec(lexer.file_path@, lexer.source@, lexer.cur as int) {
                    Ok((items, k)) => {
                        assert(Seq::<TokenView>::empty() + items =~= items);
                    },
                    Err(_) => {},
                }
            }
            parse_args(lexer)
        },
    }
}

/// Tells whether a token is the name `return`.
pub fn names_return(kind: &TokenKind) -> (b: bool)
    ensures
        b == is_return(kind@),
{
    match kind {
        TokenKind::Name(s) => same_chars(s.as_str(), "return"),
        _ => false,
    }
}

/// Reads what follows the name `head` to make a statement.
pub fn parse_statement(lexer: &mut Lexer, head: Token) -> (r: Result<Statement, CompileError>)
    requires
        old(lexer).wf(),
    ensures
        parsed_as(
            r,
            old(lexer),
            final(lexer),
            statement_spec(
                old(lexer).file_path@,
                old(lexer).source@,
                old(lexer).cur as int,
                head@,
            ),
        ),
{
    if names_return(&head.kind) {
        match expect_token(lexer, Expected::Literal) {
            Err(e) => Err(e),
            Ok(expr) => match expect_token(lexer, Expected::Semicolon) {
                Err(e) => Err(e),
                Ok(_) => Ok(Statement::Return { expr }),
            },
        }
    } else {
        match parse_arglist(lexer) {
            Err(e) => Err(e),
            Ok(args) => match expect_token(lexer, Expected::Semicolon) {
                Err(e) => Err(e),
                Ok(_) => Ok(Statement::Funcall { name: head, args }),
            },
        }
    }
}

/// Reads the statements of a block up to the closing brace; the cursor lies
/// behind the opening one.
pub fn parse_statements(lexer: &mut Lexer) -> (r: Result<Vec<Statement>, CompileError>)
    requires
        old(lexer).wf(),
    ensures
        final(lexer).wf(),
        final(lexer).same_text(old(lexer)),
        match statements_spec(old(lexer).file_path@, old(lexer).source@, old(lexer).cur as int) {
            Ok((body, n)) => r is Ok && statement_views(r->Ok_0@) == body && final(lexer).cur
                == old(lexer).cur + n,
            Err(e) => r is Err && r->Err_0@ == e,
        },
{
    let ghost path: Seq<char> = lexer.file_path@;
    let ghost src: Seq<Classified> = lexer.source@;
    let ghost start: int = lexer.cur as int;
    let mut body: Vec<Statement> = Vec::new();
    assert(statement_views(body@) =~= Seq::<StatementView>::empty());
    proof {
        match statements_spec(path, src, start) {
            Ok((items, k)) => {
                assert(Seq::<StatementView>::empty() + items =~= items);
            },
            Err(_) => {},
        }
    }
    loop
        invariant
            lexer.wf(),
            lexer.same_text(old(lexer)),
            path == lexer.file_path@,
            src == lexer.source@,
            start == old(lexer).cur,
            lexer.cur >= start,
            statements_spec(path, src, start) == items_after(
                statement_views(body@),
                (lexer.cur - start) as nat,
                statements_spec(path, src, lexer.cur as int),
            ),
        decreases src.len() - lexer.cur,
    {
        let ghost at: int = lexer.cur as int;
        let ghost before: Seq<StatementView> = statement_views(body@);
        match expect_token(lexer, Expected::CloseBraceOrName) {
            Err(e) => {
                return Err(e);
            },
            Ok(head) => {
                if accepts(Expected::CloseBraceOrName, &head.kind) && !accepts(
                    Expected::Name,
                    &head.kind,
                ) {
                    assert(before + Seq::<StatementView>::empty() =~= before);
                    return Ok(body);
                }
                match parse_statement(lexer, head) {
                    Err(e) => {
                        return Err(e);
                    },
                    Ok(stmt) => {
                        proof {
                            lemma_items_after(
                                before,
                                (at - start) as nat,
                                stmt@,
                                (lexer.cur - at) as nat,
                                statements_spec(path, src, lexer.cur as int),
                            );
                        }
                        body.push(stmt);
                        assert(statement_views(body@) =~= before.push(stmt@));
                    },
                }
            },
        }
    }
}

/// Reads a block: an opening brace, then the statements up to the closing
/// brace.
pub fn parse_block(lexer: &mut Lexer) -> (r: Result<Vec<Statement>, CompileError>)
    requires
        old(lexer).wf(),
    ensures
        final(lexer).wf(),
        final(lexer).same_text(old(lexer)),
        match parse_block_spec(old(lexer).file_path@, old(lexer).source@, old(lexer).cur as int) {
            Ok((body, n)) => r is Ok && statement_views(r->Ok_0@) == body && final(lexer).cur
                == old(lexer).cur + n,
            Err(e) => r is Err && r->Err_0@ == e,
        },
{
    match expect_token(lexer, Expected::OpenBrace) {
        Err(e) => Err(e),
        Ok(_) => {
            proof {
                match statements_spec(lexer.file_path@, lexer.source@, lexer.cur as int) {
                    Ok((items, k)) => {
                        assert(Seq::<StatementView>::empty() + items =~= items);
                    },
                    Err(_) => {},
                }
            }
            parse_statements(lexer)
        },
    }
}

/// Reads the head of a function and gives the function's name.
pub fn parse_head(lexer: &mut Lexer) -> (r: Result<Token, CompileError>)
    requires
        old(lexer).wf(),
    ensures
        parsed_as(
            r,
            old(lexer),
            final(lexer),
            head_spec(old(lexer).file_path@, old(lexer).source@, old(lexer).cur as int),
        ),
{
    match parse_type(lexer) {
        Err(e) => Err(e),
        Ok(_) => match expect_token(lexer, Expected::Name) {
            Err(e) => Err(e),
            Ok(name) => match expect_token(lexer, Expected::Oparen) {
                Err(e) => Err(e),
                Ok(_) => match expect_token(lexer, Expected::Cparen) {
                    Err(e) => Err(e),
                    Ok(_) => Ok(name),
                },
            },
        },
    }
}

/// Reads the one function of a program.
pub fn parse_function(lexer: &mut Lexer) -> (r: Result<Function, CompileError>)
    requires
        old(lexer).wf(),
    ensures
        parsed_as(
            r,
            old(lexer),
            final(lexer),
            parse_function_spec(old(lexer).file_path@, old(lexer).source@, old(lexer).cur as int),
        ),
        r is Ok ==> r->Ok_0@.wf(),
{
    proof {
        lemma_parsed_function_is_well_formed(
            lexer.file_path@,
            lexer.source@,
            lexer.cur as int,
        );
    }
    match parse_head(lexer) {
        Err(e) => Err(e),
        Ok(name) => match parse_block(lexer) {
            Err(e) => Err(e),
            Ok(body) => Ok(Function { name, body }),
        },
    }
}

} // verus!
