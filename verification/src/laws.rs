use vstd::prelude::*;
use crate::ast::{FunctionView, StatementView};
use crate::chars::Classified;
use crate::error::{ErrorKindView, ErrorView, Expected};
use crate::fasm::{
    code_from, data_segment, fasm_from, fasm_spec, fasm_statement, final_table, header,
    intern_spec,
};
use crate::lexer::{Next, line_start, loc_at, next_token_spec, remaining, trivia_len};
use crate::loc::display_spec;
use crate::parser::{
    args_spec, expect_spec, head_spec, parse_function_spec, statement_spec, statements_spec,
};
use crate::python3::{is_printf, python3_from, python3_spec};
use crate::text::decimal;
use crate::token::{TokenKindView, TokenView};

verus! {

/// The place of a token, and of a lexical error, is that of the offset of
/// its first character: the first offset behind the whitespace and comments
/// that were skipped. It is shown with row and column counted from one.
pub proof fn lemma_token_location(path: Seq<char>, src: Seq<Classified>, i: int)
    ensures
        match next_token_spec(path, src, i) {
            Next::End => true,
            Next::Token { tok, len } => {
                &&& tok.loc == loc_at(path, src, i + trivia_len(src, i))
                &&& display_spec(tok.loc) == path + seq![':'] + decimal(tok.loc.row + 1) + seq![
                    ':',
                ] + decimal(tok.loc.col + 1)
            },
            Next::Error(e) => e.loc == loc_at(path, src, i + trivia_len(src, i)),
        },
{
}

/// The line of an offset begins at the start of the source or behind a
/// line break, and no line break stands between that beginning and the
/// offset: the column of a place is the distance from the last line break.
pub proof fn lemma_line_start(src: Seq<Classified>, i: int)
    requires
        0 <= i <= src.len(),
    ensures
        0 <= line_start(src, i) <= i,
        line_start(src, i) == 0 || src[line_start(src, i) - 1].ch == '\n',
        forall|j: int| line_start(src, i) <= j < i ==> (#[trigger] src[j]).ch != '\n',
    decreases i,
{
    if i > 0 {
        lemma_line_start(src, i - 1);
    }
}

/// Where nothing but whitespace and line comments is left from an offset,
/// the lexer yields no token from there, and no error.
pub proof fn lemma_trivia_yields_nothing(path: Seq<char>, src: Seq<Classified>, i: int)
    requires
        0 <= i <= src.len(),
        i + trivia_len(src, i) == src.len(),
    ensures
        next_token_spec(path, src, i) is End,
{
}

/// A text of whitespace alone is skipped whole.
pub proof fn lemma_whitespace_is_trivia(src: Seq<Classified>, i: int)
    requires
        0 <= i <= src.len(),
        forall|j: int| i <= j < src.len() ==> (#[trigger] src[j]).whitespace,
    ensures
        i + trivia_len(src, i) == src.len(),
    decreases src.len() - i,
{
    if i < src.len() {
        lemma_whitespace_is_trivia(src, i + 1);
    }
}

proof fn lemma_python3_fails_from(body: Seq<StatementView>, j: int, k: int)
    requires
        0 <= j <= k < body.len(),
        body[k] is Funcall,
        !is_printf(body[k]->Funcall_name.kind),
    ensures
        python3_from(body, j) is Err,
    decreases k - j,
{
    if j < k {
        lemma_python3_fails_from(body, j + 1, k);
    }
}

proof fn lemma_fasm_fails_from(body: Seq<StatementView>, j: int, k: int, table: Seq<Seq<char>>)
    requires
        0 <= j <= k < body.len(),
        body[k] is Funcall,
        !is_printf(body[k]->Funcall_name.kind),
    ensures
        fasm_from(body, j, table) is Err,
    decreases k - j,
{
    if j < k {
        match fasm_statement(body[j], table) {
            Ok((_, next)) => {
                lemma_fasm_fails_from(body, j + 1, k, next);
            },
            Err(_) => {},
        }
    }
}

/// A function that calls, anywhere in its body, a function other than
/// `printf` is lowered for neither target: both give an error.
pub proof fn lemma_unknown_call_fails(f: FunctionView, k: int)
    requires
        0 <= k < f.body.len(),
        f.body[k] is Funcall,
        !is_printf(f.body[k]->Funcall_name.kind),
    ensures
        python3_spec(f) is Err,
        fasm_spec(f) is Err,
{
    lemma_python3_fails_from(f.body, 0, k);
    lemma_fasm_fails_from(f.body, 0, k, Seq::empty());
}

/// Registering a string in a table of distinct strings leaves them
/// distinct, keeps the strings that were there in their slots, and the
/// table then holds the string.
pub proof fn lemma_intern_distinct(table: Seq<Seq<char>>, s: Seq<char>)
    requires
        table.no_duplicates(),
    ensures
        intern_spec(table, s).no_duplicates(),
        intern_spec(table, s).contains(s),
        table.len() <= intern_spec(table, s).len(),
        forall|i: int| 0 <= i < table.len() ==> intern_spec(table, s)[i] == table[i],
{
    if !table.contains(s) {
        assert(table.push(s)[table.len() as int] == s);
    }
}

proof fn lemma_statement_keeps_distinct(s: StatementView, table: Seq<Seq<char>>)
    requires
        table.no_duplicates(),
    ensures
        fasm_statement(s, table) is Ok ==> fasm_statement(s, table)->Ok_0.1.no_duplicates(),
{
    match s {
        StatementView::Funcall { name, args } => {
            if args.len() == 1 {
                match args[0].kind {
                    TokenKindView::StringLiteral(text) => {
                        lemma_intern_distinct(table, text);
                    },
                    _ => {},
                }
            }
        },
        StatementView::Return { expr } => {},
    }
}

proof fn lemma_listing_from(body: Seq<StatementView>, k: int, table: Seq<Seq<char>>)
    requires
        table.no_duplicates(),
        fasm_from(body, k, table) is Ok,
    ensures
        final_table(body, k, table).no_duplicates(),
        fasm_from(body, k, table)->Ok_0 == code_from(body, k, table) + data_segment(
            final_table(body, k, table),
        ),
    decreases body.len() - k,
{
    if 0 <= k < body.len() {
        let step = fasm_statement(body[k], table)->Ok_0;
        lemma_statement_keeps_distinct(body[k], table);
        lemma_listing_from(body, k + 1, step.1);
        let rest = code_from(body, k + 1, step.1);
        let data = data_segment(final_table(body, k + 1, step.1));
        assert(step.0 + (rest + data) =~= (step.0 + rest) + data);
    } else {
        assert(Seq::<char>::empty() + data_segment(table) =~= data_segment(table));
    }
}

/// A listing is the header, the instructions of the statements, and the
/// data segment of the string table that the statements leave; and no
/// string stands twice in that table, however often it is written.
pub proof fn lemma_listing_holds_each_string_once(f: FunctionView)
    requires
        fasm_spec(f) is Ok,
    ensures
        final_table(f.body, 0, Seq::empty()).no_duplicates(),
        fasm_spec(f)->Ok_0 == header() + code_from(f.body, 0, Seq::empty()) + data_segment(
            final_table(f.body, 0, Seq::empty()),
        ),
{
    lemma_listing_from(f.body, 0, Seq::empty());
    let code = code_from(f.body, 0, Seq::empty());
    let data = data_segment(final_table(f.body, 0, Seq::empty()));
    assert(header() + (code + data) =~= header() + code + data);
}

proof fn lemma_args_are_literals(path: Seq<char>, src: Seq<Classified>, i: int)
    ensures
        match args_spec(path, src, i) {
            Ok((args, _)) => forall|j: int|
                0 <= j < args.len() ==> (#[trigger] args[j]).kind.is_literal(),
            Err(_) => true,
        },
    decreases remaining(src, i),
{
    match expect_spec(path, src, i, Expected::CparenOrLiteral) {
        Err(_) => {},
        Ok((tok, n)) => {
            if !(tok.kind is Cparen) {
                lemma_args_are_literals(path, src, i + n);
            }
        },
    }
}

proof fn lemma_statements_are_well_formed(path: Seq<char>, src: Seq<Classified>, i: int)
    ensures
        match statements_spec(path, src, i) {
            Ok((body, _)) => forall|j: int| 0 <= j < body.len() ==> (#[trigger] body[j]).wf(),
            Err(_) => true,
        },
    decreases remaining(src, i),
{
    match expect_spec(path, src, i, Expected::CloseBraceOrName) {
        Err(_) => {},
        Ok((head, n)) => {
            if !(head.kind is CloseBrace) {
                match statement_spec(path, src, i + n, head) {
                    Err(_) => {},
                    Ok((stmt, m)) => {
                        match expect_spec(path, src, i + n, Expected::Oparen) {
                            Ok((_, a)) => {
                                lemma_args_are_literals(path, src, i + n + a);
                            },
                            Err(_) => {},
                        }
                        assert(stmt.wf());
                        lemma_statements_are_well_formed(path, src, i + n + m);
                    },
                }
            }
        },
    }
}

/// What the parser gives is well formed: the function and each callee are
/// named by a name, and every argument and every returned expression is a
/// number or a string literal.
pub proof fn lemma_parsed_function_is_well_formed(path: Seq<char>, src: Seq<Classified>, i: int)
    ensures
        match parse_function_spec(path, src, i) {
            Ok((f, _)) => f.wf(),
            Err(_) => true,
        },
{
    match head_spec(path, src, i) {
        Err(_) => {},
        Ok((name, n)) => {
            match expect_spec(path, src, i + n, Expected::OpenBrace) {
                Ok((_, a)) => {
                    lemma_statements_are_well_formed(path, src, i + n + a);
                },
                Err(_) => {},
            }
        },
    }
}

/// Where the source ends, whatever is expected is missing: the parser
/// gives an error that names it, at the end of the source. So a block that
/// is not closed, an argument list that is not closed and an empty source
/// all fail.
pub proof fn lemma_end_of_source_fails(path: Seq<char>, src: Seq<Classified>, i: int, expected: Expected)
    requires
        next_token_spec(path, src, i) is End,
    ensures
        expect_spec(path, src, i, expected) == Err::<(TokenView, nat), ErrorView>(
            ErrorView {
                loc: loc_at(path, src, i + trivia_len(src, i)),
                kind: ErrorKindView::UnexpectedEnd { expected },
            },
        ),
        args_spec(path, src, i) is Err,
        statements_spec(path, src, i) is Err,
        parse_function_spec(path, src, i) is Err,
{
}

/// A token that is not accepted where it stands is an error that names
/// what was expected and what was found, at the place of that token. So a
/// statement without its semicolon, and a token other than a literal where
/// a literal is needed, fail.
pub proof fn lemma_unexpected_token_fails(
    path: Seq<char>,
    src: Seq<Classified>,
    i: int,
    expected: Expected,
)
    requires
        next_token_spec(path, src, i) is Token,
        !expected.accepts(next_token_spec(path, src, i)->tok.kind),
    ensures
        expect_spec(path, src, i, expected) == Err::<(TokenView, nat), ErrorView>(
            ErrorView {
                loc: next_token_spec(path, src, i)->tok.loc,
                kind: ErrorKindView::UnexpectedToken {
                    expected,
                    found: next_token_spec(path, src, i)->tok.kind,
                },
            },
        ),
{
}

/// A lexical error ends the parse, whatever is expected where it stands.
pub proof fn lemma_lexical_error_fails(path: Seq<char>, src: Seq<Classified>, i: int, expected: Expected)
    requires
        next_token_spec(path, src, i) is Error,
    ensures
        expect_spec(path, src, i, expected) == Err::<(TokenView, nat), ErrorView>(
            next_token_spec(path, src, i)->Error_0,
        ),
        args_spec(path, src, i) is Err,
        statements_spec(path, src, i) is Err,
        parse_function_spec(path, src, i) is Err,
{
}

} // verus!
