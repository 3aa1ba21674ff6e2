use vstd::prelude::*;
use vstd::string::*;
use crate::ast::{Function, FunctionView, Statement, StatementView, statement_views};
use crate::error::{CompileError, ErrorKind, ErrorKindView, ErrorView};
use crate::text::{push_char, push_signed_decimal, same_chars, signed_decimal};
use crate::token::{Token, TokenKind, TokenKindView, TokenView, token_views};

verus! {

/// A text in which each line break is written as a backslash and an `n`.
pub open spec fn escape_newlines(s: Seq<char>) -> Seq<char>
    decreases s.len(),
{
    if s.len() == 0 {
        Seq::empty()
    } else if s.last() == '\n' {
        escape_newlines(s.drop_last()).push('\\').push('n')
    } else {
        escape_newlines(s.drop_last()).push(s.last())
    }
}

/// How a literal is written in the output: a string between double quotes
/// with its line breaks escaped, a number as its decimal numeral.
pub open spec fn literal_to_py(kind: TokenKindView) -> Seq<char> {
    match kind {
        TokenKindView::StringLiteral(s) => seq!['"'] + escape_newlines(s) + seq!['"'],
        TokenKindView::Number(n) => signed_decimal(n),
        _ => Seq::empty(),
    }
}

/// The arguments after the first up to, and without, argument `k`, each
/// followed by a comma.
pub open spec fn substitutions(args: Seq<TokenView>, k: int) -> Seq<char>
    decreases k,
{
    if k <= 1 {
        Seq::empty()
    } else {
        substitutions(args, k - 1) + literal_to_py(args[k - 1].kind) + seq![',']
    }
}

/// Whether a text ends with a line break.
pub open spec fn ends_with_newline(s: Seq<char>) -> bool {
    s.len() > 0 && s.last() == '\n'
}

/// The line that a call of `printf` with these arguments becomes. With no
/// argument, or with a first argument that is no string literal, there is
/// none. A single string is printed with the line terminator of `print`
/// where it ends with a line break and without it otherwise; a format with
/// further arguments is applied to them and printed without terminator.
pub open spec fn print_line(args: Seq<TokenView>) -> Seq<char> {
    if args.len() == 0 {
        Seq::empty()
    } else {
        match args[0].kind {
            TokenKindView::StringLiteral(s) => if args.len() == 1 {
                if ends_with_newline(s) {
                    "print("@ + literal_to_py(args[0].kind) + ")\n"@
                } else {
                    "print("@ + literal_to_py(args[0].kind) + ", end=\"\")\n"@
                }
            } else {
                "print("@ + literal_to_py(args[0].kind) + " % ("@ + substitutions(
                    args,
                    args.len() as int,
                ) + "), end=\"\")\n"@
            },
            _ => Seq::empty(),
        }
    }
}

/// Whether a token is the name `printf`.
pub open spec fn is_printf(kind: TokenKindView) -> bool {
    kind == TokenKindView::Name("printf"@)
}

/// The text of a name, and no text for another token.
pub open spec fn name_text(kind: TokenKindView) -> Seq<char> {
    match kind {
        TokenKindView::Name(s) => s,
        _ => Seq::empty(),
    }
}

/// The error for a call of a function that a target does not know, at the
/// place of the callee's name.
pub open spec fn unknown_function_spec(name: TokenView) -> ErrorView {
    ErrorView { loc: name.loc, kind: ErrorKindView::UnknownFunction(name_text(name.kind)) }
}

/// The text that one statement becomes: a call of `printf` its line, a
/// `return` nothing, and a call of any other function an error.
pub open spec fn python3_statement(s: StatementView) -> Result<Seq<char>, ErrorView> {
    match s {
        StatementView::Funcall { name, args } => if is_printf(name.kind) {
            Ok(print_line(args))
        } else {
            Err(unknown_function_spec(name))
        },
        StatementView::Return { expr } => Ok(Seq::empty()),
    }
}

/// Puts `prefix` before a text that was produced.
pub open spec fn text_after(prefix: Seq<char>, rest: Result<Seq<char>, ErrorView>) -> Result<
    Seq<char>,
    ErrorView,
> {
    match rest {
        Ok(t) => Ok(prefix + t),
        Err(e) => Err(e),
    }
}

/// The text of the statements from statement `k` on, or the first error
/// among them.
pub open spec fn python3_from(body: Seq<StatementView>, k: int) -> Result<Seq<char>, ErrorView>
    decreases body.len() - k,
{
    if k < 0 || k >= body.len() {
        Ok(Seq::empty())
    } else {
        match python3_statement(body[k]) {
            Err(e) => Err(e),
            Ok(t) => text_after(t, python3_from(body, k + 1)),
        }
    }
}

/// The program text of a function: the text of each statement of its body,
/// in order.
pub open spec fn python3_spec(f: FunctionView) -> Result<Seq<char>, ErrorView> {
    python3_from(f.body, 0)
}

/// Whether a call gave the text, or the error, that `expected` holds.
pub open spec fn emitted(r: Result<String, CompileError>, expected: Result<Seq<char>, ErrorView>) -> bool {
    match expected {
        Ok(t) => r is Ok && r->Ok_0@ == t,
        Err(e) => r is Err && r->Err_0@ == e,
    }
}

/// Tells whether a token is the name `printf`.
pub fn names_printf(kind: &TokenKind) -> (b: bool)
    ensures
        b == is_printf(kind@),
{
    match kind {
        TokenKind::Name(s) => same_chars(s.as_str(), "printf"),
        _ => false,
    }
}

/// The error for a call of a function that a target does not know.
pub fn unknown_function(name: &Token) -> (e: CompileError)
    ensures
        e@ == unknown_function_spec(name@),
{
    let text: String = match &name.kind {
        TokenKind::Name(s) => s.clone(),
        _ => String::new(),
    };
    CompileError { loc: name.loc.duplicate(), kind: ErrorKind::UnknownFunction(text) }
}

/// Appends a text with its line breaks escaped.
pub fn push_escaped(out: &mut String, s: &str)
    ensures
        final(out)@ == old(out)@ + escape_newlines(s@),
{
    let n: usize = s.unicode_len();
    let mut i: usize = 0;
    assert(s@.subrange(0, 0) =~= Seq::<char>::empty());
    assert(out@ =~= old(out)@ + escape_newlines(s@.subrange(0, 0)));
    while i < n
        invariant
            n == s@.len(),
            i <= n,
            out@ == old(out)@ + escape_newlines(s@.subrange(0, i as int)),
        decreases n - i,
    {
        let c: char = s.get_char(i);
        let ghost before: Seq<char> = out@;
        proof {
            let longer = s@.subrange(0, i + 1);
            assert(longer.drop_last() =~= s@.subrange(0, i as int));
            assert(longer.last() == c);
        }
        if c == '\n' {
            push_char(out, '\\');
            push_char(out, 'n');
        } else {
            push_char(out, c);
        }
        i = i + 1;
        assert(out@ =~= old(out)@ + escape_newlines(s@.subrange(0, i as int)));
    }
    assert(s@.subrange(0, n as int) =~= s@);
}

/// Appends a literal as the output writes it.
pub fn push_literal(out: &mut String, kind: &TokenKind)
    ensures
        final(out)@ == old(out)@ + literal_to_py(kind@),
{
    match kind {
        TokenKind::StringLiteral(s) => {
            push_char(out, '"');
            push_escaped(out, s.as_str());
            push_char(out, '"');
            assert(out@ =~= old(out)@ + literal_to_py(kind@));
        },
        TokenKind::Number(n) => {
            push_signed_decimal(out, *n);
        },
        _ => {
            assert(out@ =~= old(out)@ + literal_to_py(kind@));
        },
    }
}

/// Tells whether a text ends with a line break.
pub fn has_final_newline(s: &str) -> (b: bool)
    ensures
        b == ends_with_newline(s@),
{
    let n: usize = s.unicode_len();
    n > 0 && s.get_char(n - 1) == '\n'
}

/// Appends the line that a call of `printf` with these arguments becomes.
pub fn push_print(out: &mut String, args: &Vec<Token>)
    ensures
        final(out)@ == old(out)@ + print_line(token_views(args@)),
{
    let ghost views: Seq<TokenView> = token_views(args@);
    if args.len() == 0 {
        assert(out@ =~= old(out)@ + print_line(views));
        return ;
    }
    assert(views[0] == args@[0]@);
    match &args[0].kind {
        TokenKind::StringLiteral(s) => {
            out.append("print(");
            push_literal(out, &args[0].kind);
            if args.len() == 1 {
                if has_final_newline(s.as_str()) {
                    out.append(")\n");
                } else {
                    out.append(", end=\"\")\n");
                }
                assert(out@ =~= old(out)@ + print_line(views));
            } else {
                out.append(" % (");
                let ghost base: Seq<char> = out@;
                let mut i: usize = 1;
                assert(out@ =~= base + substitutions(views, 1));
                while i < args.len()
                    invariant
                        1 <= i <= args.len(),
                        views == token_views(args@),
                        out@ == base + substitutions(views, i as int),
                    decreases args.len() - i,
                {
                    assert(views[i as int] == args@[i as int]@);
                    push_literal(out, &args[i].kind);
                    push_char(out, ',');
                    i = i + 1;
                    assert(out@ =~= base + substitutions(views, i as int));
                }
                out.append("), end=\"\")\n");
                assert(out@ =~= old(out)@ + print_line(views));
            }
        },
        _ => {
            assert(out@ =~= old(out)@ + print_line(views));
        },
    }
}

/// Appends the text that one statement becomes.
pub fn push_statement(out: &mut String, stmt: &Statement) -> (r: Result<(), CompileError>)
    ensures
        match python3_statement(stmt@) {
            Ok(t) => r is Ok && final(out)@ == old(out)@ + t,
            Err(e) => r is Err && r->Err_0@ == e && final(out)@ == old(out)@,
        },
{
    match stmt {
        Statement::Funcall { name, args } => {
            if names_printf(&name.kind) {
                push_print(out, args);
                Ok(())
            } else {
                Err(unknown_function(name))
            }
        },
        Statement::Return { expr } => {
            assert(out@ =~= old(out)@ + Seq::<char>::empty());
            Ok(())
        },
    }
}

/// Lowers a function to a program for the interpreter: one `print` for
/// each call of `printf`, and nothing for a `return`. A call of any other
/// function is an error, and no text is given.
pub fn generate_python3(func: &Function) -> (r: Result<String, CompileError>)
    ensures
        emitted(r, python3_spec(func@)),
{
    let ghost body: Seq<StatementView> = func@.body;
    let mut out: String = String::new();
    let mut k: usize = 0;
    proof {
        match python3_from(body, 0) {
            Ok(t) => {
                assert(Seq::<char>::empty() + t =~= t);
            },
            Err(_) => {},
        }
    }
    while k < func.body.len()
        invariant
            k <= func.body.len(),
            body == statement_views(func.body@),
            python3_from(body, 0) == text_after(out@, python3_from(body, k as int)),
        decreases func.body.len() - k,
    {
        let ghost before: Seq<char> = out@;
        assert(body[k as int] == func.body@[k as int]@);
        match push_statement(&mut out, &func.body[k]) {
            Err(e) => {
                return Err(e);
            },
            Ok(_) => {
                proof {
                    let t = python3_statement(body[k as int])->Ok_0;
                    match python3_from(body, k + 1) {
                        Ok(rest) => {
                            assert(before + (t + rest) =~= (before + t) + rest);
                        },
                        Err(_) => {},
                    }
                }
            },
        }
        k = k + 1;
    }
    assert(out@ + Seq::<char>::empty() =~= out@);
    Ok(out)
}

} // verus!
