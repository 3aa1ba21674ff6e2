use vstd::prelude::*;
use vstd::string::*;
use vstd::utf8::encode_utf8;
use crate::ast::{Function, FunctionView, Statement, StatementView, statement_views};
use crate::error::{CompileError, ErrorKind, ErrorKindView, ErrorView};
use crate::python3::{emitted, is_printf, names_printf, text_after, unknown_function, unknown_function_spec};
use crate::text::{decimal, push_char, push_decimal, push_signed_decimal, same_chars, signed_decimal};
use crate::token::{TokenKind, TokenKindView, TokenView, token_views};

verus! {

/// The texts that a list of strings holds.
pub open spec fn string_views(strings: Seq<String>) -> Seq<Seq<char>> {
    strings.map_values(|s: String| s@)
}

/// A string table with `s` registered: unchanged where it holds `s`
/// already, and with `s` at its end otherwise.
pub open spec fn intern_spec(table: Seq<Seq<char>>, s: Seq<char>) -> Seq<Seq<char>> {
    if table.contains(s) {
        table
    } else {
        table.push(s)
    }
}

/// The lines that open the listing, up to the entry label.
pub open spec fn header() -> Seq<char> {
    "format ELF64 executable 3\nsegment readable executable\nentry start\nstart:\n"@
}

/// The instructions that end the process with status `n`.
pub open spec fn exit_block(n: int) -> Seq<char> {
    "    mov rax, 60\n    mov rdi, "@ + signed_decimal(n) + "\n    syscall\n"@
}

/// The instructions that write the `len` bytes of string `slot` to the
/// standard output.
pub open spec fn write_block(slot: nat, len: nat) -> Seq<char> {
    "    mov rax, 1\n    mov rdi, 1\n    mov rsi, str_"@ + decimal(slot) + "\n    mov rdx, "@
        + decimal(len) + "\n    syscall\n"@
}

/// The first `k` of these bytes as decimal numerals with commas between.
pub open spec fn byte_list(bytes: Seq<u8>, k: int) -> Seq<char>
    decreases k,
{
    if k <= 0 {
        Seq::empty()
    } else if k == 1 {
        decimal(bytes[0] as nat)
    } else {
        byte_list(bytes, k - 1) + seq![','] + decimal(bytes[k - 1] as nat)
    }
}

/// The line of the data segment that holds string `slot`: its label and
/// the bytes of its UTF-8 encoding, with nothing added at the end.
pub open spec fn data_line(slot: nat, s: Seq<char>) -> Seq<char> {
    "str_"@ + decimal(slot) + " db "@ + byte_list(encode_utf8(s), encode_utf8(s).len() as int)
        + seq!['\n']
}

/// The lines of the first `k` strings of a table.
pub open spec fn data_lines(table: Seq<Seq<char>>, k: int) -> Seq<char>
    decreases k,
{
    if k <= 0 {
        Seq::empty()
    } else {
        data_lines(table, k - 1) + data_line((k - 1) as nat, table[k - 1])
    }
}

/// The data segment: its header, then one line for each string of the
/// table, in the table's order.
pub open spec fn data_segment(table: Seq<Seq<char>>) -> Seq<char> {
    "segment readable writable\n"@ + data_lines(table, table.len() as int)
}

/// The error for a call of `printf` with a number of arguments other than
/// one, at the place of the callee's name.
pub open spec fn wrong_count_spec(name: TokenView, got: nat) -> ErrorView {
    ErrorView { loc: name.loc, kind: ErrorKindView::WrongArgumentCount { wanted: 1, got } }
}

/// The instructions that one statement becomes, and the string table after
/// it. The return of a number ends the process with that status. A call of
/// `printf` with one string writes that string, which is registered in the
/// table; with another number of arguments it is an error. A call of any
/// other function is an error. Anything else becomes nothing.
pub open spec fn fasm_statement(s: StatementView, table: Seq<Seq<char>>) -> Result<
    (Seq<char>, Seq<Seq<char>>),
    ErrorView,
> {
    match s {
        StatementView::Return { expr } => match expr.kind {
            TokenKindView::Number(n) => Ok((exit_block(n), table)),
            _ => Ok((Seq::empty(), table)),
        },
        StatementView::Funcall { name, args } => if is_printf(name.kind) {
            if args.len() != 1 {
                Err(wrong_count_spec(name, args.len()))
            } else {
                match args[0].kind {
                    TokenKindView::StringLiteral(text) => {
                        let next = intern_spec(table, text);
                        Ok(
                            (
                                write_block(next.index_of(text) as nat, encode_utf8(text).len()),
                                next,
                            ),
                        )
                    },
                    _ => Ok((Seq::empty(), table)),
                }
            }
        } else {
            Err(unknown_function_spec(name))
        },
    }
}

/// The string table after the statements from statement `k` on, as far as
/// they give no error, where the statements before left `table`.
pub open spec fn final_table(body: Seq<StatementView>, k: int, table: Seq<Seq<char>>) -> Seq<
    Seq<char>,
>
    decreases body.len() - k,
{
    if k < 0 || k >= body.len() {
        table
    } else {
        match fasm_statement(body[k], table) {
            Err(_) => table,
            Ok((_, next)) => final_table(body, k + 1, next),
        }
    }
}

/// The instructions of the statements from statement `k` on, as far as they
/// give no error, where the statements before left `table`.
pub open spec fn code_from(body: Seq<StatementView>, k: int, table: Seq<Seq<char>>) -> Seq<char>
    decreases body.len() - k,
{
    if k < 0 || k >= body.len() {
        Seq::empty()
    } else {
        match fasm_statement(body[k], table) {
            Err(_) => Seq::empty(),
            Ok((text, next)) => text + code_from(body, k + 1, next),
        }
    }
}

/// The listing from statement `k` on, with the string table as the
/// statements before it left it: the instructions of each statement, then
/// the data segment; or the first error.
pub open spec fn fasm_from(body: Seq<StatementView>, k: int, table: Seq<Seq<char>>) -> Result<
    Seq<char>,
    ErrorView,
>
    decreases body.len() - k,
{
    if k < 0 || k >= body.len() {
        Ok(data_segment(table))
    } else {
        match fasm_statement(body[k], table) {
            Err(e) => Err(e),
            Ok((text, next)) => text_after(text, fasm_from(body, k + 1, next)),
        }
    }
}

/// The listing of a function: the header, the instructions of each
/// statement in order, and the data segment with every distinct string.
pub open spec fn fasm_spec(f: FunctionView) -> Result<Seq<char>, ErrorView> {
    text_after(header(), fasm_from(f.body, 0, Seq::empty()))
}

/// Tells whether a list of strings holds the text `s`.
pub fn contains(strings: &Vec<String>, s: &str) -> (b: bool)
    ensures
        b == string_views(strings@).contains(s@),
{
    let mut i: usize = 0;
    while i < strings.len()
        invariant
            i <= strings.len(),
            forall|j: int| 0 <= j < i ==> string_views(strings@)[j] != s@,
        decreases strings.len() - i,
    {
        assert(string_views(strings@)[i as int] == strings@[i as int]@);
        if same_chars(strings[i].as_str(), s) {
            return true;
        }
        i = i + 1;
    }
    false
}

/// Registers `s` in a table of distinct strings and gives its slot: the
/// one it has, or a new one at the end.
pub fn intern(strings: &mut Vec<String>, s: &str) -> (slot: usize)
    requires
        string_views(old(strings)@).no_duplicates(),
    ensures
        string_views(final(strings)@) == intern_spec(string_views(old(strings)@), s@),
        string_views(final(strings)@).no_duplicates(),
        slot == string_views(final(strings)@).index_of(s@),
        slot < final(strings)@.len(),
{
    let ghost table: Seq<Seq<char>> = string_views(strings@);
    let mut i: usize = 0;
    while i < strings.len()
        invariant
            i <= strings.len(),
            strings@ == old(strings)@,
            table == string_views(strings@),
            table.no_duplicates(),
            forall|j: int| 0 <= j < i ==> table[j] != s@,
        decreases strings.len() - i,
    {
        assert(table[i as int] == strings@[i as int]@);
        if same_chars(strings[i].as_str(), s) {
            assert(table.contains(s@));
            assert(table[table.index_of(s@)] == s@);
            return i;
        }
        i = i + 1;
    }
    strings.push(s.to_owned());
    assert(string_views(strings@) =~= table.push(s@));
    assert(string_views(strings@)[i as int] == s@);
    assert(string_views(strings@)[string_views(strings@).index_of(s@)] == s@);
    i
}

/// Appends the bytes of a string as decimal numerals with commas between.
pub fn push_bytes(out: &mut String, bytes: &Vec<u8>)
    ensures
        final(out)@ == old(out)@ + byte_list(bytes@, bytes@.len() as int),
{
    let mut i: usize = 0;
    assert(out@ =~= old(out)@ + byte_list(bytes@, 0));
    while i < bytes.len()
        invariant
            i <= bytes.len(),
            out@ == old(out)@ + byte_list(bytes@, i as int),
        decreases bytes.len() - i,
    {
        if i > 0 {
            push_char(out, ',');
        }
        push_decimal(out, bytes[i] as u128);
        i = i + 1;
        assert(out@ =~= old(out)@ + byte_list(bytes@, i as int));
    }
}

/// Appends the data segment of a string table.
pub fn push_data_segment(out: &mut String, strings: &Vec<String>)
    ensures
        final(out)@ == old(out)@ + data_segment(string_views(strings@)),
{
    let ghost table: Seq<Seq<char>> = string_views(strings@);
    out.append("segment readable writable\n");
    let ghost base: Seq<char> = out@;
    let mut n: usize = 0;
    assert(out@ =~= base + data_lines(table, 0));
    while n < strings.len()
        invariant
            n <= strings.len(),
            table == string_views(strings@),
            out@ == base + data_lines(table, n as int),
        decreases strings.len() - n,
    {
        assert(table[n as int] == strings@[n as int]@);
        out.append("str_");
        push_decimal(out, n as u128);
        out.append(" db ");
        let bytes: Vec<u8> = strings[n].as_str().as_bytes_vec();
        push_bytes(out, &bytes);
        push_char(out, '\n');
        n = n + 1;
        assert(out@ =~= base + data_lines(table, n as int));
    }
    assert(out@ =~= old(out)@ + data_segment(table));
}

/// Appends the instructions that one statement becomes, and registers the
/// string that it writes.
pub fn push_instructions(out: &mut String, strings: &mut Vec<String>, stmt: &Statement) -> (r:
    Result<(), CompileError>)
    requires
        string_views(old(strings)@).no_duplicates(),
    ensures
        string_views(final(strings)@).no_duplicates(),
        match fasm_statement(stmt@, string_views(old(strings)@)) {
            Ok((text, next)) => r is Ok && final(out)@ == old(out)@ + text && string_views(
                final(strings)@,
            ) == next,
            Err(e) => r is Err && r->Err_0@ == e && final(out)@ == old(out)@ && final(strings)@
                == old(strings)@,
        },
{
    match stmt {
        Statement::Return { expr } => {
            match &expr.kind {
                TokenKind::Number(n) => {
                    out.append("    mov rax, 60\n    mov rdi, ");
                    push_signed_decimal(out, *n);
                    out.append("\n    syscall\n");
                    assert(out@ =~= old(out)@ + exit_block(*n as int));
                },
                _ => {
                    assert(out@ =~= old(out)@ + Seq::<char>::empty());
                },
            }
            Ok(())
        },
        Statement::Funcall { name, args } => {
            if !names_printf(&name.kind) {
                return Err(unknown_function(name));
            }
            let arity: usize = args.len();
            if arity != 1 {
                return Err(
                    CompileError {
                        loc: name.loc.duplicate(),
                        kind: ErrorKind::WrongArgumentCount { wanted: 1, got: arity },
                    },
                );
            }
            assert(token_views(args@)[0] == args@[0]@);
            match &args[0].kind {
                TokenKind::StringLiteral(text) => {
                    let m: usize = text.as_str().as_bytes().len();
                    let slot: usize = intern(strings, text.as_str());
                    out.append("    mov rax, 1\n    mov rdi, 1\n    mov rsi, str_");
                    push_decimal(out, slot as u128);
                    out.append("\n    mov rdx, ");
                    push_decimal(out, m as u128);
                    out.append("\n    syscall\n");
                    assert(out@ =~= old(out)@ + write_block(slot as nat, m as nat));

                },
                _ => {
                    assert(out@ =~= old(out)@ + Seq::<char>::empty());
                },
            }
            Ok(())
        },
    }
}

/// Lowers a function to a listing for the assembler: the header, the
/// instructions of each statement, and a data segment that holds each
/// distinct string once. A call of a function other than `printf`, or of
/// `printf` with a number of arguments other than one, is an error, and no
/// text is given.
pub fn generate_fasm_x86_64_linux(func: &Function) -> (r: Result<String, CompileError>)
    ensures
        emitted(r, fasm_spec(func@)),
{
    let ghost body: Seq<StatementView> = func@.body;
    let mut out: String = String::new();
    out.append("format ELF64 executable 3\nsegment readable executable\nentry start\nstart:\n");
    let mut strings: Vec<String> = Vec::new();
    let mut k: usize = 0;
    assert(string_views(strings@) =~= Seq::<Seq<char>>::empty());
    assert(out@ =~= header());
    while k < func.body.len()
        invariant
            k <= func.body.len(),
            body == statement_views(func.body@),
            string_views(strings@).no_duplicates(),
            fasm_spec(func@) == text_after(
                out@,
                fasm_from(body, k as int, string_views(strings@)),
            ),
        decreases func.body.len() - k,
    {
        let ghost before: Seq<char> = out@;
        let ghost table: Seq<Seq<char>> = string_views(strings@);
        assert(body[k as int] == func.body@[k as int]@);
        match push_instructions(&mut out, &mut strings, &func.body[k]) {
            Err(e) => {
                return Err(e);
            },
            Ok(_) => {
                proof {
                    let step = fasm_statement(body[k as int], table)->Ok_0;
                    match fasm_from(body, k + 1, step.1) {
                        Ok(rest) => {
                            assert(before + (step.0 + rest) =~= (before + step.0) + rest);
                        },
                        Err(_) => {},
                    }
                }
            },
        }
        k = k + 1;
    }
    push_data_segment(&mut out, &strings);
    Ok(out)
}

} // verus!
