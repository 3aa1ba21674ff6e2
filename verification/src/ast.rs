use vstd::prelude::*;
use crate::token::{Token, TokenView, token_views};

verus! {

/// A statement: a call with literal arguments, or the return of a literal.
#[derive(Debug, PartialEq, Eq)]
pub enum Statement {
    Funcall { name: Token, args: Vec<Token> },
    Return { expr: Token },
}

/// The mathematical value of a `Statement`.
pub enum StatementView {
    Funcall { name: TokenView, args: Seq<TokenView> },
    Return { expr: TokenView },
}

impl View for Statement {
    type V = StatementView;

    open spec fn view(&self) -> StatementView {
        match self {
            Statement::Funcall { name, args } => StatementView::Funcall {
                name: name@,
                args: token_views(args@),
            },
            Statement::Return { expr } => StatementView::Return { expr: expr@ },
        }
    }
}

impl StatementView {
    /// The callee is a name, and every argument and every returned
    /// expression is a literal.
    pub open spec fn wf(self) -> bool {
        match self {
            StatementView::Funcall { name, args } => name.kind is Name && forall|i: int|
                0 <= i < args.len() ==> (#[trigger] args[i]).kind.is_literal(),
            StatementView::Return { expr } => expr.kind.is_literal(),
        }
    }
}

/// The values of a sequence of statements.
pub open spec fn statement_views(ss: Seq<Statement>) -> Seq<StatementView> {
    ss.map_values(|s: Statement| s@)
}

/// The one function of a program: its name and the statements of its body.
#[derive(Debug, PartialEq, Eq)]
pub struct Function {
    pub name: Token,
    pub body: Vec<Statement>,
}

/// The mathematical value of a `Function`.
pub struct FunctionView {
    pub name: TokenView,
    pub body: Seq<StatementView>,
}

impl View for Function {
    type V = FunctionView;

    open spec fn view(&self) -> FunctionView {
        FunctionView { name: self.name@, body: statement_views(self.body@) }
    }
}

impl FunctionView {
    /// The function's name is a name, and every statement of its body is
    /// well formed.
    pub open spec fn wf(self) -> bool {
        self.name.kind is Name && forall|i: int|
            0 <= i < self.body.len() ==> (#[trigger] self.body[i]).wf()
    }
}

} // verus!
