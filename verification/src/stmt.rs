//! Effect-producing syntax tree nodes.

use vstd::prelude::*;

use crate::expr::wf_expr;
use crate::expr::Expr;
use crate::expr::SpecExpr;
use crate::token::SpecToken;
use crate::token::Token;

verus! {

/// A statement node: evaluate and discard, print, or declare a variable
/// with an optional initializer.
#[derive(Debug)]
pub enum Stmt {
    Expression(Expr),
    Print(Expr),
    Var(Token, Option<Expr>),
}

/// The mathematical shape of a statement.
pub enum SpecStmt {
    Expression(SpecExpr),
    Print(SpecExpr),
    Var(SpecToken, Option<SpecExpr>),
}

impl Stmt {
    pub open spec fn deep(self) -> SpecStmt {
        match self {
            Stmt::Expression(e) => SpecStmt::Expression(e.deep()),
            Stmt::Print(e) => SpecStmt::Print(e.deep()),
            Stmt::Var(t, init) => SpecStmt::Var(
                t@,
                match init {
                    Some(e) => Some(e.deep()),
                    None => None,
                },
            ),
        }
    }
}

impl View for Stmt {
    type V = SpecStmt;

    open spec fn view(&self) -> SpecStmt {
        self.deep()
    }
}

impl DeepView for Stmt {
    type V = SpecStmt;

    open spec fn deep_view(&self) -> SpecStmt {
        self.deep()
    }
}

/// A statement whose expressions are all well formed.
pub open spec fn wf_stmt(s: SpecStmt) -> bool {
    match s {
        SpecStmt::Expression(e) => wf_expr(e),
        SpecStmt::Print(e) => wf_expr(e),
        SpecStmt::Var(_, init) => match init {
            Some(e) => wf_expr(e),
            None => true,
        },
    }
}

} // verus!
