//! Value-producing syntax tree nodes.

use vstd::prelude::*;

use crate::literal::SpecValue;
use crate::literal::Value;
use crate::token::SpecToken;
use crate::token::Token;
use crate::token_type::TokenType;

verus! {

/// An expression node. Each compound node exclusively owns its children.
#[derive(Debug)]
pub enum Expr {
    Assign(Token, Box<Expr>),
    Binary(Box<Expr>, Token, Box<Expr>),
    Grouping(Box<Expr>),
    Literal(Value),
    Unary(Token, Box<Expr>),
    Variable(Token),
}

/// The mathematical shape of an expression.
pub enum SpecExpr {
    Assign(SpecToken, Box<SpecExpr>),
    Binary(Box<SpecExpr>, SpecToken, Box<SpecExpr>),
    Grouping(Box<SpecExpr>),
    Literal(SpecValue),
    Unary(SpecToken, Box<SpecExpr>),
    Variable(SpecToken),
}

impl Expr {
    pub open spec fn deep(self) -> SpecExpr
        decreases self,
    {
        match self {
            Expr::Assign(t, e) => SpecExpr::Assign(t@, Box::new((*e).deep())),
            Expr::Binary(l, t, r) => SpecExpr::Binary(
                Box::new((*l).deep()),
                t@,
                Box::new((*r).deep()),
            ),
            Expr::Grouping(e) => SpecExpr::Grouping(Box::new((*e).deep())),
            Expr::Literal(v) => SpecExpr::Literal(v@),
            Expr::Unary(t, e) => SpecExpr::Unary(t@, Box::new((*e).deep())),
            Expr::Variable(t) => SpecExpr::Variable(t@),
        }
    }
}

impl View for Expr {
    type V = SpecExpr;

    open spec fn view(&self) -> SpecExpr {
        self.deep()
    }
}

impl DeepView for Expr {
    type V = SpecExpr;

    open spec fn deep_view(&self) -> SpecExpr {
        self.deep()
    }
}

/// The operator kinds the parser can put in a unary node.
pub open spec fn wf_unary_op(kind: TokenType) -> bool {
    kind == TokenType::MINUS || kind == TokenType::BANG
}

/// The operator kinds the parser can put in a binary node.
pub open spec fn wf_binary_op(kind: TokenType) -> bool {
    ||| kind == TokenType::PLUS
    ||| kind == TokenType::MINUS
    ||| kind == TokenType::STAR
    ||| kind == TokenType::SLASH
    ||| kind == TokenType::GREATER
    ||| kind == TokenType::GREATER_EQUAL
    ||| kind == TokenType::LESS
    ||| kind == TokenType::LESS_EQUAL
    ||| kind == TokenType::BANG_EQUAL
    ||| kind == TokenType::EQUAL_EQUAL
}

/// An expression whose operator tokens all carry kinds the evaluator
/// understands; everything the parser builds satisfies this.
pub open spec fn wf_expr(e: SpecExpr) -> bool
    decreases e,
{
    match e {
        SpecExpr::Assign(_, r) => wf_expr(*r),
        SpecExpr::Binary(l, op, r) => wf_binary_op(op.kind) && wf_expr(*l) && wf_expr(*r),
        SpecExpr::Grouping(inner) => wf_expr(*inner),
        SpecExpr::Literal(_) => true,
        SpecExpr::Unary(op, r) => wf_unary_op(op.kind) && wf_expr(*r),
        SpecExpr::Variable(_) => true,
    }
}

} // verus!
