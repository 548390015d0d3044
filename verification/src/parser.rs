//! The recursive-descent parser: a token sequence in, a statement sequence
//! and syntax diagnostics out. A grammar error inside one statement is
//! reported, the parser resynchronizes at the next statement boundary, and
//! parsing goes on, so one broken statement costs one diagnostic and nothing
//! after it.

use vstd::prelude::*;

use crate::diag::spec_locus;
use crate::diag::Diag;
use crate::diag::SpecDiag;
use crate::expr::wf_binary_op;
use crate::expr::wf_expr;
use crate::expr::Expr;
use crate::expr::SpecExpr;
use crate::literal::SpecValue;
use crate::literal::Value;
use crate::stmt::wf_stmt;
use crate::stmt::SpecStmt;
use crate::stmt::Stmt;
use crate::token::SpecToken;
use crate::token::Token;
use crate::token_type::TokenType;

verus! {

/// The token at a position; past the end, a stand-in end-of-input token.
pub open spec fn tok_at(toks: Seq<SpecToken>, i: int) -> SpecToken {
    if 0 <= i < toks.len() {
        toks[i]
    } else {
        SpecToken { kind: TokenType::EOF, lexeme: Seq::empty(), literal: SpecValue::Nil, line: 0 }
    }
}

/// A token sequence that reaches an end-of-input token at or after `i`.
pub open spec fn has_eof_from(toks: Seq<SpecToken>, i: int) -> bool {
    exists|k: int| i <= k < toks.len() && (#[trigger] toks[k]).kind == TokenType::EOF
}

/// Whether the next token has the wanted kind; the end-of-input token
/// matches nothing.
pub open spec fn spec_check(toks: Seq<SpecToken>, i: int, ty: TokenType) -> bool {
    tok_at(toks, i).kind != TokenType::EOF && tok_at(toks, i).kind == ty
}

/// Where the cursor stands after consuming one token: the end-of-input
/// token is never consumed.
pub open spec fn spec_advance(toks: Seq<SpecToken>, i: int) -> int {
    if tok_at(toks, i).kind != TokenType::EOF {
        i + 1
    } else {
        i
    }
}

/// The diagnostic for a syntax error noticed at a token.
pub open spec fn spec_parse_diag(t: SpecToken, message: Seq<char>) -> SpecDiag {
    SpecDiag { line: t.line, locus: spec_locus(t.kind, t.lexeme), message }
}

/// What demanding one token kind yields: the token and the cursor moved, or
/// a diagnostic with the cursor unmoved.
pub open spec fn spec_consume(toks: Seq<SpecToken>, i: int, ty: TokenType, message: Seq<char>) -> (
    Option<SpecToken>,
    int,
    Seq<SpecDiag>,
) {
    if spec_check(toks, i, ty) {
        (Some(tok_at(toks, i)), i + 1, Seq::empty())
    } else {
        (None, i, seq![spec_parse_diag(tok_at(toks, i), message)])
    }
}

/// What parsing one expression production yields: the node when it
/// succeeded, the cursor after it, and the diagnostics it added.
pub struct PExpr {
    pub node: Option<SpecExpr>,
    pub pos: int,
    pub diags: Seq<SpecDiag>,
}

/// What parsing one statement production yields.
pub struct PStmt {
    pub node: Option<SpecStmt>,
    pub pos: int,
    pub diags: Seq<SpecDiag>,
}

/// A cursor clamped to have moved past `i` and to stay inside the tokens,
/// for termination; every production in fact moves the cursor and stays in
/// range, so the clamp changes nothing.
pub open spec fn past(p: int, i: int, n: int) -> int {
    let q = if p > i {
        p
    } else {
        i + 1
    };
    if q > n {
        n
    } else {
        q
    }
}

/// `primary`: a literal, a variable reference, or a parenthesized group.
pub open spec fn spec_primary(toks: Seq<SpecToken>, i: int) -> PExpr
    decreases toks.len() - i, 2int,
{
    let t = tok_at(toks, i);
    if spec_check(toks, i, TokenType::FALSE) {
        PExpr { node: Some(SpecExpr::Literal(SpecValue::Bool(false))), pos: i + 1, diags: Seq::empty() }
    } else if spec_check(toks, i, TokenType::TRUE) {
        PExpr { node: Some(SpecExpr::Literal(SpecValue::Bool(true))), pos: i + 1, diags: Seq::empty() }
    } else if spec_check(toks, i, TokenType::NIL) {
        PExpr { node: Some(SpecExpr::Literal(SpecValue::Nil)), pos: i + 1, diags: Seq::empty() }
    } else if spec_check(toks, i, TokenType::NUMBER) || spec_check(toks, i, TokenType::STRING) {
        PExpr { node: Some(SpecExpr::Literal(t.literal)), pos: i + 1, diags: Seq::empty() }
    } else if spec_check(toks, i, TokenType::IDENTIFIER) {
        PExpr { node: Some(SpecExpr::Variable(t)), pos: i + 1, diags: Seq::empty() }
    } else if spec_check(toks, i, TokenType::LEFT_PAREN) {
        let inner = spec_expression(toks, i + 1);
        match inner.node {
            None => PExpr { node: None, pos: inner.pos, diags: inner.diags },
            Some(e) => {
                let c = spec_consume(
                    toks,
                    past(inner.pos, i, toks.len() as int),
                    TokenType::RIGHT_PAREN,
                    "Expect ')' after expression."@,
                );
                match c.0 {
                    Some(_) => PExpr {
                        node: Some(SpecExpr::Grouping(Box::new(e))),
                        pos: c.1,
                        diags: inner.diags + c.2,
                    },
                    None => PExpr { node: None, pos: c.1, diags: inner.diags + c.2 },
                }
            },
        }
    } else {
        PExpr {
            node: None,
            pos: i,
            diags: seq![spec_parse_diag(t, "Expect expression."@)],
        }
    }
}

/// `unary`: `!` or `-` applied to a unary, or a primary.
pub open spec fn spec_unary(toks: Seq<SpecToken>, i: int) -> PExpr
    decreases toks.len() - i, 3int,
{
    if spec_check(toks, i, TokenType::BANG) || spec_check(toks, i, TokenType::MINUS) {
        let op = tok_at(toks, i);
        let sub = spec_unary(toks, i + 1);
        match sub.node {
            None => sub,
            Some(e) => PExpr {
                node: Some(SpecExpr::Unary(op, Box::new(e))),
                pos: sub.pos,
                diags: sub.diags,
            },
        }
    } else {
        spec_primary(toks, i)
    }
}

/// The left fold of one binary precedence tier: while the next token is one
/// of the tier's operators, parse the next operand and fold leftward.
pub open spec fn spec_binary_rest(
    toks: Seq<SpecToken>,
    e: SpecExpr,
    i: int,
    k1: TokenType,
    k2: TokenType,
    k3: TokenType,
    k4: TokenType,
    rank: int,
) -> PExpr
    decreases toks.len() - i, 0int,
{
    if spec_check(toks, i, k1) || spec_check(toks, i, k2) || spec_check(toks, i, k3) || spec_check(
        toks,
        i,
        k4,
    ) {
        let op = tok_at(toks, i);
        let sub = spec_tier(toks, i + 1, rank);
        match sub.node {
            None => sub,
            Some(r) => {
                let e2 = SpecExpr::Binary(Box::new(e), op, Box::new(r));
                let rest = spec_binary_rest(toks, e2, past(sub.pos, i, toks.len() as int), k1, k2, k3, k4, rank);
                PExpr { node: rest.node, pos: rest.pos, diags: sub.diags + rest.diags }
            },
        }
    } else {
        PExpr { node: Some(e), pos: i, diags: Seq::empty() }
    }
}

/// The operand parser one tier below each binary tier: the tiers, highest
/// binding first, are unary, multiplication, addition, comparison.
pub open spec fn spec_tier(toks: Seq<SpecToken>, i: int, rank: int) -> PExpr
    decreases toks.len() - i, 4int + (if 0 <= rank <= 3 {
        rank
    } else {
        0int
    }),
{
    if rank == 1 {
        spec_multiplication(toks, i)
    } else if rank == 2 {
        spec_addition(toks, i)
    } else if rank == 3 {
        spec_comparison(toks, i)
    } else {
        spec_unary(toks, i)
    }
}

/// `multiplication`: unary folded over `*` and `/`.
pub open spec fn spec_multiplication(toks: Seq<SpecToken>, i: int) -> PExpr
    decreases toks.len() - i, 4int,
{
    let sub = spec_unary(toks, i);
    match sub.node {
        None => sub,
        Some(e) => {
            if 0 <= i < toks.len() {
                let rest = spec_binary_rest(
                    toks,
                    e,
                    past(sub.pos, i, toks.len() as int),
                    TokenType::SLASH,
                    TokenType::STAR,
                    TokenType::SLASH,
                    TokenType::STAR,
                    0,
                );
                PExpr { node: rest.node, pos: rest.pos, diags: sub.diags + rest.diags }
            } else {
                sub
            }
        },
    }
}

/// `addition`: multiplication folded over `+` and `-`.
pub open spec fn spec_addition(toks: Seq<SpecToken>, i: int) -> PExpr
    decreases toks.len() - i, 5int,
{
    let sub = spec_multiplication(toks, i);
    match sub.node {
        None => sub,
        Some(e) => {
            if 0 <= i < toks.len() {
                let rest = spec_binary_rest(
                    toks,
                    e,
                    past(sub.pos, i, toks.len() as int),
                    TokenType::MINUS,
                    TokenType::PLUS,
                    TokenType::MINUS,
                    TokenType::PLUS,
                    1,
                );
                PExpr { node: rest.node, pos: rest.pos, diags: sub.diags + rest.diags }
            } else {
                sub
            }
        },
    }
}

/// `comparison`: addition folded over `>`, `>=`, `<`, `<=`.
pub open spec fn spec_comparison(toks: Seq<SpecToken>, i: int) -> PExpr
    decreases toks.len() - i, 6int,
{
    let sub = spec_addition(toks, i);
    match sub.node {
        None => sub,
        Some(e) => {
            if 0 <= i < toks.len() {
                let rest = spec_binary_rest(
                    toks,
                    e,
                    past(sub.pos, i, toks.len() as int),
                    TokenType::GREATER,
                    TokenType::GREATER_EQUAL,
                    TokenType::LESS,
                    TokenType::LESS_EQUAL,
                    2,
                );
                PExpr { node: rest.node, pos: rest.pos, diags: sub.diags + rest.diags }
            } else {
                sub
            }
        },
    }
}

/// `equality`: comparison folded over `==` and `!=`.
pub open spec fn spec_equality(toks: Seq<SpecToken>, i: int) -> PExpr
    decreases toks.len() - i, 7int,
{
    let sub = spec_comparison(toks, i);
    match sub.node {
        None => sub,
        Some(e) => {
            if 0 <= i < toks.len() {
                let rest = spec_binary_rest(
                    toks,
                    e,
                    past(sub.pos, i, toks.len() as int),
                    TokenType::BANG_EQUAL,
                    TokenType::EQUAL_EQUAL,
                    TokenType::BANG_EQUAL,
                    TokenType::EQUAL_EQUAL,
                    3,
                );
                PExpr { node: rest.node, pos: rest.pos, diags: sub.diags + rest.diags }
            } else {
                sub
            }
        },
    }
}

/// The suffix of an assignment after the left side has been parsed: if
/// `=` follows, the left side must be exactly a variable reference, which
/// becomes an assignment around the recursively parsed right side.
/// Any other left side is an invalid assignment target: the diagnostic is
/// reported and the left expression is kept, so parsing continues.
pub open spec fn spec_assign_rest(toks: Seq<SpecToken>, e: SpecExpr, i: int) -> PExpr
    decreases toks.len() - i, 7int,
{
    if spec_check(toks, i, TokenType::EQUAL) {
        let equals = tok_at(toks, i);
        let rhs = spec_assignment(toks, i + 1);
        match rhs.node {
            None => PExpr { node: None, pos: rhs.pos, diags: rhs.diags },
            Some(v) => match e {
                SpecExpr::Variable(name) => PExpr {
                    node: Some(SpecExpr::Assign(name, Box::new(v))),
                    pos: rhs.pos,
                    diags: rhs.diags,
                },
                _ => PExpr {
                    node: Some(e),
                    pos: rhs.pos,
                    diags: rhs.diags + seq![
                        spec_parse_diag(equals, "Invalid assignment target."@),
                    ],
                },
            },
        }
    } else {
        PExpr { node: Some(e), pos: i, diags: Seq::empty() }
    }
}

/// `assignment`: an equality, optionally continued by an `=` suffix.
pub open spec fn spec_assignment(toks: Seq<SpecToken>, i: int) -> PExpr
    decreases toks.len() - i, 8int,
{
    let lhs = spec_equality(toks, i);
    match lhs.node {
        None => lhs,
        Some(e) => {
            if 0 <= i < toks.len() {
                let rest = spec_assign_rest(toks, e, past(lhs.pos, i, toks.len() as int));
                PExpr { node: rest.node, pos: rest.pos, diags: lhs.diags + rest.diags }
            } else {
                lhs
            }
        },
    }
}

/// `expression` is assignment, the lowest-binding tier.
pub open spec fn spec_expression(toks: Seq<SpecToken>, i: int) -> PExpr
    decreases toks.len() - i, 9int,
{
    spec_assignment(toks, i)
}

/// `printStmt`: the cursor stands after `print`.
pub open spec fn spec_print_statement(toks: Seq<SpecToken>, i: int) -> PStmt
    decreases toks.len() - i, 10int,
{
    let v = spec_expression(toks, i);
    match v.node {
        None => PStmt { node: None, pos: v.pos, diags: v.diags },
        Some(e) => {
            let c = spec_consume(
                toks,
                past(v.pos, i - 1, toks.len() as int),
                TokenType::SEMICOLON,
                "Expect ';' after value."@,
            );
            match c.0 {
                Some(_) => PStmt { node: Some(SpecStmt::Print(e)), pos: c.1, diags: v.diags + c.2 },
                None => PStmt { node: None, pos: c.1, diags: v.diags + c.2 },
            }
        },
    }
}

/// `exprStmt`.
pub open spec fn spec_expression_statement(toks: Seq<SpecToken>, i: int) -> PStmt
    decreases toks.len() - i, 10int,
{
    let v = spec_expression(toks, i);
    match v.node {
        None => PStmt { node: None, pos: v.pos, diags: v.diags },
        Some(e) => {
            let c = spec_consume(
                toks,
                past(v.pos, i - 1, toks.len() as int),
                TokenType::SEMICOLON,
                "Expect ';' after expression."@,
            );
            match c.0 {
                Some(_) => PStmt {
                    node: Some(SpecStmt::Expression(e)),
                    pos: c.1,
                    diags: v.diags + c.2,
                },
                None => PStmt { node: None, pos: c.1, diags: v.diags + c.2 },
            }
        },
    }
}

/// `statement`: a print statement or an expression statement.
pub open spec fn spec_statement(toks: Seq<SpecToken>, i: int) -> PStmt
    decreases toks.len() - i, 11int,
{
    if spec_check(toks, i, TokenType::PRINT) {
        spec_print_statement(toks, i + 1)
    } else {
        spec_expression_statement(toks, i)
    }
}

/// `varDecl`: the cursor stands after `var`.
pub open spec fn spec_var_declaration(toks: Seq<SpecToken>, i: int) -> PStmt
    decreases toks.len() - i, 10int,
{
    let c1 = spec_consume(toks, i, TokenType::IDENTIFIER, "Expect variable name."@);
    match c1.0 {
        None => PStmt { node: None, pos: c1.1, diags: c1.2 },
        Some(name) => {
            if spec_check(toks, c1.1, TokenType::EQUAL) {
                let init = spec_expression(toks, c1.1 + 1);
                match init.node {
                    None => PStmt { node: None, pos: init.pos, diags: init.diags },
                    Some(e) => {
                        let c2 = spec_consume(
                            toks,
                            past(init.pos, i, toks.len() as int),
                            TokenType::SEMICOLON,
                            "Expect ';' after variable declaration."@,
                        );
                        match c2.0 {
                            Some(_) => PStmt {
                                node: Some(SpecStmt::Var(name, Some(e))),
                                pos: c2.1,
                                diags: init.diags + c2.2,
                            },
                            None => PStmt { node: None, pos: c2.1, diags: init.diags + c2.2 },
                        }
                    },
                }
            } else {
                let c2 = spec_consume(
                    toks,
                    c1.1,
                    TokenType::SEMICOLON,
                    "Expect ';' after variable declaration."@,
                );
                match c2.0 {
                    Some(_) => PStmt {
                        node: Some(SpecStmt::Var(name, None)),
                        pos: c2.1,
                        diags: c2.2,
                    },
                    None => PStmt { node: None, pos: c2.1, diags: c2.2 },
                }
            }
        },
    }
}

/// Panic-mode recovery: discard tokens until just after a semicolon or just
/// before a token that can begin a declaration or statement.
pub open spec fn spec_sync_loop(toks: Seq<SpecToken>, j: int) -> int
    decreases toks.len() - j,
{
    let t = tok_at(toks, j);
    if t.kind == TokenType::EOF {
        j
    } else if tok_at(toks, j - 1).kind == TokenType::SEMICOLON {
        j
    } else if t.kind == TokenType::CLASS || t.kind == TokenType::FUN || t.kind == TokenType::VAR
        || t.kind == TokenType::FOR || t.kind == TokenType::IF || t.kind == TokenType::WHILE
        || t.kind == TokenType::PRINT || t.kind == TokenType::RETURN {
        j
    } else if 0 <= j < toks.len() {
        spec_sync_loop(toks, j + 1)
    } else {
        j
    }
}

/// Where the cursor stands after panic-mode recovery from position `i`.
pub open spec fn spec_synchronize(toks: Seq<SpecToken>, i: int) -> int {
    spec_sync_loop(toks, spec_advance(toks, i))
}

/// `declaration`: a variable declaration or a statement; on failure the
/// parser resynchronizes and the broken statement is dropped.
#[verifier::opaque]
pub open spec fn spec_declaration(toks: Seq<SpecToken>, i: int) -> PStmt
    decreases toks.len() - i, 12int,
{
    let r = if spec_check(toks, i, TokenType::VAR) {
        spec_var_declaration(toks, i + 1)
    } else {
        spec_statement(toks, i)
    };
    match r.node {
        Some(_) => r,
        None => PStmt { node: None, pos: spec_synchronize(toks, r.pos), diags: r.diags },
    }
}

/// The whole parse from position `i`: every well-formed statement, and
/// every diagnostic; a failed declaration costs its diagnostics and nothing
/// after it.
pub open spec fn spec_parse_loop(toks: Seq<SpecToken>, i: int) -> (Seq<SpecStmt>, Seq<SpecDiag>)
    decreases toks.len() - i,
{
    if tok_at(toks, i).kind == TokenType::EOF {
        (Seq::empty(), Seq::empty())
    } else {
        let d = spec_declaration(toks, i);
        let rest = spec_parse_loop(toks, past(d.pos, i, toks.len() as int));
        match d.node {
            Some(s) => (seq![s] + rest.0, d.diags + rest.1),
            None => (rest.0, d.diags + rest.1),
        }
    }
}

/// What parsing a token sequence yields: the statements and the syntax
/// diagnostics.
pub open spec fn spec_parse(toks: Seq<SpecToken>) -> (Seq<SpecStmt>, Seq<SpecDiag>) {
    spec_parse_loop(toks, 0)
}

broadcast use vstd::seq_lib::group_seq_lib_default;

/// The parser over one token sequence: the tokens, the cursor, and the
/// syntax diagnostics gathered so far.
#[derive(Debug)]
pub struct Parser {
    tokens: Vec<Token>,
    current: usize,
    errors: Vec<Diag>,
}

impl Parser {
    /// The tokens being parsed.
    pub closed spec fn toks(self) -> Seq<SpecToken> {
        self.tokens.deep_view()
    }

    /// The cursor.
    pub closed spec fn pos(self) -> int {
        self.current as int
    }

    /// The diagnostics gathered so far.
    pub closed spec fn errs(self) -> Seq<SpecDiag> {
        self.errors.deep_view()
    }

    /// An end-of-input token still lies ahead, so the cursor is in range.
    pub closed spec fn wf(self) -> bool {
        has_eof_from(self.toks(), self.pos())
    }

    /// A parser at the start of a token sequence, which must reach an
    /// end-of-input token, as every scan does.
    pub fn new(tokens: Vec<Token>) -> (r: Self)
        requires
            has_eof_from(tokens.deep_view(), 0),
        ensures
            r.wf(),
            r.toks() == tokens.deep_view(),
            r.pos() == 0,
            r.errs() == Seq::<SpecDiag>::empty(),
    {
        let r = Parser { tokens, current: 0, errors: Vec::new() };
        proof {
            assert(r.errors.deep_view() =~= Seq::<SpecDiag>::empty());
        }
        r
    }

    fn peek(&self) -> (r: Token)
        requires
            self.wf(),
        ensures
            r@ == tok_at(self.toks(), self.pos()),
    {
        proof {
            assert(self.toks()[self.pos()] == self.tokens@[self.pos()].deep_view());
        }
        self.tokens[self.current].clone()
    }

    fn previous(&self) -> (r: Token)
        requires
            self.wf(),
            self.pos() >= 1,
        ensures
            r@ == tok_at(self.toks(), self.pos() - 1),
    {
        proof {
            assert(self.toks()[self.pos() - 1] == self.tokens@[self.pos() - 1].deep_view());
        }
        self.tokens[self.current - 1].clone()
    }

    fn is_at_end(&self) -> (r: bool)
        requires
            self.wf(),
        ensures
            r == (tok_at(self.toks(), self.pos()).kind == TokenType::EOF),
    {
        proof {
            assert(self.toks()[self.pos()] == self.tokens@[self.pos()].deep_view());
        }
        self.tokens[self.current].kind == TokenType::EOF
    }

    fn check(&self, ty: TokenType) -> (r: bool)
        requires
            self.wf(),
        ensures
            r == spec_check(self.toks(), self.pos(), ty),
    {
        if self.is_at_end() {
            false
        } else {
            proof {
                assert(self.toks()[self.pos()] == self.tokens@[self.pos()].deep_view());
            }
            self.tokens[self.current].kind == ty
        }
    }

    fn advance(&mut self) -> (r: Token)
        requires
            old(self).wf(),
            old(self).pos() >= 1 || tok_at(old(self).toks(), old(self).pos()).kind
                != TokenType::EOF,
        ensures
            final(self).wf(),
            final(self).toks() == old(self).toks(),
            final(self).errs() == old(self).errs(),
            final(self).pos() == spec_advance(old(self).toks(), old(self).pos()),
            r@ == tok_at(old(self).toks(), final(self).pos() - 1),
    {
        if !self.is_at_end() {
            let n = self.tokens.len();
            proof {
                let k = choose|k: int|
                    self.pos() <= k < self.toks().len() && (#[trigger] self.toks()[k]).kind
                        == TokenType::EOF;
                assert(self.pos() + 1 <= k < self.toks().len());
                assert(self.toks().len() == self.tokens@.len());
                assert(self.pos() + 1 <= n);
            }
            self.current = self.current + 1;
        }
        self.previous()
    }

    fn matches(&mut self, ty: TokenType) -> (r: bool)
        requires
            old(self).wf(),
        ensures
            final(self).wf(),
            final(self).toks() == old(self).toks(),
            final(self).errs() == old(self).errs(),
            r == spec_check(old(self).toks(), old(self).pos(), ty),
            final(self).pos() == if r {
                old(self).pos() + 1
            } else {
                old(self).pos()
            },
    {
        if self.check(ty) {
            let _ = self.advance();
            true
        } else {
            false
        }
    }

    fn consume(&mut self, expected: TokenType, message: &str) -> (r: Result<Token, ()>)
        requires
            old(self).wf(),
        ensures
            final(self).wf(),
            final(self).toks() == old(self).toks(),
            ({
                let c = spec_consume(old(self).toks(), old(self).pos(), expected, message@);
                &&& final(self).pos() == c.1
                &&& final(self).errs() == old(self).errs() + c.2
                &&& match r {
                    Ok(t) => c.0 == Some(t@),
                    Err(()) => c.0 is None,
                }
            }),
    {
        if self.check(expected) {
            Ok(self.advance())
        } else {
            let t = self.peek();
            let d = crate::diag::error_token(&t, message.to_owned());
            let ghost before = self.errors.deep_view();
            self.errors.push(d);
            proof {
                assert(self.errors.deep_view() =~= before + seq![
                    spec_parse_diag(tok_at(old(self).toks(), old(self).pos()), message@),
                ]);
            }
            Err(())
        }
    }

    #[verifier::rlimit(100)]
    #[verifier::spinoff_prover]
    fn primary(&mut self) -> (r: Result<Expr, ()>)
        requires
            old(self).wf(),
        ensures
            final(self).wf(),
            final(self).toks() == old(self).toks(),
            old(self).pos() <= final(self).pos(),
            r is Ok ==> old(self).pos() < final(self).pos(),
            ({
                let s = spec_primary(old(self).toks(), old(self).pos());
                &&& final(self).pos() == s.pos
                &&& final(self).errs() == old(self).errs() + s.diags
                &&& match r {
                    Ok(e) => s.node == Some(e@) && wf_expr(e@),
                    Err(()) => s.node is None,
                }
            }),
        decreases old(self).toks().len() - old(self).pos(), 2int,
    {
        let ghost toks = self.toks();
        let ghost i = self.pos();
        if self.matches(TokenType::FALSE) {
            Ok(Expr::Literal(Value::Bool(false)))
        } else if self.matches(TokenType::TRUE) {
            Ok(Expr::Literal(Value::Bool(true)))
        } else if self.matches(TokenType::NIL) {
            Ok(Expr::Literal(Value::Nil))
        } else if self.matches(TokenType::NUMBER) {
            Ok(Expr::Literal(self.previous().literal))
        } else if self.matches(TokenType::STRING) {
            Ok(Expr::Literal(self.previous().literal))
        } else if self.matches(TokenType::IDENTIFIER) {
            Ok(Expr::Variable(self.previous()))
        } else if self.matches(TokenType::LEFT_PAREN) {
            let expr = match self.expression() {
                Ok(e) => e,
                Err(()) => {
                    return Err(());
                },
            };
            match self.consume(TokenType::RIGHT_PAREN, "Expect ')' after expression.") {
                Ok(_) => Ok(Expr::Grouping(Box::new(expr))),
                Err(()) => Err(()),
            }
        } else {
            let t = self.peek();
            let d = crate::diag::error_token(&t, String::from_str("Expect expression."));
            let ghost before = self.errors.deep_view();
            self.errors.push(d);
            proof {
                assert(self.errors.deep_view() =~= before + seq![
                    spec_parse_diag(tok_at(toks, i), "Expect expression."@),
                ]);
            }
            Err(())
        }
    }

    #[verifier::rlimit(100)]
    #[verifier::spinoff_prover]
    fn unary(&mut self) -> (r: Result<Expr, ()>)
        requires
            old(self).wf(),
        ensures
            final(self).wf(),
            final(self).toks() == old(self).toks(),
            old(self).pos() <= final(self).pos(),
            r is Ok ==> old(self).pos() < final(self).pos(),
            ({
                let s = spec_unary(old(self).toks(), old(self).pos());
                &&& final(self).pos() == s.pos
                &&& final(self).errs() == old(self).errs() + s.diags
                &&& match r {
                    Ok(e) => s.node == Some(e@) && wf_expr(e@),
                    Err(()) => s.node is None,
                }
            }),
        decreases old(self).toks().len() - old(self).pos(), 3int,
    {
        if self.matches(TokenType::BANG) || self.matches(TokenType::MINUS) {
            let operator = self.previous();
            let right = match self.unary() {
                Ok(e) => e,
                Err(()) => {
                    return Err(());
                },
            };
            Ok(Expr::Unary(operator, Box::new(right)))
        } else {
            self.primary()
        }
    }

    /// One binary precedence tier's left fold, continued: `e` is the parsed
    /// left side, and while the next token is one of the tier's operators,
    /// the next operand extends it leftward.
    #[verifier::rlimit(100)]
    #[verifier::spinoff_prover]
    fn binary_rest(
        &mut self,
        e: Expr,
        k1: TokenType,
        k2: TokenType,
        k3: TokenType,
        k4: TokenType,
        rank: usize,
    ) -> (r: Result<Expr, ()>)
        requires
            old(self).wf(),
            wf_expr(e@),
            wf_binary_op(k1),
            wf_binary_op(k2),
            wf_binary_op(k3),
            wf_binary_op(k4),
            rank <= 3,
        ensures
            final(self).wf(),
            final(self).toks() == old(self).toks(),
            old(self).pos() <= final(self).pos(),
            ({
                let s = spec_binary_rest(
                    old(self).toks(),
                    e@,
                    old(self).pos(),
                    k1,
                    k2,
                    k3,
                    k4,
                    rank as int,
                );
                &&& final(self).pos() == s.pos
                &&& final(self).errs() == old(self).errs() + s.diags
                &&& match r {
                    Ok(e2) => s.node == Some(e2@) && wf_expr(e2@),
                    Err(()) => s.node is None,
                }
            }),
        decreases old(self).toks().len() - old(self).pos(), 0int,
    {
        let ghost toks = self.toks();
        let ghost i = self.pos();
        if self.matches(k1) || self.matches(k2) || self.matches(k3) || self.matches(k4) {
            let operator = self.previous();
            proof {
                assert(operator@ == tok_at(toks, i));
            }
            let right = match self.tier(rank) {
                Ok(e2) => e2,
                Err(()) => {
                    return Err(());
                },
            };
            let folded = Expr::Binary(Box::new(e), operator, Box::new(right));
            proof {
                assert(wf_binary_op(operator@.kind));
                assert(past(self.pos(), i, toks.len() as int) == self.pos());
            }
            let ghost mid_errs = self.errs();
            let r = self.binary_rest(folded, k1, k2, k3, k4, rank);
            proof {
                let sub = spec_tier(toks, i + 1, rank as int);
                let rest = spec_binary_rest(
                    toks,
                    folded@,
                    past(sub.pos, i, toks.len() as int),
                    k1,
                    k2,
                    k3,
                    k4,
                    rank as int,
                );
                assert((old(self).errs() + sub.diags) + rest.diags =~= old(self).errs() + (
                sub.diags + rest.diags));
            }
            r
        } else {
            proof {
                        assert(spec_binary_rest(toks, e@, i, k1, k2, k3, k4, rank as int).node == Some(
                    e@,
                ));
                assert(self.errs() =~= old(self).errs() + Seq::<SpecDiag>::empty());
            }
            Ok(e)
        }
    }

    /// The operand parser one tier below each binary tier.
    fn tier(&mut self, rank: usize) -> (r: Result<Expr, ()>)
        requires
            old(self).wf(),
            rank <= 3,
        ensures
            final(self).wf(),
            final(self).toks() == old(self).toks(),
            old(self).pos() <= final(self).pos(),
            r is Ok ==> old(self).pos() < final(self).pos(),
            ({
                let s = spec_tier(old(self).toks(), old(self).pos(), rank as int);
                &&& final(self).pos() == s.pos
                &&& final(self).errs() == old(self).errs() + s.diags
                &&& match r {
                    Ok(e) => s.node == Some(e@) && wf_expr(e@),
                    Err(()) => s.node is None,
                }
            }),
        decreases old(self).toks().len() - old(self).pos(), 4int + (if rank <= 3 {
            rank as int
        } else {
            0int
        }),
    {
        if rank == 1 {
            self.multiplication()
        } else if rank == 2 {
            self.addition()
        } else if rank == 3 {
            self.comparison()
        } else {
            self.unary()
        }
    }

    fn multiplication(&mut self) -> (r: Result<Expr, ()>)
        requires
            old(self).wf(),
        ensures
            final(self).wf(),
            final(self).toks() == old(self).toks(),
            old(self).pos() <= final(self).pos(),
            r is Ok ==> old(self).pos() < final(self).pos(),
            ({
                let s = spec_multiplication(old(self).toks(), old(self).pos());
                &&& final(self).pos() == s.pos
                &&& final(self).errs() == old(self).errs() + s.diags
                &&& match r {
                    Ok(e) => s.node == Some(e@) && wf_expr(e@),
                    Err(()) => s.node is None,
                }
            }),
        decreases old(self).toks().len() - old(self).pos(), 4int,
    {
        let ghost toks = self.toks();
        let ghost i = self.pos();
        let expr = match self.unary() {
            Ok(e) => e,
            Err(()) => {
                return Err(());
            },
        };
        proof {
            assert(past(self.pos(), i, toks.len() as int) == self.pos());
        }
        let r = self.binary_rest(
            expr,
            TokenType::SLASH,
            TokenType::STAR,
            TokenType::SLASH,
            TokenType::STAR,
            0,
        );
        proof {
            let sub = spec_unary(toks, i);
            let rest = spec_binary_rest(
                toks,
                sub.node->0,
                past(sub.pos, i, toks.len() as int),
                TokenType::SLASH,
                TokenType::STAR,
                TokenType::SLASH,
                TokenType::STAR,
                0,
            );
            assert((old(self).errs() + sub.diags) + rest.diags =~= old(self).errs() + (sub.diags
            + rest.diags));
        }
        r
    }

    fn addition(&mut self) -> (r: Result<Expr, ()>)
        requires
            old(self).wf(),
        ensures
            final(self).wf(),
            final(self).toks() == old(self).toks(),
            old(self).pos() <= final(self).pos(),
            r is Ok ==> old(self).pos() < final(self).pos(),
            ({
                let s = spec_addition(old(self).toks(), old(self).pos());
                &&& final(self).pos() == s.pos
                &&& final(self).errs() == old(self).errs() + s.diags
                &&& match r {
                    Ok(e) => s.node == Some(e@) && wf_expr(e@),
                    Err(()) => s.node is None,
                }
            }),
        decreases old(self).toks().len() - old(self).pos(), 5int,
    {
        let ghost toks = self.toks();
        let ghost i = self.pos();
        let expr = match self.multiplication() {
            Ok(e) => e,
            Err(()) => {
                return Err(());
            },
        };
        proof {
            assert(past(self.pos(), i, toks.len() as int) == self.pos());
        }
        let r = self.binary_rest(
            expr,
            TokenType::MINUS,
            TokenType::PLUS,
            TokenType::MINUS,
            TokenType::PLUS,
            1,
        );
        proof {
            let sub = spec_multiplication(toks, i);
            let rest = spec_binary_rest(
                toks,
                sub.node->0,
                past(sub.pos, i, toks.len() as int),
                TokenType::MINUS,
                TokenType::PLUS,
                TokenType::MINUS,
                TokenType::PLUS,
                1,
            );
            assert((old(self).errs() + sub.diags) + rest.diags =~= old(self).errs() + (sub.diags
            + rest.diags));
        }
        r
    }

    fn comparison(&mut self) -> (r: Result<Expr, ()>)
        requires
            old(self).wf(),
        ensures
            final(self).wf(),
            final(self).toks() == old(self).toks(),
            old(self).pos() <= final(self).pos(),
            r is Ok ==> old(self).pos() < final(self).pos(),
            ({
                let s = spec_comparison(old(self).toks(), old(self).pos());
                &&& final(self).pos() == s.pos
                &&& final(self).errs() == old(self).errs() + s.diags
                &&& match r {
                    Ok(e) => s.node == Some(e@) && wf_expr(e@),
                    Err(()) => s.node is None,
                }
            }),
        decreases old(self).toks().len() - old(self).pos(), 6int,
    {
        let ghost toks = self.toks();
        let ghost i = self.pos();
        let expr = match self.addition() {
            Ok(e) => e,
            Err(()) => {
                return Err(());
            },
        };
        proof {
            assert(past(self.pos(), i, toks.len() as int) == self.pos());
        }
        let r = self.binary_rest(
            expr,
            TokenType::GREATER,
            TokenType::GREATER_EQUAL,
            TokenType::LESS,
            TokenType::LESS_EQUAL,
            2,
        );
        proof {
            let sub = spec_addition(toks, i);
            let rest = spec_binary_rest(
                toks,
                sub.node->0,
                past(sub.pos, i, toks.len() as int),
                TokenType::GREATER,
                TokenType::GREATER_EQUAL,
                TokenType::LESS,
                TokenType::LESS_EQUAL,
                2,
            );
            assert((old(self).errs() + sub.diags) + rest.diags =~= old(self).errs() + (sub.diags
            + rest.diags));
        }
        r
    }

    fn equality(&mut self) -> (r: Result<Expr, ()>)
        requires
            old(self).wf(),
        ensures
            final(self).wf(),
            final(self).toks() == old(self).toks(),
            old(self).pos() <= final(self).pos(),
            r is Ok ==> old(self).pos() < final(self).pos(),
            ({
                let s = spec_equality(old(self).toks(), old(self).pos());
                &&& final(self).pos() == s.pos
                &&& final(self).errs() == old(self).errs() + s.diags
                &&& match r {
                    Ok(e) => s.node == Some(e@) && wf_expr(e@),
                    Err(()) => s.node is None,
                }
            }),
        decreases old(self).toks().len() - old(self).pos(), 7int,
    {
        let ghost toks = self.toks();
        let ghost i = self.pos();
        let expr = match self.comparison() {
            Ok(e) => e,
            Err(()) => {
                return Err(());
            },
        };
        proof {
            assert(past(self.pos(), i, toks.len() as int) == self.pos());
        }
        let r = self.binary_rest(
            expr,
            TokenType::BANG_EQUAL,
            TokenType::EQUAL_EQUAL,
            TokenType::BANG_EQUAL,
            TokenType::EQUAL_EQUAL,
            3,
        );
        proof {
            let sub = spec_comparison(toks, i);
            let rest = spec_binary_rest(
                toks,
                sub.node->0,
                past(sub.pos, i, toks.len() as int),
                TokenType::BANG_EQUAL,
                TokenType::EQUAL_EQUAL,
                TokenType::BANG_EQUAL,
                TokenType::EQUAL_EQUAL,
                3,
            );
            assert((old(self).errs() + sub.diags) + rest.diags =~= old(self).errs() + (sub.diags
            + rest.diags));
        }
        r
    }

    /// The `=` suffix after a parsed left side.
    #[verifier::rlimit(100)]
    #[verifier::spinoff_prover]
    fn assign_rest(&mut self, expr: Expr) -> (r: Result<Expr, ()>)
        requires
            old(self).wf(),
            wf_expr(expr@),
        ensures
            final(self).wf(),
            final(self).toks() == old(self).toks(),
            old(self).pos() <= final(self).pos(),
            ({
                let s = spec_assign_rest(old(self).toks(), expr@, old(self).pos());
                &&& final(self).pos() == s.pos
                &&& final(self).errs() == old(self).errs() + s.diags
                &&& match r {
                    Ok(e) => s.node == Some(e@) && wf_expr(e@),
                    Err(()) => s.node is None,
                }
            }),
        decreases old(self).toks().len() - old(self).pos(), 7int,
    {
        let ghost toks = self.toks();
        let ghost i = self.pos();
        let ghost s = spec_assign_rest(toks, expr@, i);
        let ghost eview = expr@;
        if self.matches(TokenType::EQUAL) {
            let equals = self.previous();
            let ghost rhs = spec_assignment(toks, i + 1);
            proof {
                assert(equals@ == tok_at(toks, i));
            }
            let value = match self.assignment() {
                Ok(e) => e,
                Err(()) => {
                    return Err(());
                },
            };
            match expr {
                Expr::Variable(name) => {
                    proof {
                        assert(eview matches SpecExpr::Variable(n) && n == name@);
                        assert(s.node == Some(SpecExpr::Assign(name@, Box::new(rhs.node->0))));
                    }
                    Ok(Expr::Assign(name, Box::new(value)))
                },
                other => {
                    let d = crate::diag::error_token(
                        &equals,
                        String::from_str("Invalid assignment target."),
                    );
                    let ghost before = self.errors.deep_view();
                    self.errors.push(d);
                    proof {
                        let dv = spec_parse_diag(tok_at(toks, i), "Invalid assignment target."@);
                        assert(self.errors.deep_view() =~= before + seq![dv]);
                        assert(s.node == Some(eview) && s.pos == rhs.pos && s.diags == rhs.diags
                            + seq![dv]);
                        assert((old(self).errs() + rhs.diags) + seq![dv] =~= old(self).errs() + (
                        rhs.diags + seq![dv]));
                        assert(other@ == eview);
                    }
                    Ok(other)
                },
            }
        } else {
            proof {
                assert(self.errs() =~= old(self).errs() + Seq::<SpecDiag>::empty());
            }
            Ok(expr)
        }
    }

    #[verifier::rlimit(100)]
    #[verifier::spinoff_prover]
    fn assignment(&mut self) -> (r: Result<Expr, ()>)
        requires
            old(self).wf(),
        ensures
            final(self).wf(),
            final(self).toks() == old(self).toks(),
            old(self).pos() <= final(self).pos(),
            r is Ok ==> old(self).pos() < final(self).pos(),
            ({
                let s = spec_assignment(old(self).toks(), old(self).pos());
                &&& final(self).pos() == s.pos
                &&& final(self).errs() == old(self).errs() + s.diags
                &&& match r {
                    Ok(e) => s.node == Some(e@) && wf_expr(e@),
                    Err(()) => s.node is None,
                }
            }),
        decreases old(self).toks().len() - old(self).pos(), 8int,
    {
        let ghost toks = self.toks();
        let ghost i = self.pos();
        let ghost lhs = spec_equality(toks, i);
        let expr = match self.equality() {
            Ok(e) => e,
            Err(()) => {
                return Err(());
            },
        };
        proof {
            assert(0 <= i < toks.len());
            assert(past(lhs.pos, i, toks.len() as int) == self.pos());
        }
        let ghost rest = spec_assign_rest(toks, expr@, past(lhs.pos, i, toks.len() as int));
        let r = self.assign_rest(expr);
        proof {
            assert((old(self).errs() + lhs.diags) + rest.diags =~= old(self).errs() + (lhs.diags
            + rest.diags));
        }
        r
    }

    fn expression(&mut self) -> (r: Result<Expr, ()>)
        requires
            old(self).wf(),
        ensures
            final(self).wf(),
            final(self).toks() == old(self).toks(),
            old(self).pos() <= final(self).pos(),
            r is Ok ==> old(self).pos() < final(self).pos(),
            ({
                let s = spec_expression(old(self).toks(), old(self).pos());
                &&& final(self).pos() == s.pos
                &&& final(self).errs() == old(self).errs() + s.diags
                &&& match r {
                    Ok(e) => s.node == Some(e@) && wf_expr(e@),
                    Err(()) => s.node is None,
                }
            }),
        decreases old(self).toks().len() - old(self).pos(), 9int,
    {
        self.assignment()
    }
}


/// Whether every declaration from position `i` on parses cleanly.
pub open spec fn spec_parse_ok(toks: Seq<SpecToken>, i: int) -> bool
    decreases toks.len() - i,
{
    if tok_at(toks, i).kind == TokenType::EOF {
        true
    } else {
        let d = spec_declaration(toks, i);
        d.node is Some && spec_parse_ok(toks, past(d.pos, i, toks.len() as int))
    }
}

impl Parser {
    /// The body of a `print` statement; the cursor stands after `print`.
    #[verifier::rlimit(100)]
    #[verifier::spinoff_prover]
    fn print_statement(&mut self) -> (r: Result<Stmt, ()>)
        requires
            old(self).wf(),
        ensures
            final(self).wf(),
            final(self).toks() == old(self).toks(),
            old(self).pos() <= final(self).pos(),
            ({
                let s = spec_print_statement(old(self).toks(), old(self).pos());
                &&& final(self).pos() == s.pos
                &&& final(self).errs() == old(self).errs() + s.diags
                &&& match r {
                    Ok(st) => s.node == Some(st@) && wf_stmt(st@),
                    Err(()) => s.node is None,
                }
            }),
    {
        let ghost toks = self.toks();
        let ghost i = self.pos();
        let ghost v = spec_expression(toks, i);
        let value = match self.expression() {
            Ok(e) => e,
            Err(()) => {
                return Err(());
            },
        };
        proof {
            assert(past(v.pos, i - 1, toks.len() as int) == self.pos());
        }
        let ghost c = spec_consume(
            toks,
            past(v.pos, i - 1, toks.len() as int),
            TokenType::SEMICOLON,
            "Expect ';' after value."@,
        );
        let r = self.consume(TokenType::SEMICOLON, "Expect ';' after value.");
        proof {
            assert((old(self).errs() + v.diags) + c.2 =~= old(self).errs() + (v.diags + c.2));
        }
        match r {
            Ok(_) => Ok(Stmt::Print(value)),
            Err(()) => Err(()),
        }
    }

    /// The body of an expression statement.
    #[verifier::rlimit(100)]
    #[verifier::spinoff_prover]
    fn expression_statement(&mut self) -> (r: Result<Stmt, ()>)
        requires
            old(self).wf(),
        ensures
            final(self).wf(),
            final(self).toks() == old(self).toks(),
            old(self).pos() <= final(self).pos(),
            ({
                let s = spec_expression_statement(old(self).toks(), old(self).pos());
                &&& final(self).pos() == s.pos
                &&& final(self).errs() == old(self).errs() + s.diags
                &&& match r {
                    Ok(st) => s.node == Some(st@) && wf_stmt(st@),
                    Err(()) => s.node is None,
                }
            }),
    {
        let ghost toks = self.toks();
        let ghost i = self.pos();
        let ghost v = spec_expression(toks, i);
        let value = match self.expression() {
            Ok(e) => e,
            Err(()) => {
                return Err(());
            },
        };
        proof {
            assert(past(v.pos, i - 1, toks.len() as int) == self.pos());
        }
        let ghost c = spec_consume(
            toks,
            past(v.pos, i - 1, toks.len() as int),
            TokenType::SEMICOLON,
            "Expect ';' after expression."@,
        );
        let r = self.consume(TokenType::SEMICOLON, "Expect ';' after expression.");
        proof {
            assert((old(self).errs() + v.diags) + c.2 =~= old(self).errs() + (v.diags + c.2));
        }
        match r {
            Ok(_) => Ok(Stmt::Expression(value)),
            Err(()) => Err(()),
        }
    }

    /// `statement`: a print statement or an expression statement.
    fn statement(&mut self) -> (r: Result<Stmt, ()>)
        requires
            old(self).wf(),
        ensures
            final(self).wf(),
            final(self).toks() == old(self).toks(),
            old(self).pos() <= final(self).pos(),
            ({
                let s = spec_statement(old(self).toks(), old(self).pos());
                &&& final(self).pos() == s.pos
                &&& final(self).errs() == old(self).errs() + s.diags
                &&& match r {
                    Ok(st) => s.node == Some(st@) && wf_stmt(st@),
                    Err(()) => s.node is None,
                }
            }),
    {
        if self.matches(TokenType::PRINT) {
            self.print_statement()
        } else {
            self.expression_statement()
        }
    }

    /// The body of a `var` declaration; the cursor stands after `var`.
    #[verifier::rlimit(100)]
    #[verifier::spinoff_prover]
    fn var_declaration(&mut self) -> (r: Result<Stmt, ()>)
        requires
            old(self).wf(),
        ensures
            final(self).wf(),
            final(self).toks() == old(self).toks(),
            old(self).pos() <= final(self).pos(),
            ({
                let s = spec_var_declaration(old(self).toks(), old(self).pos());
                &&& final(self).pos() == s.pos
                &&& final(self).errs() == old(self).errs() + s.diags
                &&& match r {
                    Ok(st) => s.node == Some(st@) && wf_stmt(st@),
                    Err(()) => s.node is None,
                }
            }),
    {
        let ghost toks = self.toks();
        let ghost i = self.pos();
        let name = match self.consume(TokenType::IDENTIFIER, "Expect variable name.") {
            Ok(t) => t,
            Err(()) => {
                return Err(());
            },
        };
        if self.matches(TokenType::EQUAL) {
            let ghost init = spec_expression(toks, i + 2);
            let value = match self.expression() {
                Ok(e) => e,
                Err(()) => {
                    return Err(());
                },
            };
            proof {
                assert(past(init.pos, i, toks.len() as int) == self.pos());
            }
            let ghost c2 = spec_consume(
                toks,
                past(init.pos, i, toks.len() as int),
                TokenType::SEMICOLON,
                "Expect ';' after variable declaration."@,
            );
            let r = self.consume(TokenType::SEMICOLON, "Expect ';' after variable declaration.");
            proof {
                assert((old(self).errs() + init.diags) + c2.2 =~= old(self).errs() + (init.diags
                + c2.2));
            }
            match r {
                Ok(_) => Ok(Stmt::Var(name, Some(value))),
                Err(()) => Err(()),
            }
        } else {
            let r = self.consume(TokenType::SEMICOLON, "Expect ';' after variable declaration.");
            match r {
                Ok(_) => Ok(Stmt::Var(name, None)),
                Err(()) => Err(()),
            }
        }
    }

    /// The inner walk of panic-mode recovery.
    fn sync_loop(&mut self)
        requires
            old(self).wf(),
            old(self).pos() >= 1,
        ensures
            final(self).wf(),
            final(self).toks() == old(self).toks(),
            final(self).errs() == old(self).errs(),
            old(self).pos() <= final(self).pos(),
            final(self).pos() == spec_sync_loop(old(self).toks(), old(self).pos()),
        decreases old(self).toks().len() - old(self).pos(),
    {
        if self.is_at_end() {
            return ;
        }
        if self.previous().kind == TokenType::SEMICOLON {
            return ;
        }
        let k = self.peek().kind;
        match k {
            TokenType::CLASS | TokenType::FUN | TokenType::VAR | TokenType::FOR | TokenType::IF
                | TokenType::WHILE | TokenType::PRINT | TokenType::RETURN => {
                return ;
            },
            _ => {},
        }
        let _ = self.advance();
        self.sync_loop()
    }

    /// Panic-mode recovery: discard tokens until just after a semicolon or
    /// just before a token that can begin a declaration or statement.
    fn synchronize(&mut self)
        requires
            old(self).wf(),
            old(self).pos() >= 1 || tok_at(old(self).toks(), old(self).pos()).kind
                != TokenType::EOF,
        ensures
            final(self).wf(),
            final(self).toks() == old(self).toks(),
            final(self).errs() == old(self).errs(),
            old(self).pos() <= final(self).pos(),
            tok_at(old(self).toks(), old(self).pos()).kind != TokenType::EOF ==> old(self).pos()
                < final(self).pos(),
            final(self).pos() == spec_synchronize(old(self).toks(), old(self).pos()),
    {
        let _ = self.advance();
        self.sync_loop()
    }

    /// `declaration`: a variable declaration or a statement; on failure the
    /// parser resynchronizes and the broken statement is dropped.
    #[verifier::rlimit(100)]
    #[verifier::spinoff_prover]
    fn declaration(&mut self) -> (r: Result<Stmt, ()>)
        requires
            old(self).wf(),
            tok_at(old(self).toks(), old(self).pos()).kind != TokenType::EOF,
        ensures
            final(self).wf(),
            final(self).toks() == old(self).toks(),
            old(self).pos() < final(self).pos(),
            ({
                let s = spec_declaration(old(self).toks(), old(self).pos());
                &&& final(self).pos() == s.pos
                &&& final(self).errs() == old(self).errs() + s.diags
                &&& match r {
                    Ok(st) => s.node == Some(st@) && wf_stmt(st@),
                    Err(()) => s.node is None,
                }
            }),
    {
        let ghost toks = self.toks();
        let ghost i = self.pos();
        let res = if self.matches(TokenType::VAR) {
            self.var_declaration()
        } else {
            self.statement()
        };
        let r = match res {
            Ok(s) => Ok(s),
            Err(()) => {
                self.synchronize();
                Err(())
            },
        };
        proof {
            reveal(spec_declaration);
            let s = spec_declaration(toks, i);
            assert(self.pos() == s.pos);
            assert(self.errs() == old(self).errs() + s.diags);
            assert(match r {
                Ok(st) => s.node == Some(st@) && wf_stmt(st@),
                Err(()) => s.node is None,
            });
        }
        r
    }

    /// Parse the whole input: every declaration in turn, resynchronizing
    /// after each broken one, so diagnostics keep accumulating for the rest
    /// of the input. The parse succeeds only when every declaration did;
    /// the diagnostics are kept either way.
    #[verifier::rlimit(100)]
    #[verifier::spinoff_prover]
    pub fn parse(&mut self) -> (r: Result<Vec<Stmt>, ()>)
        requires
            old(self).wf(),
        ensures
            final(self).wf(),
            final(self).toks() == old(self).toks(),
            ({
                let s = spec_parse_loop(old(self).toks(), old(self).pos());
                &&& final(self).errs() == old(self).errs() + s.1
                &&& match r {
                    Ok(v) => {
                        &&& spec_parse_ok(old(self).toks(), old(self).pos())
                        &&& v.deep_view() == s.0
                        &&& forall|k: int|
                            0 <= k < v.deep_view().len() ==> wf_stmt(#[trigger] v.deep_view()[k])
                    },
                    Err(()) => !spec_parse_ok(old(self).toks(), old(self).pos()),
                }
            }),
    {
        let ghost toks = self.toks();
        let ghost pos0 = self.pos();
        let ghost goal = spec_parse_loop(toks, pos0);
        let mut statements: Vec<Stmt> = Vec::new();
        let mut failed = false;
        proof {
            assert(statements.deep_view() =~= Seq::<SpecStmt>::empty());
            assert(Seq::<SpecStmt>::empty() + goal.0 =~= goal.0);
            assert(Seq::<SpecDiag>::empty() + goal.1 =~= goal.1);
        }
        while !self.is_at_end()
            invariant
                self.wf(),
                self.toks() == toks,
                pos0 <= self.pos(),
                goal == spec_parse_loop(toks, pos0),
                goal.0 == statements.deep_view() + spec_parse_loop(toks, self.pos()).0,
                self.errs().len() >= old(self).errs().len(),
                self.errs().take(old(self).errs().len() as int) == old(self).errs(),
                goal.1 == self.errs().skip(old(self).errs().len() as int) + spec_parse_loop(
                    toks,
                    self.pos(),
                ).1,
                spec_parse_ok(toks, pos0) == (!failed && spec_parse_ok(toks, self.pos())),
                forall|k: int|
                    0 <= k < statements.deep_view().len() ==> wf_stmt(
                        #[trigger] statements.deep_view()[k],
                    ),
            decreases self.toks().len() - self.pos(),
        {
            let ghost cur = self.pos();
            let ghost d = spec_declaration(toks, cur);
            let ghost errs_b = self.errs();
            let ghost stmts_b = statements.deep_view();
            let res = self.declaration();
            proof {
                assert(past(d.pos, cur, toks.len() as int) == self.pos());
            }
            match res {
                Ok(s) => {
                    let ghost sv = s@;
                    statements.push(s);
                    proof {
                        assert(statements.deep_view() =~= stmts_b.push(sv));
                        assert(stmts_b + (seq![sv] + spec_parse_loop(toks, self.pos()).0)
                            =~= stmts_b.push(sv) + spec_parse_loop(toks, self.pos()).0);
                    }
                },
                Err(()) => {
                    failed = true;
                },
            }
            proof {
                assert(errs_b.skip(old(self).errs().len() as int) + d.diags =~= self.errs().skip(
                    old(self).errs().len() as int,
                ));
                assert((errs_b.skip(old(self).errs().len() as int) + d.diags) + spec_parse_loop(
                    toks,
                    self.pos(),
                ).1 =~= errs_b.skip(old(self).errs().len() as int) + (d.diags + spec_parse_loop(
                    toks,
                    self.pos(),
                ).1));
                assert(self.errs().take(old(self).errs().len() as int) =~= old(self).errs());
            }
        }
        proof {
            assert(spec_parse_loop(toks, self.pos()).0 =~= Seq::<SpecStmt>::empty());
            assert(spec_parse_loop(toks, self.pos()).1 =~= Seq::<SpecDiag>::empty());
            assert(statements.deep_view() + Seq::<SpecStmt>::empty() =~= statements.deep_view());
            assert(self.errs().skip(old(self).errs().len() as int) + Seq::<SpecDiag>::empty()
                =~= self.errs().skip(old(self).errs().len() as int));
            assert(old(self).errs() + self.errs().skip(old(self).errs().len() as int)
                =~= self.errs());
        }
        if failed {
            Err(())
        } else {
            Ok(statements)
        }
    }

    /// The syntax diagnostics gathered by the parse.
    pub fn diagnostics(&self) -> (r: &Vec<Diag>)
        ensures
            r.deep_view() == self.errs(),
    {
        &self.errors
    }
}

} // verus!
