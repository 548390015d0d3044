//! A compact textual rendering of expression trees, operators first.

use vstd::prelude::*;

use crate::expr::Expr;
use crate::expr::SpecExpr;
use crate::literal::SpecValue;
use crate::numeric::num_chars;
use crate::text::chars_to_string;

verus! {

/// An expression with no assignment node anywhere inside it; the printer
/// renders exactly these.
pub open spec fn no_assign(e: SpecExpr) -> bool
    decreases e,
{
    match e {
        SpecExpr::Assign(_, _) => false,
        SpecExpr::Binary(l, _, r) => no_assign(*l) && no_assign(*r),
        SpecExpr::Grouping(inner) => no_assign(*inner),
        SpecExpr::Literal(_) => true,
        SpecExpr::Unary(_, r) => no_assign(*r),
        SpecExpr::Variable(_) => true,
    }
}

/// The rendering: literals as their values (`nil` for nil), variables as
/// their names, and each compound node parenthesized with its operator (or
/// `group`) first and its children after, space-separated.
pub open spec fn spec_print_expr(e: SpecExpr) -> Seq<char>
    decreases e,
{
    match e {
        SpecExpr::Literal(v) => match v {
            SpecValue::Nil => "nil"@,
            SpecValue::Bool(b) => if b {
                "true"@
            } else {
                "false"@
            },
            SpecValue::Number(n) => num_chars(n),
            SpecValue::Str(s) => s,
        },
        SpecExpr::Grouping(inner) => "(group "@ + spec_print_expr(*inner) + ")"@,
        SpecExpr::Unary(op, r) => "("@ + op.lexeme + " "@ + spec_print_expr(*r) + ")"@,
        SpecExpr::Binary(l, op, r) => "("@ + op.lexeme + " "@ + spec_print_expr(*l) + " "@
            + spec_print_expr(*r) + ")"@,
        SpecExpr::Variable(t) => t.lexeme,
        SpecExpr::Assign(_, _) => Seq::empty(),
    }
}

/// Renders an expression tree as text.
pub struct AstPrinter {}

fn print_rec(e: &Expr) -> (r: String)
    requires
        no_assign(e@),
    ensures
        r@ == spec_print_expr(e@),
    decreases *e,
{
    match e {
        Expr::Literal(v) => {
            match v {
                crate::literal::Value::Nil => String::from_str("nil"),
                crate::literal::Value::Bool(b) => {
                    if *b {
                        String::from_str("true")
                    } else {
                        String::from_str("false")
                    }
                },
                crate::literal::Value::Number(n) => n.to_display_string(),
                crate::literal::Value::Str(s) => s.clone(),
            }
        },
        Expr::Grouping(inner) => {
            let mut s = String::from_str("(group ");
            let body = print_rec(&**inner);
            s.append(body.as_str());
            s.append(")");
            s
        },
        Expr::Unary(op, r) => {
            let mut s = String::from_str("(");
            s.append(op.lexeme.as_str());
            s.append(" ");
            let body = print_rec(&**r);
            s.append(body.as_str());
            s.append(")");
            s
        },
        Expr::Binary(l, op, r) => {
            let mut s = String::from_str("(");
            s.append(op.lexeme.as_str());
            s.append(" ");
            let left = print_rec(&**l);
            s.append(left.as_str());
            s.append(" ");
            let right = print_rec(&**r);
            s.append(right.as_str());
            s.append(")");
            s
        },
        Expr::Variable(t) => t.lexeme.clone(),
        Expr::Assign(_, _) => unreached(),
    }
}

impl AstPrinter {
    /// Render one expression tree.
    pub fn print(&mut self, expr: Expr) -> (r: String)
        requires
            no_assign(expr@),
        ensures
            r@ == spec_print_expr(expr@),
    {
        print_rec(&expr)
    }
}

} // verus!
