//! The tree-walking evaluator: statements run left to right against one
//! global environment, stopping at the first runtime error.

use vstd::prelude::*;

use crate::environment::spec_assign;
use crate::environment::spec_lookup;
use crate::environment::spec_undefined_message;
use crate::environment::Environment;
use crate::expr::wf_expr;
use crate::expr::Expr;
use crate::expr::SpecExpr;
use crate::literal::spec_stringify;
use crate::literal::SpecValue;
use crate::literal::Value;
use crate::numeric::num_add;
use crate::numeric::num_div;
use crate::numeric::num_mul;
use crate::numeric::num_neg;
use crate::numeric::num_sub;
use crate::stmt::wf_stmt;
use crate::stmt::SpecStmt;
use crate::stmt::Stmt;
use crate::token::SpecToken;
use crate::token::Token;
use crate::token_type::TokenType;

verus! {

/// A chain of scope frames, innermost first.
pub type SpecEnv = Seq<Map<Seq<char>, SpecValue>>;

/// Truthiness: nil and false are falsy; every other value is truthy.
pub open spec fn spec_truthy(v: SpecValue) -> bool {
    match v {
        SpecValue::Nil => false,
        SpecValue::Bool(b) => b,
        _ => true,
    }
}

/// Equality between runtime values: nil equals only nil, values of one type
/// compare by content, and values of different types are never equal.
pub open spec fn spec_is_equal(a: SpecValue, b: SpecValue) -> bool {
    if a is Nil && b is Nil {
        true
    } else if a is Nil {
        false
    } else {
        match (a, b) {
            (SpecValue::Str(x), SpecValue::Str(y)) => x == y,
            (SpecValue::Number(x), SpecValue::Number(y)) => x == y,
            (SpecValue::Bool(x), SpecValue::Bool(y)) => x == y,
            _ => false,
        }
    }
}

/// What one binary operator yields on two operand values, or the message of
/// the type error it raises. Operator kinds the parser never produces yield
/// an empty message.
pub open spec fn spec_binary_op(kind: TokenType, a: SpecValue, b: SpecValue) -> Result<
    SpecValue,
    Seq<char>,
> {
    if kind == TokenType::BANG_EQUAL {
        Ok(SpecValue::Bool(!spec_is_equal(a, b)))
    } else if kind == TokenType::EQUAL_EQUAL {
        Ok(SpecValue::Bool(spec_is_equal(a, b)))
    } else if kind == TokenType::PLUS {
        match (a, b) {
            (SpecValue::Number(x), SpecValue::Number(y)) => Ok(SpecValue::Number(num_add(x, y))),
            (SpecValue::Str(x), SpecValue::Str(y)) => Ok(SpecValue::Str(x + y)),
            _ => Err("Operands must be two numbers or two strings."@),
        }
    } else {
        match (a, b) {
            (SpecValue::Number(x), SpecValue::Number(y)) => {
                if kind == TokenType::GREATER {
                    Ok(SpecValue::Bool(x > y))
                } else if kind == TokenType::GREATER_EQUAL {
                    Ok(SpecValue::Bool(x >= y))
                } else if kind == TokenType::LESS {
                    Ok(SpecValue::Bool(x < y))
                } else if kind == TokenType::LESS_EQUAL {
                    Ok(SpecValue::Bool(x <= y))
                } else if kind == TokenType::MINUS {
                    Ok(SpecValue::Number(num_sub(x, y)))
                } else if kind == TokenType::SLASH {
                    Ok(SpecValue::Number(num_div(x, y)))
                } else if kind == TokenType::STAR {
                    Ok(SpecValue::Number(num_mul(x, y)))
                } else {
                    Err(Seq::empty())
                }
            },
            _ => Err("Operand must be a number."@),
        }
    }
}

/// Defining a name writes the innermost frame, whatever outer frames say.
pub open spec fn spec_define(env: SpecEnv, name: Seq<char>, v: SpecValue) -> SpecEnv {
    env.update(0, env[0].insert(name, v))
}

/// What evaluating an expression yields: a value and the environment after,
/// or a runtime error (the environment as mutated so far, the offending
/// token, and the message).
pub open spec fn spec_eval(env: SpecEnv, e: SpecExpr) -> Result<
    (SpecValue, SpecEnv),
    (SpecEnv, SpecToken, Seq<char>),
>
    decreases e,
{
    match e {
        SpecExpr::Literal(v) => Ok((v, env)),
        SpecExpr::Grouping(inner) => spec_eval(env, *inner),
        SpecExpr::Variable(name) => match spec_lookup(env, name.lexeme) {
            Some(v) => Ok((v, env)),
            None => Err((env, name, spec_undefined_message(name.lexeme))),
        },
        SpecExpr::Assign(name, rhs) => match spec_eval(env, *rhs) {
            Ok((v, env1)) => match spec_assign(env1, name.lexeme, v) {
                Some(env2) => Ok((v, env2)),
                None => Err((env1, name, spec_undefined_message(name.lexeme))),
            },
            Err(err) => Err(err),
        },
        SpecExpr::Unary(op, rhs) => match spec_eval(env, *rhs) {
            Ok((v, env1)) => if op.kind == TokenType::MINUS {
                match v {
                    SpecValue::Number(n) => Ok((SpecValue::Number(num_neg(n)), env1)),
                    _ => Err((env1, op, "Operand must be a number."@)),
                }
            } else {
                Ok((SpecValue::Bool(!spec_truthy(v)), env1))
            },
            Err(err) => Err(err),
        },
        SpecExpr::Binary(lhs, op, rhs) => match spec_eval(env, *lhs) {
            Ok((lv, env1)) => match spec_eval(env1, *rhs) {
                Ok((rv, env2)) => match spec_binary_op(op.kind, lv, rv) {
                    Ok(v) => Ok((v, env2)),
                    Err(msg) => Err((env2, op, msg)),
                },
                Err(err) => Err(err),
            },
            Err(err) => Err(err),
        },
    }
}

/// What executing one statement yields: the environment after and the lines
/// it printed, or a runtime error.
pub open spec fn spec_exec_stmt(env: SpecEnv, s: SpecStmt) -> Result<
    (SpecEnv, Seq<Seq<char>>),
    (SpecEnv, SpecToken, Seq<char>),
> {
    match s {
        SpecStmt::Expression(e) => match spec_eval(env, e) {
            Ok((_, env1)) => Ok((env1, Seq::empty())),
            Err(err) => Err(err),
        },
        SpecStmt::Print(e) => match spec_eval(env, e) {
            Ok((v, env1)) => Ok((env1, seq![spec_stringify(v)])),
            Err(err) => Err(err),
        },
        SpecStmt::Var(name, init) => match init {
            Some(e) => match spec_eval(env, e) {
                Ok((v, env1)) => Ok((spec_define(env1, name.lexeme, v), Seq::empty())),
                Err(err) => Err(err),
            },
            None => Ok((spec_define(env, name.lexeme, SpecValue::Nil), Seq::empty())),
        },
    }
}

/// What running a statement sequence yields: the final environment, every
/// line printed, and the runtime error that stopped the run, if one did.
/// Statements after the first runtime error never run.
pub open spec fn spec_interpret(env: SpecEnv, stmts: Seq<SpecStmt>) -> (
    SpecEnv,
    Seq<Seq<char>>,
    Option<(SpecToken, Seq<char>)>,
)
    decreases stmts.len(),
{
    if stmts.len() == 0 {
        (env, Seq::empty(), None)
    } else {
        match spec_exec_stmt(env, stmts[0]) {
            Err((env1, t, m)) => (env1, Seq::empty(), Some((t, m))),
            Ok((env1, out1)) => {
                let (env2, out2, err) = spec_interpret(env1, stmts.drop_first());
                (env2, out1 + out2, err)
            },
        }
    }
}

/// Truthiness of a value.
pub fn is_truthy(value: &Value) -> (r: bool)
    ensures
        r == spec_truthy(value@),
{
    match value {
        Value::Nil => false,
        Value::Bool(b) => *b,
        _ => true,
    }
}

/// Equality between two runtime values.
pub fn is_equal(v: Value, w: Value) -> (r: bool)
    ensures
        r == spec_is_equal(v@, w@),
{
    if v.is_nil() && w.is_nil() {
        true
    } else if v.is_nil() {
        false
    } else {
        match (&v, &w) {
            (Value::Str(a), Value::Str(b)) => a.eq(b),
            (Value::Number(a), Value::Number(b)) => a.eq_val(*b),
            (Value::Bool(a), Value::Bool(b)) => a == b,
            _ => false,
        }
    }
}

/// Demand a numeric operand for a unary operator.
pub fn check_number_operand(operator: &Token, operand: &Value) -> (r: Result<(), (Token, String)>)
    ensures
        match r {
            Ok(()) => operand@ is Number,
            Err(e) => {
                &&& !(operand@ is Number)
                &&& e.0@ == operator@
                &&& e.1@ == "Operand must be a number."@
            },
        },
{
    if operand.is_number() {
        Ok(())
    } else {
        Err((operator.clone(), String::from_str("Operand must be a number.")))
    }
}

/// Demand numeric operands for a binary operator. The message text is the
/// same one the unary check uses.
pub fn check_number_operands(operator: &Token, v: &Value, w: &Value) -> (r: Result<
    (),
    (Token, String),
>)
    ensures
        match r {
            Ok(()) => v@ is Number && w@ is Number,
            Err(e) => {
                &&& !(v@ is Number && w@ is Number)
                &&& e.0@ == operator@
                &&& e.1@ == "Operand must be a number."@
            },
        },
{
    if v.is_number() && w.is_number() {
        Ok(())
    } else {
        Err((operator.clone(), String::from_str("Operand must be a number.")))
    }
}

/// The evaluator and the one global environment it owns. A fresh
/// interpreter starts from a single empty scope, so nothing carries over
/// between independently constructed interpreters.
pub struct Interpreter {
    environment: Environment,
}

impl View for Interpreter {
    type V = SpecEnv;

    closed spec fn view(&self) -> SpecEnv {
        self.environment@
    }
}

impl Interpreter {
    pub fn new() -> (r: Self)
        ensures
            r@ == seq![Map::<Seq<char>, SpecValue>::empty()],
    {
        Interpreter { environment: Environment::new(None) }
    }

    /// Evaluate one expression, threading the environment through.
    fn evaluate(&mut self, expr: &Expr) -> (r: Result<Value, (Token, String)>)
        requires
            wf_expr(expr@),
        ensures
            match spec_eval(old(self)@, expr@) {
                Ok((v, env2)) => {
                    &&& r matches Ok(rv) && rv@ == v
                    &&& final (self)@ == env2
                },
                Err((env2, t, m)) => {
                    &&& r matches Err(e) && e.0@ == t && e.1@ == m
                    &&& final (self)@ == env2
                },
            },
        decreases *expr,
    {
        match expr {
            Expr::Literal(v) => Ok(v.clone()),
            Expr::Grouping(inner) => self.evaluate(&**inner),
            Expr::Variable(name) => self.environment.get(name),
            Expr::Assign(name, rhs) => {
                let value = match self.evaluate(&**rhs) {
                    Ok(v) => v,
                    Err(e) => {
                        return Err(e);
                    },
                };
                match self.environment.assign(name, &value) {
                    Ok(()) => Ok(value),
                    Err(e) => Err(e),
                }
            },
            Expr::Unary(op, rhs) => {
                let right = match self.evaluate(&**rhs) {
                    Ok(v) => v,
                    Err(e) => {
                        return Err(e);
                    },
                };
                match op.kind {
                    TokenType::MINUS => {
                        match check_number_operand(op, &right) {
                            Ok(()) => Ok(Value::Number(right.unwrap_number().negate())),
                            Err(e) => Err(e),
                        }
                    },
                    TokenType::BANG => Ok(Value::Bool(!is_truthy(&right))),
                    _ => unreached(),
                }
            },
            Expr::Binary(lhs, op, rhs) => {
                let left = match self.evaluate(&**lhs) {
                    Ok(v) => v,
                    Err(e) => {
                        return Err(e);
                    },
                };
                let right = match self.evaluate(&**rhs) {
                    Ok(v) => v,
                    Err(e) => {
                        return Err(e);
                    },
                };
                match op.kind {
                    TokenType::GREATER => {
                        match check_number_operands(op, &left, &right) {
                            Ok(()) => Ok(
                                Value::Bool(left.unwrap_number().gt(right.unwrap_number())),
                            ),
                            Err(e) => Err(e),
                        }
                    },
                    TokenType::GREATER_EQUAL => {
                        match check_number_operands(op, &left, &right) {
                            Ok(()) => Ok(
                                Value::Bool(left.unwrap_number().ge(right.unwrap_number())),
                            ),
                            Err(e) => Err(e),
                        }
                    },
                    TokenType::LESS => {
                        match check_number_operands(op, &left, &right) {
                            Ok(()) => Ok(
                                Value::Bool(left.unwrap_number().lt(right.unwrap_number())),
                            ),
                            Err(e) => Err(e),
                        }
                    },
                    TokenType::LESS_EQUAL => {
                        match check_number_operands(op, &left, &right) {
                            Ok(()) => Ok(
                                Value::Bool(left.unwrap_number().le(right.unwrap_number())),
                            ),
                            Err(e) => Err(e),
                        }
                    },
                    TokenType::BANG_EQUAL => Ok(Value::Bool(!is_equal(left, right))),
                    TokenType::EQUAL_EQUAL => Ok(Value::Bool(is_equal(left, right))),
                    TokenType::MINUS => {
                        match check_number_operands(op, &left, &right) {
                            Ok(()) => Ok(
                                Value::Number(left.unwrap_number().sub(right.unwrap_number())),
                            ),
                            Err(e) => Err(e),
                        }
                    },
                    TokenType::SLASH => {
                        match check_number_operands(op, &left, &right) {
                            Ok(()) => Ok(
                                Value::Number(left.unwrap_number().div(right.unwrap_number())),
                            ),
                            Err(e) => Err(e),
                        }
                    },
                    TokenType::STAR => {
                        match check_number_operands(op, &left, &right) {
                            Ok(()) => Ok(
                                Value::Number(left.unwrap_number().mul(right.unwrap_number())),
                            ),
                            Err(e) => Err(e),
                        }
                    },
                    TokenType::PLUS => {
                        if left.is_number() && right.is_number() {
                            Ok(Value::Number(left.unwrap_number().add(right.unwrap_number())))
                        } else if left.is_string() && right.is_string() {
                            let mut s = String::from_str(left.unwrap_string());
                            s.append(right.unwrap_string());
                            Ok(Value::Str(s))
                        } else {
                            Err(
                                (
                                    op.clone(),
                                    String::from_str("Operands must be two numbers or two strings."),
                                ),
                            )
                        }
                    },
                    _ => unreached(),
                }
            },
        }
    }

    /// Execute one statement, appending what it prints to `out`.
    fn execute(&mut self, stmt: &Stmt, out: &mut Vec<String>) -> (r: Result<(), (Token, String)>)
        requires
            wf_stmt(stmt@),
        ensures
            match spec_exec_stmt(old(self)@, stmt@) {
                Ok((env2, lines)) => {
                    &&& r is Ok
                    &&& final (self)@ == env2
                    &&& final (out).deep_view() == old(out).deep_view() + lines
                },
                Err((env2, t, m)) => {
                    &&& r matches Err(e) && e.0@ == t && e.1@ == m
                    &&& final (self)@ == env2
                    &&& final (out).deep_view() == old(out).deep_view()
                },
            },
    {
        match stmt {
            Stmt::Expression(e) => {
                match self.evaluate(e) {
                    Ok(_) => {
                        proof {
                            assert(out.deep_view() =~= old(out).deep_view() + Seq::<
                                Seq<char>,
                            >::empty());
                        }
                        Ok(())
                    },
                    Err(err) => Err(err),
                }
            },
            Stmt::Print(e) => {
                match self.evaluate(e) {
                    Ok(v) => {
                        let line = v.stringify();
                        let ghost before = out.deep_view();
                        out.push(line);
                        proof {
                            assert(out.deep_view() =~= before + seq![spec_stringify(v@)]);
                        }
                        Ok(())
                    },
                    Err(err) => Err(err),
                }
            },
            Stmt::Var(name, init) => {
                let value = match init {
                    Some(e) => {
                        match self.evaluate(e) {
                            Ok(v) => v,
                            Err(err) => {
                                return Err(err);
                            },
                        }
                    },
                    None => Value::Nil,
                };
                self.environment.define(&name.lexeme, value);
                proof {
                    assert(out.deep_view() =~= old(out).deep_view() + Seq::<Seq<char>>::empty());
                }
                Ok(())
            },
        }
    }

    /// Run a statement sequence against the global environment, collecting
    /// each printed line; the first runtime error stops the run and is
    /// returned beside the lines printed before it.
    pub fn interpret(&mut self, statements: &Vec<Stmt>) -> (r: (
        Vec<String>,
        Option<(Token, String)>,
    ))
        requires
            forall|i: int|
                0 <= i < statements.deep_view().len() ==> wf_stmt(
                    #[trigger] statements.deep_view()[i],
                ),
        ensures
            ({
                let (env2, outs, err) = spec_interpret(old(self)@, statements.deep_view());
                &&& r.0.deep_view() == outs
                &&& final (self)@ == env2
                &&& match (r.1, err) {
                    (None, None) => true,
                    (Some(e), Some(se)) => e.0@ == se.0 && e.1@ == se.1,
                    _ => false,
                }
            }),
    {
        let ghost env0 = self@;
        let ghost views = statements.deep_view();
        let ghost full = spec_interpret(env0, views);
        let mut out: Vec<String> = Vec::new();
        let mut error: Option<(Token, String)> = None;
        let mut i: usize = 0;
        proof {
            assert(views.skip(0) =~= views);
            assert(out.deep_view() + spec_interpret(self@, views).1 =~= spec_interpret(
                self@,
                views,
            ).1);
        }
        while i < statements.len() && error.is_none()
            invariant
                i <= statements.len(),
                views == statements.deep_view(),
                statements.deep_view().len() == statements.len(),
                forall|k: int| 0 <= k < views.len() ==> wf_stmt(#[trigger] views[k]),
                full == spec_interpret(env0, views),
                match error {
                    None => {
                        let rest = spec_interpret(self@, views.skip(i as int));
                        full == (rest.0, out.deep_view() + rest.1, rest.2)
                    },
                    Some(e) => {
                        &&& full.0 == self@
                        &&& full.1 == out.deep_view()
                        &&& full.2 matches Some(se) && e.0@ == se.0 && e.1@ == se.1
                    },
                },
            decreases statements.len() - i, (if error is None {
                1int
            } else {
                0int
            }),
        {
            let ghost env_before = self@;
            let ghost rest_before = spec_interpret(env_before, views.skip(i as int));
            proof {
                assert(views.skip(i as int)[0] == views[i as int]);
                assert(views.skip(i as int).drop_first() =~= views.skip(i + 1));
            }
            match self.execute(&statements[i], &mut out) {
                Ok(()) => {
                    i = i + 1;
                },
                Err(e) => {
                    proof {
                        assert(out.deep_view() + Seq::<Seq<char>>::empty() =~= out.deep_view());
                    }
                    error = Some(e);
                },
            }
        }
        proof {
            if error is None {
                assert(views.skip(i as int) =~= Seq::<SpecStmt>::empty());
                assert(out.deep_view() + Seq::<Seq<char>>::empty() =~= out.deep_view());
            }
        }
        (out, error)
    }
}

impl Default for Interpreter {
    /// A fresh interpreter over an empty global scope.
    fn default() -> (r: Self)
        ensures
            r@ == seq![Map::<Seq<char>, SpecValue>::empty()],
    {
        Interpreter::new()
    }
}

} // verus!
