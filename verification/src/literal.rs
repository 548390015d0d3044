//! Runtime values: the closed union a program can compute.

use vstd::prelude::*;

use crate::numeric::num_chars;
use crate::numeric::Num;

verus! {

/// A runtime value: nothing, a truth value, a number, or a string. No other
/// runtime type exists.
#[derive(Debug)]
pub enum Value {
    Nil,
    Bool(bool),
    Number(Num),
    Str(String),
}

/// The mathematical shape of a runtime value: numbers as their scaled
/// values, strings as their character sequences.
pub enum SpecValue {
    Nil,
    Bool(bool),
    Number(int),
    Str(Seq<char>),
}

impl View for Value {
    type V = SpecValue;

    open spec fn view(&self) -> SpecValue {
        match self {
            Value::Nil => SpecValue::Nil,
            Value::Bool(b) => SpecValue::Bool(*b),
            Value::Number(n) => SpecValue::Number(n@),
            Value::Str(s) => SpecValue::Str(s@),
        }
    }
}

impl Clone for Value {
    fn clone(&self) -> (r: Self)
        ensures
            r@ == self@,
    {
        match self {
            Value::Nil => Value::Nil,
            Value::Bool(b) => Value::Bool(*b),
            Value::Number(n) => Value::Number(*n),
            Value::Str(s) => Value::Str(s.clone()),
        }
    }
}

/// The text a value prints as: nothing for nil, `true`/`false` for truth
/// values, decimal text for numbers, the raw content for strings.
pub open spec fn spec_stringify(v: SpecValue) -> Seq<char> {
    match v {
        SpecValue::Nil => Seq::empty(),
        SpecValue::Bool(b) => if b {
            "true"@
        } else {
            "false"@
        },
        SpecValue::Number(n) => num_chars(n),
        SpecValue::Str(s) => s,
    }
}

impl Value {
    pub fn unwrap_nil(&self)
        requires
            self@ is Nil,
    {
    }

    pub fn unwrap_string(&self) -> (r: &str)
        requires
            self@ is Str,
        ensures
            self@ matches SpecValue::Str(s) && r@ == s,
    {
        match self {
            Value::Str(s) => s.as_str(),
            _ => unreached(),
        }
    }

    pub fn unwrap_number(&self) -> (r: Num)
        requires
            self@ is Number,
        ensures
            self@ matches SpecValue::Number(n) && r@ == n,
    {
        match self {
            Value::Number(n) => *n,
            _ => unreached(),
        }
    }

    pub fn unwrap_bool(&self) -> (r: bool)
        requires
            self@ is Bool,
        ensures
            self@ matches SpecValue::Bool(b) && r == b,
    {
        match self {
            Value::Bool(b) => *b,
            _ => unreached(),
        }
    }

    pub fn is_nil(&self) -> (r: bool)
        ensures
            r == (self@ is Nil),
    {
        match self {
            Value::Nil => true,
            _ => false,
        }
    }

    pub fn is_string(&self) -> (r: bool)
        ensures
            r == (self@ is Str),
    {
        match self {
            Value::Str(_) => true,
            _ => false,
        }
    }

    pub fn is_number(&self) -> (r: bool)
        ensures
            r == (self@ is Number),
    {
        match self {
            Value::Number(_) => true,
            _ => false,
        }
    }

    pub fn is_bool(&self) -> (r: bool)
        ensures
            r == (self@ is Bool),
    {
        match self {
            Value::Bool(_) => true,
            _ => false,
        }
    }

    /// The text this value prints as.
    pub fn stringify(&self) -> (r: String)
        ensures
            r@ == spec_stringify(self@),
    {
        match self {
            Value::Nil => String::new(),
            Value::Bool(b) => {
                if *b {
                    String::from_str("true")
                } else {
                    String::from_str("false")
                }
            },
            Value::Number(n) => n.to_display_string(),
            Value::Str(s) => s.clone(),
        }
    }
}

} // verus!
