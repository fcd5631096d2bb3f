//! The values of the bytecode machine.

use vstd::prelude::*;
use crate::number::{num_equal, number_eq};

verus! {

/// A value: a number (by its bits), a boolean, a string or nil.
#[derive(Clone, Debug)]
pub enum Value {
    Number(u64),
    Boolean(bool),
    Str(String),
    Nil,
}

/// A value with its string as a sequence of characters.
pub enum ValueView {
    Number(u64),
    Boolean(bool),
    Str(Seq<char>),
    Nil,
}

impl View for Value {
    type V = ValueView;

    open spec fn view(&self) -> ValueView {
        match self {
            Value::Number(n) => ValueView::Number(*n),
            Value::Boolean(b) => ValueView::Boolean(*b),
            Value::Str(s) => ValueView::Str(s@),
            Value::Nil => ValueView::Nil,
        }
    }
}

impl ValueView {
    /// Nil and `false` are false; every other value is true.
    pub open spec fn is_falsey(self) -> bool {
        self is Nil || self == ValueView::Boolean(false)
    }

    /// Values of different kinds are never equal. Nil equals nil, numbers are
    /// equal as numbers, booleans and strings by what they hold.
    pub open spec fn equal_to(self, other: ValueView) -> bool {
        match (self, other) {
            (ValueView::Nil, ValueView::Nil) => true,
            (ValueView::Number(a), ValueView::Number(b)) => num_equal(a, b),
            (ValueView::Boolean(a), ValueView::Boolean(b)) => a == b,
            (ValueView::Str(a), ValueView::Str(b)) => a == b,
            _ => false,
        }
    }
}

impl Default for Value {
    fn default() -> (r: Self)
        ensures
            r@ == ValueView::Nil,
    {
        Value::Nil
    }
}

impl Value {
    /// The bits of the number, if the value is one.
    pub fn as_number(&self) -> (r: Option<u64>)
        ensures
            r == match self@ {
                ValueView::Number(n) => Some(n),
                _ => None,
            },
    {
        if let Value::Number(n) = self {
            Some(*n)
        } else {
            None
        }
    }

    pub fn is_number(&self) -> (r: bool)
        ensures
            r == (self@ is Number),
    {
        matches!(self, Value::Number(_))
    }

    /// The boolean, if the value is one.
    pub fn as_bool(&self) -> (r: Option<bool>)
        ensures
            r == match self@ {
                ValueView::Boolean(b) => Some(b),
                _ => None,
            },
    {
        if let Value::Boolean(b) = self {
            Some(*b)
        } else {
            None
        }
    }

    pub fn is_string(&self) -> (r: bool)
        ensures
            r == (self@ is Str),
    {
        matches!(self, Value::Str(_))
    }

    /// A copy of the string, if the value is one.
    pub fn as_string(&self) -> (r: Option<String>)
        ensures
            match self@ {
                ValueView::Str(s) => r is Some && r->0@ == s,
                _ => r is None,
            },
    {
        if let Value::Str(s) = self {
            Some(s.clone())
        } else {
            None
        }
    }

    /// Whether the value counts as false.
    pub fn is_false(&self) -> (r: bool)
        ensures
            r == self@.is_falsey(),
    {
        match self {
            Value::Nil => true,
            Value::Boolean(b) => !*b,
            _ => false,
        }
    }

    /// Whether two values are equal.
    pub fn equals(&self, other: &Self) -> (r: bool)
        ensures
            r == self@.equal_to(other@),
    {
        match self {
            Value::Nil => matches!(other, Value::Nil),
            Value::Number(n) => match other {
                Value::Number(m) => number_eq(*n, *m),
                _ => false,
            },
            Value::Boolean(b) => match other {
                Value::Boolean(c) => *b == *c,
                _ => false,
            },
            Value::Str(s) => match other {
                Value::Str(t) => *s == *t,
                _ => false,
            },
        }
    }

    /// A copy of the value.
    pub fn duplicate(&self) -> (r: Self)
        ensures
            r@ == self@,
    {
        match self {
            Value::Number(n) => Value::Number(*n),
            Value::Boolean(b) => Value::Boolean(*b),
            Value::Str(s) => Value::Str(s.clone()),
            Value::Nil => Value::Nil,
        }
    }
}

/// Exactly nil and `false` are false, whatever else a value holds: zero, the
/// negative zero and the empty string are true.
pub proof fn truthiness_boundary(v: ValueView)
    ensures
        v.is_falsey() <==> (v is Nil || (v is Boolean && !v->Boolean_0)),
        v is Number ==> !v.is_falsey(),
        v is Str ==> !v.is_falsey(),
{
}

/// Equality of values is symmetric, and a value that is no NaN equals itself.
pub proof fn equality_is_symmetric(a: ValueView, b: ValueView)
    ensures
        a.equal_to(b) == b.equal_to(a),
        !(a is Number) ==> a.equal_to(a),
        a.equal_to(b) && !(a is Number) ==> a == b,
{
}

} // verus!
