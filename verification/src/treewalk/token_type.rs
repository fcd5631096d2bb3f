//! The values of the tree-walking interpreter.

use vstd::prelude::*;
use crate::number::{
    kernel_computes, kernel_total, negated, num_equal, num_less, num_less_equal, number_eq,
    number_le, number_lt, number_neg, Arith, NumOp, NumOpView,
};
use crate::treewalk::callable::Callable;
use vstd::string::StringExecFns;

pub use crate::token::TokenType;

verus! {

/// A value: a number (by its bits), a string, nil, a boolean, or something
/// that can be called.
#[derive(Clone, Debug)]
pub enum Object {
    Num(u64),
    Str(String),
    Nil,
    Bool(bool),
    Callable(Callable),
}

/// A value with its string as a sequence of characters.
pub enum ObjectView {
    Num(u64),
    Str(Seq<char>),
    Nil,
    Bool(bool),
    Callable(Callable),
}

impl View for Object {
    type V = ObjectView;

    open spec fn view(&self) -> ObjectView {
        match self {
            Object::Num(n) => ObjectView::Num(*n),
            Object::Str(s) => ObjectView::Str(s@),
            Object::Nil => ObjectView::Nil,
            Object::Bool(b) => ObjectView::Bool(*b),
            Object::Callable(c) => ObjectView::Callable(*c),
        }
    }
}

impl ObjectView {
    /// Nil and `false` are false; every other value is true.
    pub open spec fn is_truthy(self) -> bool {
        !(self is Nil || self == ObjectView::Bool(false))
    }

    /// The number that a number or nil stands for: nil counts as zero.
    pub open spec fn as_number(self) -> u64 {
        match self {
            ObjectView::Num(n) => n,
            _ => 0,
        }
    }

    /// Values of different kinds are never equal, and nothing equals what
    /// can be called. Nil equals nil, numbers are equal as numbers, booleans
    /// and strings by what they hold.
    pub open spec fn equal_to(self, other: ObjectView) -> bool {
        match (self, other) {
            (ObjectView::Nil, ObjectView::Nil) => true,
            (ObjectView::Num(a), ObjectView::Num(b)) => num_equal(a, b),
            (ObjectView::Bool(a), ObjectView::Bool(b)) => a == b,
            (ObjectView::Str(a), ObjectView::Str(b)) => a == b,
            _ => false,
        }
    }

    /// The logical negation of the value's truth.
    pub open spec fn inverted(self) -> ObjectView {
        ObjectView::Bool(!self.is_truthy())
    }

    /// The negation of a number; any other value is left as it is.
    pub open spec fn negative(self) -> ObjectView {
        match self {
            ObjectView::Num(n) => ObjectView::Num(negated(n)),
            _ => self,
        }
    }

    /// Whether the value is a number or nil, which counts as the number zero.
    pub open spec fn is_numeric(self) -> bool {
        self is Num || self is Nil
    }

    /// The sum of two values: strings are joined, numbers are added.
    pub open spec fn sum(self, rhs: ObjectView, ar: Arith) -> ObjectView {
        match (self, rhs) {
            (ObjectView::Str(a), ObjectView::Str(b)) => ObjectView::Str(a + b),
            (ObjectView::Str(_), _) => ObjectView::Nil,
            _ => ObjectView::Num(ar(NumOpView::Add(self.as_number(), rhs.as_number()))),
        }
    }

    pub open spec fn difference(self, rhs: ObjectView, ar: Arith) -> ObjectView {
        ObjectView::Num(ar(NumOpView::Sub(self.as_number(), rhs.as_number())))
    }

    pub open spec fn product(self, rhs: ObjectView, ar: Arith) -> ObjectView {
        ObjectView::Num(ar(NumOpView::Mul(self.as_number(), rhs.as_number())))
    }

    pub open spec fn quotient(self, rhs: ObjectView, ar: Arith) -> ObjectView {
        ObjectView::Num(ar(NumOpView::Div(self.as_number(), rhs.as_number())))
    }
}

impl Object {
    /// The number that the value stands for. Nil counts as zero; no other
    /// value that is not a number stands for one.
    pub fn to_number(&self) -> (r: u64)
        requires
            self@.is_numeric(),
        ensures
            r == self@.as_number(),
    {
        match self {
            Object::Num(n) => *n,
            _ => 0,
        }
    }

    /// Whether the value counts as true.
    pub fn is_true(&self) -> (r: bool)
        ensures
            r == self@.is_truthy(),
    {
        match self {
            Object::Nil => false,
            Object::Bool(b) => *b,
            _ => true,
        }
    }

    /// A copy of the value.
    pub fn duplicate(&self) -> (r: Self)
        ensures
            r@ == self@,
    {
        match self {
            Object::Num(n) => Object::Num(*n),
            Object::Str(s) => Object::Str(s.clone()),
            Object::Nil => Object::Nil,
            Object::Bool(b) => Object::Bool(*b),
            Object::Callable(c) => Object::Callable(*c),
        }
    }

    /// `self + rhs`: two strings are joined; numbers are added by the kernel.
    pub fn add<K: Fn(NumOp) -> u64>(self, rhs: Self, kernel: &K) -> (r: Self)
        requires
            kernel_total(kernel),
            self@ is Str || (self@.is_numeric() && rhs@.is_numeric()),
        ensures
            forall|ar: Arith| #[trigger] kernel_computes(kernel, ar) ==> r@ == self@.sum(rhs@, ar),
    {
        match self {
            Object::Str(ls) => match rhs {
                Object::Str(rs) => Object::Str(ls.concat(rs.as_str())),
                _ => Object::Nil,
            },
            _ => {
                let l = self.to_number();
                let r = rhs.to_number();
                Object::Num(kernel(NumOp::Add(l, r)))
            },
        }
    }

    /// `self - rhs`, by the kernel.
    pub fn sub<K: Fn(NumOp) -> u64>(self, rhs: Self, kernel: &K) -> (r: Self)
        requires
            kernel_total(kernel),
            self@.is_numeric(),
            rhs@.is_numeric(),
        ensures
            forall|ar: Arith| #[trigger]
                kernel_computes(kernel, ar) ==> r@ == self@.difference(rhs@, ar),
    {
        let l = self.to_number();
        let r = rhs.to_number();
        Object::Num(kernel(NumOp::Sub(l, r)))
    }

    /// `self * rhs`, by the kernel.
    pub fn mul<K: Fn(NumOp) -> u64>(self, rhs: Self, kernel: &K) -> (r: Self)
        requires
            kernel_total(kernel),
            self@.is_numeric(),
            rhs@.is_numeric(),
        ensures
            forall|ar: Arith| #[trigger] kernel_computes(kernel, ar) ==> r@ == self@.product(rhs@, ar),
    {
        let l = self.to_number();
        let r = rhs.to_number();
        Object::Num(kernel(NumOp::Mul(l, r)))
    }

    /// `self / rhs`, by the kernel.
    pub fn div<K: Fn(NumOp) -> u64>(self, rhs: Self, kernel: &K) -> (r: Self)
        requires
            kernel_total(kernel),
            self@.is_numeric(),
            rhs@.is_numeric(),
        ensures
            forall|ar: Arith| #[trigger]
                kernel_computes(kernel, ar) ==> r@ == self@.quotient(rhs@, ar),
    {
        let l = self.to_number();
        let r = rhs.to_number();
        Object::Num(kernel(NumOp::Div(l, r)))
    }

    /// `-self` for a number; any other value is handed back.
    pub fn neg(self) -> (r: Self)
        ensures
            r@ == self@.negative(),
    {
        match self {
            Object::Num(n) => Object::Num(number_neg(n)),
            other => other,
        }
    }

    /// `!self`: true for nil and `false`, false for every other value.
    pub fn not(self) -> (r: Self)
        ensures
            r@ == self@.inverted(),
    {
        match self {
            Object::Nil => Object::Bool(true),
            Object::Bool(b) => Object::Bool(!b),
            _ => Object::Bool(false),
        }
    }

    /// Whether two values are equal.
    pub fn equals(&self, other: &Self) -> (r: bool)
        ensures
            r == self@.equal_to(other@),
    {
        match self {
            Object::Nil => matches!(other, Object::Nil),
            Object::Bool(b) => match other {
                Object::Bool(c) => *b == *c,
                _ => false,
            },
            Object::Num(n) => match other {
                Object::Num(m) => number_eq(*n, *m),
                _ => false,
            },
            Object::Str(s) => match other {
                Object::Str(t) => *s == *t,
                _ => false,
            },
            _ => false,
        }
    }

    /// Whether `self < other` as numbers.
    pub fn less_than(&self, other: &Self) -> (r: bool)
        requires
            self@.is_numeric(),
            other@.is_numeric(),
        ensures
            r == num_less(self@.as_number(), other@.as_number()),
    {
        number_lt(self.to_number(), other.to_number())
    }

    /// Whether `self <= other` as numbers.
    pub fn less_equal(&self, other: &Self) -> (r: bool)
        requires
            self@.is_numeric(),
            other@.is_numeric(),
        ensures
            r == num_less_equal(self@.as_number(), other@.as_number()),
    {
        number_le(self.to_number(), other.to_number())
    }
}

/// Exactly nil and `false` are false: zero, the negative zero and the empty
/// string are true, whatever else a value holds.
pub proof fn truthiness_boundary(v: ObjectView)
    ensures
        !v.is_truthy() <==> (v is Nil || (v is Bool && !v->Bool_0)),
        v is Num ==> v.is_truthy(),
        v is Str ==> v.is_truthy(),
        v is Callable ==> v.is_truthy(),
        v.inverted() == ObjectView::Bool(!v.is_truthy()),
{
}

} // verus!
