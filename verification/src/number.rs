//! Numbers as IEEE-754 binary64 bit patterns, and the numeric kernel.
//!
//! A number is the `u64` that holds the sign bit, the eleven exponent bits and
//! the fifty-two fraction bits of a double. What can be decided from the bits
//! alone (order, equality, negation) is decided here. Rounding arithmetic and
//! the reading of a decimal literal are left to a kernel: a function from a
//! [`NumOp`] to the bits of its result, which the caller supplies.

use vstd::prelude::*;

verus! {

/// A request to the numeric kernel.
#[derive(Debug)]
pub enum NumOp {
    /// The value of a literal made of digits, with an optional fraction.
    Literal(String),
    /// The rounded sum of two numbers.
    Add(u64, u64),
    /// The rounded difference of two numbers.
    Sub(u64, u64),
    /// The rounded product of two numbers.
    Mul(u64, u64),
    /// The rounded quotient of two numbers.
    Div(u64, u64),
}

/// A kernel request with its text as a sequence of characters.
pub enum NumOpView {
    Literal(Seq<char>),
    Add(u64, u64),
    Sub(u64, u64),
    Mul(u64, u64),
    Div(u64, u64),
}

impl View for NumOp {
    type V = NumOpView;

    open spec fn view(&self) -> NumOpView {
        match self {
            NumOp::Literal(s) => NumOpView::Literal(s@),
            NumOp::Add(a, b) => NumOpView::Add(*a, *b),
            NumOp::Sub(a, b) => NumOpView::Sub(*a, *b),
            NumOp::Mul(a, b) => NumOpView::Mul(*a, *b),
            NumOp::Div(a, b) => NumOpView::Div(*a, *b),
        }
    }
}

/// The arithmetic that a kernel stands for: the result bits of each request.
pub type Arith = spec_fn(NumOpView) -> u64;

/// The kernel answers every request.
pub open spec fn kernel_total<K: Fn(NumOp) -> u64>(kernel: &K) -> bool {
    forall|op: NumOp| #[trigger] call_requires(kernel, (op,))
}

/// Every answer of the kernel is the one that `ar` gives for the request.
pub open spec fn kernel_computes<K: Fn(NumOp) -> u64>(kernel: &K, ar: Arith) -> bool {
    forall|op: NumOp, r: u64| #[trigger] call_ensures(kernel, (op,), r) ==> r == ar(op@)
}

/// The sign bit of a number.
pub const SIGN_BIT: u64 = 0x8000_0000_0000_0000;

/// The bits of positive infinity: every larger magnitude is a NaN.
pub const INFINITY_BITS: u64 = 0x7ff0_0000_0000_0000;

/// The number without its sign bit.
pub open spec fn magnitude(bits: u64) -> int {
    if bits >= SIGN_BIT {
        bits - SIGN_BIT
    } else {
        bits as int
    }
}

/// The number is not a number.
pub open spec fn is_nan(bits: u64) -> bool {
    magnitude(bits) > INFINITY_BITS
}

/// The place of a number that is not a NaN in the order of the numbers: both
/// zeros stand at 0, the negative numbers below them by their magnitude.
pub open spec fn ordinal(bits: u64) -> int {
    if bits >= SIGN_BIT {
        -magnitude(bits)
    } else {
        magnitude(bits)
    }
}

/// Equality of two numbers: a NaN equals nothing, the two zeros are equal.
pub open spec fn num_equal(a: u64, b: u64) -> bool {
    !is_nan(a) && !is_nan(b) && ordinal(a) == ordinal(b)
}

/// `a < b` on numbers: false as soon as one is a NaN.
pub open spec fn num_less(a: u64, b: u64) -> bool {
    !is_nan(a) && !is_nan(b) && ordinal(a) < ordinal(b)
}

/// `a <= b` on numbers: false as soon as one is a NaN.
pub open spec fn num_less_equal(a: u64, b: u64) -> bool {
    !is_nan(a) && !is_nan(b) && ordinal(a) <= ordinal(b)
}

/// The number with its sign bit flipped.
pub open spec fn negated(bits: u64) -> u64 {
    if bits >= SIGN_BIT {
        (bits - SIGN_BIT) as u64
    } else {
        (bits + SIGN_BIT) as u64
    }
}

fn magnitude_of(bits: u64) -> (m: u64)
    ensures
        m == magnitude(bits),
        m < SIGN_BIT,
{
    if bits >= SIGN_BIT {
        bits - SIGN_BIT
    } else {
        bits
    }
}

/// Whether the number is a NaN.
pub fn number_is_nan(bits: u64) -> (r: bool)
    ensures
        r == is_nan(bits),
{
    magnitude_of(bits) > INFINITY_BITS
}

/// Whether two numbers are equal.
pub fn number_eq(a: u64, b: u64) -> (r: bool)
    ensures
        r == num_equal(a, b),
{
    if number_is_nan(a) || number_is_nan(b) {
        return false;
    }
    let ma = magnitude_of(a);
    let mb = magnitude_of(b);
    if ma == 0 && mb == 0 {
        true
    } else {
        a == b
    }
}

/// Whether `a < b`.
pub fn number_lt(a: u64, b: u64) -> (r: bool)
    ensures
        r == num_less(a, b),
{
    if number_is_nan(a) || number_is_nan(b) {
        return false;
    }
    let ma = magnitude_of(a);
    let mb = magnitude_of(b);
    let a_negative = a >= SIGN_BIT;
    let b_negative = b >= SIGN_BIT;
    if a_negative {
        if b_negative {
            mb < ma
        } else {
            ma > 0 || mb > 0
        }
    } else {
        if b_negative {
            false
        } else {
            ma < mb
        }
    }
}

/// Whether `a <= b`.
pub fn number_le(a: u64, b: u64) -> (r: bool)
    ensures
        r == num_less_equal(a, b),
{
    number_lt(a, b) || number_eq(a, b)
}

/// The negation of a number.
pub fn number_neg(bits: u64) -> (r: u64)
    ensures
        r == negated(bits),
{
    if bits >= SIGN_BIT {
        bits - SIGN_BIT
    } else {
        bits + SIGN_BIT
    }
}

/// Negating twice gives the number back, and negation mirrors the order.
pub proof fn negation_is_an_involution(bits: u64)
    ensures
        negated(negated(bits)) == bits,
        is_nan(negated(bits)) == is_nan(bits),
        !is_nan(bits) ==> ordinal(negated(bits)) == -ordinal(bits),
{
}

} // verus!
