use vstd::prelude::*;

verus! {

/// A runtime value.
///
/// A number is held as the bit pattern of an IEEE 754 double.
#[derive(Debug)]
pub enum Value {
    Nil,
    Boolean(bool),
    Number(u64),
    String(String),
}

/// Mathematical model of a runtime value.
pub enum ValueModel {
    Nil,
    Boolean(bool),
    Number(u64),
    Text(Seq<char>),
}

impl View for Value {
    type V = ValueModel;

    open spec fn view(&self) -> ValueModel {
        match self {
            Value::Nil => ValueModel::Nil,
            Value::Boolean(b) => ValueModel::Boolean(*b),
            Value::Number(n) => ValueModel::Number(*n),
            Value::String(s) => ValueModel::Text(s@),
        }
    }
}

impl Clone for Value {
    fn clone(&self) -> (r: Self)
        ensures
            r == *self,
    {
        match self {
            Value::Nil => Value::Nil,
            Value::Boolean(b) => Value::Boolean(*b),
            Value::Number(n) => Value::Number(*n),
            Value::String(s) => Value::String(s.clone()),
        }
    }
}

/// The sign bit of a double.
pub const SIGN_BIT: u64 = 0x8000_0000_0000_0000;

/// The bit pattern of positive infinity; every larger magnitude is a NaN.
pub const INFINITY_BITS: u64 = 0x7ff0_0000_0000_0000;

/// The bit pattern without its sign bit.
pub open spec fn magnitude(bits: u64) -> int {
    if bits >= SIGN_BIT {
        bits - SIGN_BIT
    } else {
        bits as int
    }
}

/// Whether the bit pattern encodes "not a number".
pub open spec fn is_nan(bits: u64) -> bool {
    magnitude(bits) > INFINITY_BITS
}

/// An integer that orders the doubles other than NaN as their values are
/// ordered: the magnitude, negated under the sign bit. Both zeros map to 0.
pub open spec fn ordinal(bits: u64) -> int {
    if bits >= SIGN_BIT {
        -magnitude(bits)
    } else {
        magnitude(bits)
    }
}

/// `a < b` on doubles: false whenever either side is NaN.
pub open spec fn number_less(a: u64, b: u64) -> bool {
    !is_nan(a) && !is_nan(b) && ordinal(a) < ordinal(b)
}

/// `a <= b` on doubles: false whenever either side is NaN.
pub open spec fn number_less_equal(a: u64, b: u64) -> bool {
    !is_nan(a) && !is_nan(b) && ordinal(a) <= ordinal(b)
}

/// `a == b` on doubles: NaN equals nothing, and the two zeros are equal.
pub open spec fn number_equal(a: u64, b: u64) -> bool {
    !is_nan(a) && !is_nan(b) && ordinal(a) == ordinal(b)
}

/// `-a` on doubles: the same pattern with the sign bit flipped.
pub open spec fn number_negated(bits: u64) -> u64 {
    if bits >= SIGN_BIT {
        (bits - SIGN_BIT) as u64
    } else {
        (bits + SIGN_BIT) as u64
    }
}

/// Whether the bit pattern encodes "not a number".
pub fn nan(bits: u64) -> (r: bool)
    ensures
        r == is_nan(bits),
{
    if bits >= SIGN_BIT {
        bits - SIGN_BIT > INFINITY_BITS
    } else {
        bits > INFINITY_BITS
    }
}

/// The place of a double in the order of values, as a signed integer.
pub fn rank(bits: u64) -> (r: i128)
    ensures
        r == ordinal(bits),
{
    if bits >= SIGN_BIT {
        let m: u64 = bits - SIGN_BIT;
        let wide: i128 = m as i128;
        0 - wide
    } else {
        bits as i128
    }
}

/// `a < b` on the doubles with these bit patterns.
pub fn less_than(a: u64, b: u64) -> (r: bool)
    ensures
        r == number_less(a, b),
{
    !nan(a) && !nan(b) && rank(a) < rank(b)
}

/// `a <= b` on the doubles with these bit patterns.
pub fn less_or_equal(a: u64, b: u64) -> (r: bool)
    ensures
        r == number_less_equal(a, b),
{
    !nan(a) && !nan(b) && rank(a) <= rank(b)
}

/// `a == b` on the doubles with these bit patterns.
pub fn same_number(a: u64, b: u64) -> (r: bool)
    ensures
        r == number_equal(a, b),
{
    !nan(a) && !nan(b) && rank(a) == rank(b)
}

/// `-a` on the double with this bit pattern.
pub fn negate(bits: u64) -> (r: u64)
    ensures
        r == number_negated(bits),
{
    if bits >= SIGN_BIT {
        bits - SIGN_BIT
    } else {
        bits + SIGN_BIT
    }
}

} // verus!
