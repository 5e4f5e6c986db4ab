//! Numbers as bit patterns of IEEE-754 doubles: the tests and the one
//! operation that need no arithmetic on them.

use vstd::prelude::*;

verus! {

pub const SIGN_BIT: u64 = 0x8000_0000_0000_0000;

pub const EXPONENT_BITS: u64 = 0x7ff0_0000_0000_0000;

pub const FRACTION_BITS: u64 = 0x000f_ffff_ffff_ffff;

pub const MAGNITUDE_BITS: u64 = 0x7fff_ffff_ffff_ffff;

/// Not a number: the exponent is all ones and the fraction is not zero.
pub open spec fn is_nan(bits: u64) -> bool {
    bits & EXPONENT_BITS == EXPONENT_BITS && bits & FRACTION_BITS != 0
}

/// Zero, of either sign.
pub open spec fn is_zero(bits: u64) -> bool {
    bits & MAGNITUDE_BITS == 0
}

pub open spec fn is_negative(bits: u64) -> bool {
    bits & SIGN_BIT != 0
}

/// The number with the opposite sign.
pub open spec fn negated(bits: u64) -> u64 {
    bits ^ SIGN_BIT
}

/// Equality of two numbers: nothing equals a NaN, the two zeros are equal,
/// and otherwise the bit patterns decide.
pub open spec fn numbers_equal(a: u64, b: u64) -> bool {
    !is_nan(a) && !is_nan(b) && (a == b || (is_zero(a) && is_zero(b)))
}

/// Whether `a` is less than `b`: never with a NaN or between the two zeros;
/// a negative number is less than one that is not; two numbers of one sign
/// compare by magnitude.
pub open spec fn number_less(a: u64, b: u64) -> bool {
    &&& !is_nan(a)
    &&& !is_nan(b)
    &&& !(is_zero(a) && is_zero(b))
    &&& if is_negative(a) {
        !is_negative(b) || (b & MAGNITUDE_BITS) < (a & MAGNITUDE_BITS)
    } else {
        !is_negative(b) && (a & MAGNITUDE_BITS) < (b & MAGNITUDE_BITS)
    }
}

pub fn nan(bits: u64) -> (b: bool)
    ensures
        b == is_nan(bits),
{
    bits & EXPONENT_BITS == EXPONENT_BITS && bits & FRACTION_BITS != 0
}

pub fn zero(bits: u64) -> (b: bool)
    ensures
        b == is_zero(bits),
{
    bits & MAGNITUDE_BITS == 0
}

pub fn negative(bits: u64) -> (b: bool)
    ensures
        b == is_negative(bits),
{
    bits & SIGN_BIT != 0
}

pub fn negate(bits: u64) -> (r: u64)
    ensures
        r == negated(bits),
{
    bits ^ SIGN_BIT
}

pub fn equal(a: u64, b: u64) -> (r: bool)
    ensures
        r == numbers_equal(a, b),
{
    !nan(a) && !nan(b) && (a == b || (zero(a) && zero(b)))
}

pub fn less(a: u64, b: u64) -> (r: bool)
    ensures
        r == number_less(a, b),
{
    if nan(a) || nan(b) || (zero(a) && zero(b)) {
        false
    } else if negative(a) {
        !negative(b) || (b & MAGNITUDE_BITS) < (a & MAGNITUDE_BITS)
    } else {
        !negative(b) && (a & MAGNITUDE_BITS) < (b & MAGNITUDE_BITS)
    }
}

/// Negating twice gives the number back.
pub proof fn lemma_negate_twice(bits: u64)
    ensures
        negated(negated(bits)) == bits,
{
    assert((bits ^ 0x8000_0000_0000_0000u64) ^ 0x8000_0000_0000_0000u64 == bits) by (bit_vector);
}

/// Equality of numbers is symmetric, and no number is less than itself.
pub proof fn lemma_number_order(a: u64, b: u64)
    ensures
        numbers_equal(a, b) == numbers_equal(b, a),
        !number_less(a, a),
        !(number_less(a, b) && number_less(b, a)),
        !(number_less(a, b) && numbers_equal(a, b)),
{
}

/// A number equals the one of the opposite sign exactly if it is a zero;
/// so the two zeros are equal.
pub proof fn lemma_equal_negated(bits: u64)
    ensures
        numbers_equal(bits, negated(bits)) <==> is_zero(bits),
        is_zero(bits) ==> !is_nan(bits),
{
    assert((bits ^ 0x8000_0000_0000_0000u64) != bits) by (bit_vector);
    assert((bits & 0x7fff_ffff_ffff_ffffu64) == 0 ==> ((bits ^ 0x8000_0000_0000_0000u64)
        & 0x7fff_ffff_ffff_ffffu64) == 0) by (bit_vector);
    assert((bits & 0x7fff_ffff_ffff_ffffu64) == 0 ==> (bits & 0x7ff0_0000_0000_0000u64)
        != 0x7ff0_0000_0000_0000u64) by (bit_vector);
    assert((bits & 0x7ff0_0000_0000_0000u64) == ((bits ^ 0x8000_0000_0000_0000u64)
        & 0x7ff0_0000_0000_0000u64)) by (bit_vector);
    assert((bits & 0x000f_ffff_ffff_ffffu64) == ((bits ^ 0x8000_0000_0000_0000u64)
        & 0x000f_ffff_ffff_ffffu64)) by (bit_vector);
}

} // verus!
