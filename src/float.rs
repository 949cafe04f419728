use vstd::prelude::*;

verus! {

/// The bits of a binary64 pattern other than the sign.
pub const MAGNITUDE_MASK: u64 = 0x7fff_ffff_ffff_ffff;

/// The magnitude bits of positive infinity; any larger magnitude is a NaN.
pub const INFINITY_BITS: u64 = 0x7ff0_0000_0000_0000;

/// The pattern of +0.0.
pub const ZERO_BITS: u64 = 0;

/// Whether the sign bit of a binary64 pattern is set.
pub open spec fn sign_set(b: u64) -> bool {
    b >> 63u64 == 1
}

/// The magnitude bits of a binary64 pattern.
pub open spec fn magnitude(b: u64) -> u64 {
    b & MAGNITUDE_MASK
}

/// Whether a binary64 pattern is a NaN.
pub open spec fn is_nan(b: u64) -> bool {
    magnitude(b) > INFINITY_BITS
}

/// The position of a non-NaN binary64 value on the number line: the magnitude
/// bits order absolute values as unsigned integers do, and +0 and -0 coincide.
pub open spec fn order_key(b: u64) -> int {
    if sign_set(b) {
        -(magnitude(b) as int)
    } else {
        magnitude(b) as int
    }
}

/// IEEE-754 `a > b`: false whenever either side is a NaN.
pub open spec fn float_gt(a: u64, b: u64) -> bool {
    !is_nan(a) && !is_nan(b) && order_key(a) > order_key(b)
}

/// IEEE-754 `a > b` on binary64 patterns.
pub fn gt(a: u64, b: u64) -> (r: bool)
    ensures
        r == float_gt(a, b),
{
    let ma = a & MAGNITUDE_MASK;
    let mb = b & MAGNITUDE_MASK;
    if ma > INFINITY_BITS || mb > INFINITY_BITS {
        return false;
    }
    let sa = (a >> 63u64) == 1;
    let sb = (b >> 63u64) == 1;
    if !sa && !sb {
        ma > mb
    } else if sa && sb {
        ma < mb
    } else if !sa && sb {
        ma > 0 || mb > 0
    } else {
        false
    }
}

/// Whether `b` is a NaN.
pub fn is_nan_bits(b: u64) -> (r: bool)
    ensures
        r == is_nan(b),
{
    (b & MAGNITUDE_MASK) > INFINITY_BITS
}

/// IEEE-754 `b < 0.0`.
pub fn is_negative(b: u64) -> (r: bool)
    ensures
        r == float_gt(ZERO_BITS, b),
{
    gt(ZERO_BITS, b)
}

/// IEEE-754 `b > 0.0`.
pub fn is_positive(b: u64) -> (r: bool)
    ensures
        r == float_gt(b, ZERO_BITS),
{
    gt(b, ZERO_BITS)
}

/// A pattern whose sign bit is set is never greater than zero.
pub proof fn lemma_sign_set_not_positive(b: u64)
    requires
        sign_set(b),
    ensures
        !float_gt(b, ZERO_BITS),
{
    assert(ZERO_BITS >> 63u64 == 0) by (bit_vector);
    assert(ZERO_BITS & MAGNITUDE_MASK == 0) by (bit_vector);
}

/// A pattern whose sign bit is clear is never less than zero.
pub proof fn lemma_sign_clear_not_negative(b: u64)
    requires
        !sign_set(b),
    ensures
        !float_gt(ZERO_BITS, b),
{
    assert(ZERO_BITS >> 63u64 == 0) by (bit_vector);
    assert(ZERO_BITS & MAGNITUDE_MASK == 0) by (bit_vector);
}

/// Binary64 arithmetic on bit patterns, as the hardware performs it. The
/// library decides what is computed and where faults strike; the rounding
/// itself comes from an implementation of this trait. Each method is a function
/// of its arguments, which its spec function names.
pub trait Fpu {
    /// The pattern of `a + b`.
    spec fn add_spec(&self, a: u64, b: u64) -> u64;

    /// The pattern of `a - b`.
    spec fn sub_spec(&self, a: u64, b: u64) -> u64;

    /// The pattern of `a * b`.
    spec fn mul_spec(&self, a: u64, b: u64) -> u64;

    /// The pattern of `a / b`.
    spec fn div_spec(&self, a: u64, b: u64) -> u64;

    /// The pattern of `e` raised to `a`.
    spec fn exp_spec(&self, a: u64) -> u64;

    /// The pattern of the integer `t` rounded to binary64.
    spec fn from_u64_spec(&self, t: u64) -> u64;

    fn add(&self, a: u64, b: u64) -> (r: u64)
        ensures
            r == self.add_spec(a, b),
    ;

    fn sub(&self, a: u64, b: u64) -> (r: u64)
        ensures
            r == self.sub_spec(a, b),
    ;

    fn mul(&self, a: u64, b: u64) -> (r: u64)
        ensures
            r == self.mul_spec(a, b),
    ;

    fn div(&self, a: u64, b: u64) -> (r: u64)
        ensures
            r == self.div_spec(a, b),
    ;

    fn exp(&self, a: u64) -> (r: u64)
        ensures
            r == self.exp_spec(a),
    ;

    fn from_u64(&self, t: u64) -> (r: u64)
        ensures
            r == self.from_u64_spec(t),
    ;
}

} // verus!
