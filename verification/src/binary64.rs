//! The binary64 encoding as a plain `u64`, and the parts of its meaning that
//! the library reads: finiteness, the numeric order of `<`, `<=` and `==`,
//! and the total order of `total_cmp`.

use vstd::prelude::*;

verus! {

/// The sign bit of a binary64 encoding.
pub const SIGN_BIT: u64 = 0x8000_0000_0000_0000;

/// The encoding of positive infinity; every finite encoding has a smaller
/// magnitude, every NaN a larger one.
pub const INFINITY_BITS: u64 = 0x7ff0_0000_0000_0000;

/// The encoding with the sign bit cleared.
pub open spec fn magnitude(bits: u64) -> int {
    (bits % SIGN_BIT) as int
}

/// The sign bit is set.
pub open spec fn is_negative(bits: u64) -> bool {
    bits >= SIGN_BIT
}

/// Neither an infinity nor a NaN: the exponent field is not all ones.
pub open spec fn finite(bits: u64) -> bool {
    magnitude(bits) < INFINITY_BITS
}

/// A NaN: the exponent field is all ones and the fraction is not zero.
pub open spec fn nan(bits: u64) -> bool {
    magnitude(bits) > INFINITY_BITS
}

/// The place of a non-NaN value on the extended real line. Magnitude bits
/// order same-signed values, and the two zeros share the key `0`.
pub open spec fn order_key(bits: u64) -> int {
    if is_negative(bits) {
        -magnitude(bits)
    } else {
        magnitude(bits)
    }
}

/// The numeric `<`: false whenever either side is a NaN.
pub open spec fn float_lt(a: u64, b: u64) -> bool {
    !nan(a) && !nan(b) && order_key(a) < order_key(b)
}

/// The numeric `<=`: false whenever either side is a NaN.
pub open spec fn float_le(a: u64, b: u64) -> bool {
    !nan(a) && !nan(b) && order_key(a) <= order_key(b)
}

/// The numeric `==`: `-0.0 == 0.0`, and a NaN equals nothing.
pub open spec fn float_eq(a: u64, b: u64) -> bool {
    !nan(a) && !nan(b) && order_key(a) == order_key(b)
}

/// The key of `total_cmp`: negative encodings (NaNs included) below the
/// positive ones, `-0.0` just below `0.0`.
pub open spec fn total_key(bits: u64) -> int {
    if is_negative(bits) {
        -magnitude(bits) - 1
    } else {
        magnitude(bits)
    }
}

/// Every element of `s` is finite.
pub open spec fn all_finite(s: Seq<u64>) -> bool {
    forall|i: int| 0 <= i < s.len() ==> finite(#[trigger] s[i])
}

/// Whether every element of `values` encodes a finite number.
pub fn all_finite_values(values: &[u64]) -> (r: bool)
    ensures
        r == all_finite(values@),
{
    let n = values.len();
    let mut k: usize = 0;
    while k < n
        invariant
            n == values@.len(),
            k <= n,
            forall|j: int| 0 <= j < k ==> finite(#[trigger] values@[j]),
        decreases n - k,
    {
        if !is_finite(values[k]) {
            return false;
        }
        k = k + 1;
    }
    true
}

/// Whether `bits` encodes a finite number.
pub fn is_finite(bits: u64) -> (r: bool)
    ensures
        r == finite(bits),
{
    bits % SIGN_BIT < INFINITY_BITS
}

/// The numeric comparison `a < b`.
pub fn less_than(a: u64, b: u64) -> (r: bool)
    ensures
        r == float_lt(a, b),
{
    let ma = a % SIGN_BIT;
    let mb = b % SIGN_BIT;
    if ma > INFINITY_BITS || mb > INFINITY_BITS {
        return false;
    }
    let na = a >= SIGN_BIT;
    let nb = b >= SIGN_BIT;
    if na && nb {
        mb < ma
    } else if na {
        !(ma == 0 && mb == 0)
    } else if nb {
        false
    } else {
        ma < mb
    }
}

/// The numeric comparison `a <= b`.
pub fn less_or_equal(a: u64, b: u64) -> (r: bool)
    ensures
        r == float_le(a, b),
{
    less_than(a, b) || equals(a, b)
}

/// The numeric equality `a == b`.
pub fn equals(a: u64, b: u64) -> (r: bool)
    ensures
        r == float_eq(a, b),
{
    let ma = a % SIGN_BIT;
    let mb = b % SIGN_BIT;
    if ma > INFINITY_BITS || mb > INFINITY_BITS {
        return false;
    }
    if ma == 0 && mb == 0 {
        true
    } else {
        a == b
    }
}

/// Numeric equality of optional values: both absent, or both present and
/// numerically equal.
pub open spec fn option_float_eq(a: Option<u64>, b: Option<u64>) -> bool {
    match (a, b) {
        (Some(x), Some(y)) => float_eq(x, y),
        (None, None) => true,
        _ => false,
    }
}

/// Numeric equality of optional values.
pub fn option_equals(a: Option<u64>, b: Option<u64>) -> (r: bool)
    ensures
        r == option_float_eq(a, b),
{
    match (a, b) {
        (Some(x), Some(y)) => equals(x, y),
        (None, None) => true,
        _ => false,
    }
}

/// The key by which `total_cmp` orders `bits`, as a signed integer.
pub fn total_order_key(bits: u64) -> (r: i64)
    ensures
        r == total_key(bits),
{
    if bits >= SIGN_BIT {
        let m: u64 = bits - SIGN_BIT;
        -(m as i64) - 1
    } else {
        bits as i64
    }
}

/// The numeric order read straight off the encodings: among non-NaN values,
/// non-negative encodings order as unsigned integers, negative ones in
/// reverse, every negative one lies below every non-negative one except
/// that `-0.0` equals `0.0`, and equality is equality of encodings except
/// for the two zeros.
pub proof fn lemma_numeric_order_on_encodings(a: u64, b: u64)
    requires
        !nan(a),
        !nan(b),
    ensures
        (a < SIGN_BIT && b < SIGN_BIT) ==> float_lt(a, b) == (a < b),
        (a >= SIGN_BIT && b >= SIGN_BIT) ==> float_lt(a, b) == (a > b),
        (a >= SIGN_BIT && b < SIGN_BIT) ==> float_lt(a, b) == !(a == SIGN_BIT && b == 0),
        (a < SIGN_BIT && b >= SIGN_BIT) ==> !float_lt(a, b),
        float_eq(a, b) == (a == b || (a == SIGN_BIT && b == 0) || (a == 0 && b == SIGN_BIT)),
        float_le(a, b) == (float_lt(a, b) || float_eq(a, b)),
{
}

/// The total order read straight off the encodings: non-negative encodings
/// order as unsigned integers, negative ones in reverse, and every negative
/// one (NaNs included) lies below every non-negative one.
pub proof fn lemma_total_order_on_encodings(a: u64, b: u64)
    ensures
        (a < SIGN_BIT && b < SIGN_BIT) ==> (total_key(a) < total_key(b)) == (a < b),
        (a >= SIGN_BIT && b >= SIGN_BIT) ==> (total_key(a) < total_key(b)) == (a > b),
        (a >= SIGN_BIT && b < SIGN_BIT) ==> total_key(a) < total_key(b),
{
}

/// Finiteness read straight off the encoding: the eleven exponent bits are
/// not all ones.
pub proof fn lemma_finite_on_encodings(bits: u64)
    ensures
        finite(bits) == ((bits / 0x10_0000_0000_0000) % 0x800 != 0x7ff),
        nan(bits) == ((bits / 0x10_0000_0000_0000) % 0x800 == 0x7ff && bits % 0x10_0000_0000_0000
            != 0),
{
}

/// The total order refines the numeric order: whatever `total_cmp` puts
/// first is numerically no larger.
pub proof fn lemma_total_order_refines_numeric(a: u64, b: u64)
    ensures
        total_key(a) <= total_key(b) ==> order_key(a) <= order_key(b),
        order_key(a) < order_key(b) ==> total_key(a) < total_key(b),
{
}

/// `total_cmp` tells every two encodings apart.
pub proof fn lemma_total_key_injective(a: u64, b: u64)
    requires
        total_key(a) == total_key(b),
    ensures
        a == b,
{
}

} // verus!
