//! Order comparisons of binary64 values, carried as their bit patterns.
//!
//! A pattern has a sign bit and a 63-bit magnitude. Magnitudes up to
//! `INFINITY` are numbers, ordered as the magnitudes are; larger magnitudes
//! are NaN, which is unordered with everything, itself included. The two
//! zeros have magnitude 0 and compare equal.

use vstd::prelude::*;

verus! {

/// The sign bit of a pattern.
pub const SIGN_BIT: u64 = 0x8000_0000_0000_0000;

/// Positive infinity: the largest magnitude that is still a number.
pub const INFINITY: u64 = 0x7ff0_0000_0000_0000;

/// The quiet NaN that this crate writes where a value must not be drawn.
pub const NAN: u64 = 0x7ff8_0000_0000_0000;

/// Positive zero.
pub const ZERO: u64 = 0;

/// The pattern without its sign bit.
pub open spec fn magnitude(bits: u64) -> int {
    if bits >= SIGN_BIT {
        bits - SIGN_BIT
    } else {
        bits as int
    }
}

/// Whether the pattern is a NaN.
pub open spec fn nan(bits: u64) -> bool {
    magnitude(bits) > INFINITY
}

/// An integer that orders the numbers as their values do: the magnitude,
/// negated under the sign bit. Both zeros have rank 0.
pub open spec fn rank(bits: u64) -> int {
    if bits >= SIGN_BIT {
        -magnitude(bits)
    } else {
        magnitude(bits)
    }
}

/// `a < b` as binary64 values: false whenever either is NaN.
pub open spec fn lt(a: u64, b: u64) -> bool {
    !nan(a) && !nan(b) && rank(a) < rank(b)
}

/// `a > b` as binary64 values: false whenever either is NaN.
pub open spec fn gt(a: u64, b: u64) -> bool {
    lt(b, a)
}

/// `a <= b` as binary64 values: false whenever either is NaN.
pub open spec fn le(a: u64, b: u64) -> bool {
    !nan(a) && !nan(b) && rank(a) <= rank(b)
}

/// `a == b` as binary64 values: false whenever either is NaN, true of the
/// two zeros.
pub open spec fn same(a: u64, b: u64) -> bool {
    !nan(a) && !nan(b) && rank(a) == rank(b)
}

/// Splits a pattern into sign and magnitude.
fn split(bits: u64) -> (r: (bool, u64))
    ensures
        r.0 == (bits >= SIGN_BIT),
        r.1 == magnitude(bits),
{
    if bits >= SIGN_BIT {
        (true, bits - SIGN_BIT)
    } else {
        (false, bits)
    }
}

/// Whether the pattern is a NaN.
pub fn is_nan(bits: u64) -> (r: bool)
    ensures
        r == nan(bits),
{
    let (_, m) = split(bits);
    m > INFINITY
}

/// `a < b` as binary64 values.
pub fn less(a: u64, b: u64) -> (r: bool)
    ensures
        r == lt(a, b),
{
    let (na, ma) = split(a);
    let (nb, mb) = split(b);
    if ma > INFINITY || mb > INFINITY {
        false
    } else if na {
        if nb {
            ma > mb
        } else {
            ma > 0 || mb > 0
        }
    } else {
        !nb && ma < mb
    }
}

/// `a > b` as binary64 values.
pub fn greater(a: u64, b: u64) -> (r: bool)
    ensures
        r == gt(a, b),
{
    less(b, a)
}

/// `a <= b` as binary64 values.
pub fn at_most(a: u64, b: u64) -> (r: bool)
    ensures
        r == le(a, b),
{
    let (na, ma) = split(a);
    let (nb, mb) = split(b);
    if ma > INFINITY || mb > INFINITY {
        false
    } else if na {
        !nb || ma >= mb
    } else if nb {
        ma == 0 && mb == 0
    } else {
        ma <= mb
    }
}

/// `a == b` as binary64 values.
pub fn equal(a: u64, b: u64) -> (r: bool)
    ensures
        r == same(a, b),
{
    let (na, ma) = split(a);
    let (nb, mb) = split(b);
    if ma > INFINITY || mb > INFINITY {
        false
    } else if na == nb {
        ma == mb
    } else {
        ma == 0 && mb == 0
    }
}

/// Numbers are totally ordered: of two that are not NaN exactly one of
/// `a < b`, `a == b`, `a > b` holds, and `<=` is `<` or `==`.
pub proof fn lemma_trichotomy(a: u64, b: u64)
    requires
        !nan(a),
        !nan(b),
    ensures
        lt(a, b) || same(a, b) || gt(a, b),
        !(lt(a, b) && same(a, b)),
        !(lt(a, b) && gt(a, b)),
        !(same(a, b) && gt(a, b)),
        le(a, b) == (lt(a, b) || same(a, b)),
{
}

/// `<` is transitive, also through `<=`.
pub proof fn lemma_transitive(a: u64, b: u64, c: u64)
    ensures
        lt(a, b) && lt(b, c) ==> lt(a, c),
        le(a, b) && lt(b, c) ==> lt(a, c),
        lt(a, b) && le(b, c) ==> lt(a, c),
        le(a, b) && le(b, c) ==> le(a, c),
{
}

/// A NaN is neither below, above nor equal to anything.
pub proof fn lemma_nan_unordered(a: u64, b: u64)
    requires
        nan(a) || nan(b),
    ensures
        !lt(a, b),
        !gt(a, b),
        !le(a, b),
        !same(a, b),
{
}

} // verus!
