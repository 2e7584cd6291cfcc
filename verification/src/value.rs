//! What a binary64 pattern stands for, and why comparing patterns compares
//! numbers.
//!
//! A finite pattern with exponent field `e` and fraction field `f` stands
//! for `(2^52 + f) * 2^(e - 1075)` if `e >= 1`, and for `f * 2^(1 - 1075)`
//! if `e == 0`, negated under the sign bit. Counted in units of `2^-1075`
//! every finite number is an integer; the comparisons of `binary64` order
//! the patterns as these integers are ordered.

use vstd::prelude::*;
use vstd::arithmetic::power2::{lemma2_to64, lemma_pow2_adds, lemma_pow2_pos, pow2};
use crate::binary64::{le, lt, magnitude, nan, same, INFINITY, SIGN_BIT};
use crate::whole::{is_scaled, HIDDEN_BIT, UNIT_EXPONENT};

verus! {

/// The pattern is a number other than the two infinities.
pub open spec fn finite(bits: u64) -> bool {
    magnitude(bits) < INFINITY
}

/// The exponent field: bits 52 to 62.
pub open spec fn exponent_field(bits: u64) -> int {
    magnitude(bits) / (HIDDEN_BIT as int)
}

/// The fraction field: bits 0 to 51.
pub open spec fn fraction_field(bits: u64) -> int {
    magnitude(bits) % (HIDDEN_BIT as int)
}

/// The significand as an integer: the fraction, with the hidden bit except
/// in the subnormal range.
pub open spec fn significand(bits: u64) -> int {
    if exponent_field(bits) == 0 {
        fraction_field(bits)
    } else {
        HIDDEN_BIT + fraction_field(bits)
    }
}

/// The power of two that the significand is scaled by, counted from
/// `2^-1075`: the exponent field, and 1 in the subnormal range.
pub open spec fn scale(bits: u64) -> nat {
    if exponent_field(bits) == 0 {
        1
    } else {
        exponent_field(bits) as nat
    }
}

/// The number that a finite pattern stands for, in units of `2^-1075`.
pub open spec fn units(bits: u64) -> int {
    if bits >= SIGN_BIT {
        -(significand(bits) * pow2(scale(bits)))
    } else {
        significand(bits) * pow2(scale(bits))
    }
}

/// Among patterns without sign bit, the larger pattern is the larger
/// number.
proof fn lemma_magnitudes_order(a: u64, b: u64)
    requires
        a < b,
        b < INFINITY,
    ensures
        0 <= units(a) < units(b),
{
    let ea = exponent_field(a);
    let eb = exponent_field(b);
    let sa = significand(a);
    let sb = significand(b);
    let pa = pow2(scale(a)) as int;
    let pb = pow2(scale(b)) as int;
    lemma_pow2_pos(scale(a));
    lemma_pow2_pos(scale(b));
    assert(ea <= eb);
    if scale(a) == scale(b) {
        assert(sa < sb);
        assert(0 <= sa * pa < sb * pb) by (nonlinear_arith)
            requires
                0 <= sa < sb,
                pa == pb,
                pa > 0,
        ;
    } else {
        let d = (scale(b) - scale(a)) as nat;
        lemma_pow2_adds(scale(a), d);
        lemma_pow2_pos(d);
        lemma2_to64();
        if d > 1 {
            vstd::arithmetic::power2::lemma_pow2_strictly_increases(1, d);
        }
        let pd = pow2(d) as int;
        assert(0 <= sa * pa < sb * pb) by (nonlinear_arith)
            requires
                0 <= sa < 2 * HIDDEN_BIT,
                sb >= HIDDEN_BIT,
                pb == pa * pd,
                pd >= 2,
                pa > 0,
        ;
    }
}

/// The comparisons order finite patterns as the numbers they stand for.
pub proof fn lemma_order_is_numeric(a: u64, b: u64)
    requires
        finite(a),
        finite(b),
    ensures
        !nan(a),
        !nan(b),
        lt(a, b) <==> units(a) < units(b),
        le(a, b) <==> units(a) <= units(b),
        same(a, b) <==> units(a) == units(b),
{
    let ma: u64 = magnitude(a) as u64;
    let mb: u64 = magnitude(b) as u64;
    assert(exponent_field(ma) == exponent_field(a) && fraction_field(ma) == fraction_field(a));
    assert(exponent_field(mb) == exponent_field(b) && fraction_field(mb) == fraction_field(b));
    if ma < mb {
        lemma_magnitudes_order(ma, mb);
    } else if mb < ma {
        lemma_magnitudes_order(mb, ma);
    }
    lemma_pow2_pos(scale(a));
    lemma_pow2_pos(scale(b));
    assert(units(ma) >= 0 && units(mb) >= 0) by (nonlinear_arith)
        requires
            units(ma) == significand(ma) * pow2(scale(ma)),
            units(mb) == significand(mb) * pow2(scale(mb)),
            significand(ma) >= 0,
            significand(mb) >= 0,
            pow2(scale(ma)) > 0,
            pow2(scale(mb)) > 0,
    ;
    assert(magnitude(a) == 0 <==> units(ma) == 0) by (nonlinear_arith)
        requires
            units(ma) == significand(ma) * pow2(scale(ma)),
            significand(ma) >= 0,
            pow2(scale(ma)) > 0,
            magnitude(a) == 0 <==> significand(ma) == 0,
    ;
    assert(magnitude(b) == 0 <==> units(mb) == 0) by (nonlinear_arith)
        requires
            units(mb) == significand(mb) * pow2(scale(mb)),
            significand(mb) >= 0,
            pow2(scale(mb)) > 0,
            magnitude(b) == 0 <==> significand(mb) == 0,
    ;
}

/// Each infinity lies beyond every finite number, on its side.
pub proof fn lemma_infinities(a: u64)
    requires
        finite(a),
    ensures
        lt(a, INFINITY),
        lt((SIGN_BIT + INFINITY) as u64, a),
        !nan(INFINITY),
        !nan((SIGN_BIT + INFINITY) as u64),
{
}

/// A pattern that `is_scaled` accepts for `n / 2^halvings` stands for that
/// number.
pub proof fn lemma_scaled_units(bits: u64, n: nat, halvings: nat)
    requires
        is_scaled(bits, n, halvings),
    ensures
        finite(bits),
        bits < SIGN_BIT,
        units(bits) * pow2(halvings) == n * pow2(UNIT_EXPONENT as nat),
{
    if n == 0 {
        assert(units(bits) == 0) by (nonlinear_arith)
            requires
                units(bits) == significand(bits) * pow2(scale(bits)),
                significand(bits) == 0,
        ;
        assert(units(bits) * pow2(halvings) == n * pow2(UNIT_EXPONENT as nat)) by (nonlinear_arith)
            requires
                units(bits) == 0,
                n == 0,
        ;
    } else {
        let e = (bits / HIDDEN_BIT) as nat;
        let k = (UNIT_EXPONENT - halvings - e) as nat;
        let s = significand(bits);
        lemma_pow2_adds(k, e);
        lemma_pow2_adds(k + e, halvings);
        let pk = pow2(k) as int;
        let pe = pow2(e) as int;
        let ph = pow2(halvings) as int;
        let pu = pow2(UNIT_EXPONENT as nat) as int;
        assert(k + e + halvings == UNIT_EXPONENT);
        assert((s * pe) * ph == n * pu) by (nonlinear_arith)
            requires
                s == n * pk,
                pu == (pk * pe) * ph,
        ;
    }
}

} // verus!
