//! Whole numbers, and whole numbers of binary fractions, as binary64
//! patterns.
//!
//! A positive pattern with exponent field `e >= 1` and fraction field `f`
//! is the number `(2^52 + f) * 2^(e - 1075)`; the pattern 0 is zero.

use vstd::prelude::*;
use vstd::arithmetic::power2::{
    lemma2_to64, lemma2_to64_rest, lemma_pow2_adds, lemma_pow2_pos, lemma_pow2_strictly_increases,
    lemma_pow2_unfold, pow2,
};
use crate::binary64::{lt, nan, same};

verus! {

/// The weight of the exponent field's lowest bit, and of the significand's
/// hidden bit: 2^52.
pub const HIDDEN_BIT: u64 = 0x10_0000_0000_0000;

/// The exponent field at which the significand counts units.
pub const UNIT_EXPONENT: u64 = 1075;

/// The largest number of halvings that `from_scaled` accepts.
pub const MAX_HALVINGS: u32 = 1022;

/// Whether the pattern is the number `n / 2^halvings`, for `n` below 2^53.
pub open spec fn is_scaled(bits: u64, n: nat, halvings: nat) -> bool {
    if n == 0 {
        bits == 0
    } else {
        let e = bits / HIDDEN_BIT;
        let f = bits % HIDDEN_BIT;
        &&& 1 <= e
        &&& e + halvings <= UNIT_EXPONENT
        &&& HIDDEN_BIT + f == n * pow2((UNIT_EXPONENT - halvings - e) as nat)
    }
}

/// Whether the pattern is the whole number `n`, for `n` below 2^53.
pub open spec fn is_whole(bits: u64, n: nat) -> bool {
    is_scaled(bits, n, 0)
}

/// The pattern of `n / 2^halvings`.
pub fn from_scaled(n: u32, halvings: u32) -> (bits: u64)
    requires
        halvings <= MAX_HALVINGS,
    ensures
        is_scaled(bits, n as nat, halvings as nat),
{
    if n == 0 {
        return 0;
    }
    let mut e: u64 = UNIT_EXPONENT;
    let mut m: u64 = n as u64;
    proof {
        lemma2_to64();
        assert((UNIT_EXPONENT - e) as nat == 0);
        assert(n * pow2(0) == n) by (nonlinear_arith)
            requires
                pow2(0) == 1,
        ;
    }
    while m < HIDDEN_BIT
        invariant
            n >= 1,
            1 <= m < 2 * HIDDEN_BIT,
            1023 <= e <= UNIT_EXPONENT,
            m == n * pow2((UNIT_EXPONENT - e) as nat),
        decreases 2 * HIDDEN_BIT - m,
    {
        proof {
            let k = (UNIT_EXPONENT - e) as nat;
            lemma2_to64_rest();
            lemma_pow2_pos(k);
            assert(n * pow2(k) >= pow2(k)) by (nonlinear_arith)
                requires
                    n >= 1,
                    pow2(k) > 0,
            ;
            if k > 52 {
                lemma_pow2_strictly_increases(52, k);
            }
            assert(k < 52);
            lemma_pow2_unfold(k + 1);
            assert(2 * (n * pow2(k)) == n * (2 * pow2(k))) by (nonlinear_arith);
        }
        m = m * 2;
        e = e - 1;
    }
    let field: u64 = e - halvings as u64;
    let bits: u64 = field * HIDDEN_BIT + (m - HIDDEN_BIT);
    proof {
        let f = (m - HIDDEN_BIT) as int;
        assert(bits / HIDDEN_BIT == field && bits % HIDDEN_BIT == f) by (nonlinear_arith)
            requires
                bits == field * HIDDEN_BIT + f,
                0 <= f < HIDDEN_BIT,
                HIDDEN_BIT > 0,
        ;
    }
    bits
}

/// The pattern of a whole number.
pub fn from_whole(n: u32) -> (bits: u64)
    ensures
        is_whole(bits, n as nat),
{
    from_scaled(n, 0)
}

/// With the larger exponent field comes the larger number.
proof fn lemma_exponent_orders(a: u64, m: nat, b: u64, n: nat, halvings: nat)
    requires
        m > 0,
        n > 0,
        is_scaled(a, m, halvings),
        is_scaled(b, n, halvings),
        a / HIDDEN_BIT < b / HIDDEN_BIT,
    ensures
        m < n,
{
    let k1 = (UNIT_EXPONENT - halvings - a / HIDDEN_BIT) as nat;
    let k2 = (UNIT_EXPONENT - halvings - b / HIDDEN_BIT) as nat;
    let d = (k1 - k2) as nat;
    lemma_pow2_adds(k2, d);
    lemma2_to64();
    if d > 1 {
        lemma_pow2_strictly_increases(1, d);
    }
    lemma_pow2_pos(k1);
    lemma_pow2_pos(k2);
    let pa = pow2(k1) as int;
    let pb = pow2(k2) as int;
    let pd = pow2(d) as int;
    assert(m < n) by (nonlinear_arith)
        requires
            pa == pb * pd,
            pd >= 2,
            pb > 0,
            m * pa < 2 * HIDDEN_BIT,
            n * pb >= HIDDEN_BIT,
    ;
}

/// Numbers of the same binary fraction are numbers, and their patterns are
/// ordered as their numerators are.
pub proof fn lemma_scaled_order(a: u64, m: nat, b: u64, n: nat, halvings: nat)
    requires
        is_scaled(a, m, halvings),
        is_scaled(b, n, halvings),
    ensures
        !nan(a),
        !nan(b),
        lt(a, b) <==> m < n,
        same(a, b) <==> m == n,
{
    if m > 0 && n > 0 {
        let e1 = a / HIDDEN_BIT;
        let e2 = b / HIDDEN_BIT;
        if e1 < e2 {
            lemma_exponent_orders(a, m, b, n, halvings);
        } else if e2 < e1 {
            lemma_exponent_orders(b, n, a, m, halvings);
        } else {
            let k = (UNIT_EXPONENT - halvings - e1) as nat;
            let p = pow2(k) as int;
            lemma_pow2_pos(k);
            let f1 = (a % HIDDEN_BIT) as int;
            let f2 = (b % HIDDEN_BIT) as int;
            assert((f1 < f2 <==> m < n) && (f1 == f2 <==> m == n)) by (nonlinear_arith)
                requires
                    p > 0,
                    HIDDEN_BIT + f1 == m * p,
                    HIDDEN_BIT + f2 == n * p,
            ;
        }
    }
}

/// A number has one pattern.
pub proof fn lemma_scaled_unique(a: u64, b: u64, n: nat, halvings: nat)
    requires
        is_scaled(a, n, halvings),
        is_scaled(b, n, halvings),
    ensures
        a == b,
{
    lemma_scaled_order(a, n, b, n, halvings);
}

} // verus!
