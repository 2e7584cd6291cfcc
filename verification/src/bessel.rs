//! The case analysis of the modified Bessel functions.
//!
//! Each function is approximated by two polynomial fits, one for small
//! arguments and one, scaled by an exponential, for large ones. Which fit
//! applies is decided here; the caller evaluates it.

use vstd::prelude::*;
use vstd::arithmetic::power2::{lemma2_to64_rest, pow2};
use crate::binary64::{at_most, le, ZERO};
use crate::whole::{is_scaled, is_whole};

verus! {

/// Up to this argument, 3.75, the first kind uses its fit for small
/// arguments.
pub const FIRST_KIND_BREAK: u64 = 0x400e_0000_0000_0000;

/// Up to this argument, 2, the second kind uses its fit for small arguments.
pub const SECOND_KIND_BREAK: u64 = 0x4000_0000_0000_0000;

/// The break points are the numbers that their names say.
pub proof fn lemma_breaks()
    ensures
        is_scaled(FIRST_KIND_BREAK, 15, 2),
        is_whole(SECOND_KIND_BREAK, 2),
{
    lemma2_to64_rest();
    assert(pow2(49) == 0x2000000000000);
    assert(pow2(51) == 0x8000000000000);
}

/// What a Bessel function returns for argument `x` and order `n`, where
/// `near` and `far` evaluate the fit of an order for small and for large
/// arguments: 0 for an order other than 0 and 1; the fit for small arguments
/// up to the break point; else, also for a NaN, the fit for large arguments.
pub open spec fn dispatched<N: Fn(u64, i8) -> u64, F: Fn(u64, i8) -> u64>(
    x: u64,
    n: i8,
    break_point: u64,
    near: N,
    far: F,
    result: u64,
) -> bool {
    if n != 0 && n != 1 {
        result == ZERO
    } else if le(x, break_point) {
        near.ensures((x, n), result)
    } else {
        far.ensures((x, n), result)
    }
}

fn dispatch<N, F>(x: u64, n: i8, break_point: u64, near: &N, far: &F) -> (result: u64) where
    N: Fn(u64, i8) -> u64,
    F: Fn(u64, i8) -> u64,

    requires
        forall|x: u64, n: i8| near.requires((x, n)),
        forall|x: u64, n: i8| far.requires((x, n)),
    ensures
        dispatched(x, n, break_point, *near, *far, result),
{
    if n != 0 && n != 1 {
        ZERO
    } else if at_most(x, break_point) {
        near(x, n)
    } else {
        far(x, n)
    }
}

/// The modified Bessel function of the first kind, with its break point at
/// 3.75.
pub fn besseli<N, F>(x: u64, n: i8, near: &N, far: &F) -> (result: u64) where
    N: Fn(u64, i8) -> u64,
    F: Fn(u64, i8) -> u64,

    requires
        forall|x: u64, n: i8| near.requires((x, n)),
        forall|x: u64, n: i8| far.requires((x, n)),
    ensures
        dispatched(x, n, FIRST_KIND_BREAK, *near, *far, result),
{
    dispatch(x, n, FIRST_KIND_BREAK, near, far)
}

/// The modified Bessel function of the second kind, with its break point at
/// 2.
pub fn besselk<N, F>(x: u64, n: i8, near: &N, far: &F) -> (result: u64) where
    N: Fn(u64, i8) -> u64,
    F: Fn(u64, i8) -> u64,

    requires
        forall|x: u64, n: i8| near.requires((x, n)),
        forall|x: u64, n: i8| far.requires((x, n)),
    ensures
        dispatched(x, n, SECOND_KIND_BREAK, *near, *far, result),
{
    dispatch(x, n, SECOND_KIND_BREAK, near, far)
}

} // verus!
