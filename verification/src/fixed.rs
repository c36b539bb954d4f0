//! Fixed-point numbers with 32 fractional bits.
//!
//! A raw value `v` stands for the real number `v / ONE`. Unsigned quantities
//! (colour channels, radii, probabilities) are held in `u64`, coordinates in
//! `i64`.

use vstd::prelude::*;

verus! {

/// The raw value of 1.0.
pub const ONE: u64 = 4294967296;

/// The product of two fixed-point numbers, rounded down.
pub open spec fn product(a: int, b: int) -> int {
    a * b / (ONE as int)
}

/// The product of two unsigned fixed-point numbers, rounded down and held to
/// the largest value that 64 bits carry.
pub open spec fn times_spec(a: u64, b: u64) -> u64 {
    if product(a as int, b as int) > u64::MAX {
        u64::MAX
    } else {
        product(a as int, b as int) as u64
    }
}

/// `n` tenths, rounded to the nearest raw value.
pub open spec fn tenths_spec(n: int) -> int {
    (n * ONE + 5) / 10
}

/// Multiplies two unsigned fixed-point numbers.
pub fn times(a: u64, b: u64) -> (r: u64)
    ensures
        r == times_spec(a, b),
{
    assert(a * b <= u64::MAX * u64::MAX) by (nonlinear_arith)
        requires
            0 <= a <= u64::MAX,
            0 <= b <= u64::MAX,
    ;
    let wide: u128 = (a as u128) * (b as u128);
    let scaled: u128 = wide / (ONE as u128);
    if scaled > u64::MAX as u128 {
        u64::MAX
    } else {
        scaled as u64
    }
}

/// The fixed-point number nearest to `n / 10`.
pub fn tenths(n: u32) -> (r: u64)
    ensures
        r == tenths_spec(n as int),
{
    assert(n * ONE <= 0xffff_ffff * ONE) by (nonlinear_arith)
        requires
            0 <= n <= 0xffff_ffff,
    ;
    ((n as u64) * ONE + 5) / 10
}

/// A product never exceeds a factor when the other is at most one.
pub proof fn lemma_product_shrinks(a: int, b: int)
    requires
        0 <= a,
        0 <= b <= ONE,
    ensures
        0 <= product(a, b) <= a,
{
    assert(0 <= a * b <= a * ONE) by (nonlinear_arith)
        requires
            0 <= a,
            0 <= b <= ONE,
    ;
    assert(a * ONE / (ONE as int) == a) by (nonlinear_arith);
    assert(a * b / (ONE as int) <= a * ONE / (ONE as int)) by (nonlinear_arith)
        requires
            a * b <= a * ONE,
    ;
    assert(0 <= a * b / (ONE as int)) by (nonlinear_arith)
        requires
            0 <= a * b,
    ;
}

} // verus!
