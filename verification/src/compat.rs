//! Random fractions.
//!
//! A fraction is a count of `ONE`-ths: `0` stands for zero and `ONE` for one.

use vstd::prelude::*;
use vstd::arithmetic::div_mod::lemma_fundamental_div_mod;
use crate::geom::floor_units;
use crate::geom::ONE;

verus! {

/// Thirty-two bits from the thread's random number generator.
///
/// Calls `rand::random::<u32>()`. Nothing is claimed of the value: any
/// `u32` may come back, and two calls need not agree.
#[verifier::external_body]
fn random_bits() -> (bits: u32) {
    rand::random::<u32>()
}

/// The fraction that the upper half of `bits` spells.
pub open spec fn fraction_of_bits(bits: u32) -> int {
    bits as int / ONE as int
}

/// Turns random bits into a fraction in `[0, ONE)`: the upper sixteen bits.
pub fn fraction_from_bits(bits: u32) -> (f: i64)
    ensures
        f == fraction_of_bits(bits),
        0 <= f < ONE,
{
    (bits / 65536) as i64
}

/// A random fraction in `[0, ONE)`.
pub fn rand() -> (f: i64)
    ensures
        0 <= f < ONE,
{
    fraction_from_bits(random_bits())
}

/// The point that lies the fraction `f` of the way from `min` to `max`,
/// rounded down to a whole unit.
pub open spec fn between(min: int, max: int, f: int) -> int {
    min + ((max - min) * f) / ONE as int
}

/// For a fraction in `[0, ONE]` the point lies between the two ends.
pub proof fn lemma_between_bounds(min: int, max: int, f: int)
    requires
        0 <= f <= ONE,
    ensures
        min <= max ==> min <= between(min, max, f) <= max,
        max <= min ==> max <= between(min, max, f) <= min,
        min < max && f < ONE ==> between(min, max, f) < max,
        between(min, max, 0) == min,
        between(min, max, ONE as int) == max,
{
    let d = max - min;
    let one = ONE as int;
    let q = (d * f) / one;
    lemma_fundamental_div_mod(d * f, one);
    assert(d * f == one * q + (d * f) % one);
    assert(0 <= (d * f) % one < one);
    if d >= 0 {
        assert(0 <= d * f <= d * one) by (nonlinear_arith)
            requires 0 <= d, 0 <= f <= one;
        assert(0 <= q <= d) by (nonlinear_arith)
            requires d * f == one * q + (d * f) % one, 0 <= (d * f) % one < one, 0 <= d * f <= d * one, one > 0;
        if d > 0 && f < one {
            assert(d * f < d * one) by (nonlinear_arith)
                requires 0 < d, 0 <= f < one;
            assert(q < d) by (nonlinear_arith)
                requires d * f == one * q + (d * f) % one, 0 <= (d * f) % one < one, d * f < d * one, one > 0;
        }
    }
    if d <= 0 {
        assert(d * one <= d * f <= 0) by (nonlinear_arith)
            requires d <= 0, 0 <= f <= one;
        assert(d <= q <= 0) by (nonlinear_arith)
            requires d * f == one * q + (d * f) % one, 0 <= (d * f) % one < one, d * one <= d * f <= 0, one > 0;
    }
    assert((d * 0) / one == 0) by (nonlinear_arith) requires one > 0;
    assert((d * one) / one == d) by (nonlinear_arith) requires one > 0;
}

/// The point that lies the fraction `f` of the way from `min` to `max`.
pub fn randrng_at(min: i64, max: i64, f: i64) -> (r: i64)
    requires
        0 <= f <= ONE,
    ensures
        r == between(min as int, max as int, f as int),
{
    proof {
        lemma_between_bounds(min as int, max as int, f as int);
    }
    let d: i128 = max as i128 - min as i128;
    let p: i128 = d * (f as i128);
    let q: i128 = floor_units(p);
    (min as i128 + q) as i64
}

/// A random point between `min` and `max`: `min` itself or beyond it, and
/// short of `max` wherever the two differ.
pub fn randrng(min: i64, max: i64) -> (r: i64)
    ensures
        exists|f: int| 0 <= f < ONE && r == between(min as int, max as int, f),
        min <= max ==> min <= r <= max,
        max <= min ==> max <= r <= min,
        min < max ==> r < max,
{
    let f = rand();
    proof {
        lemma_between_bounds(min as int, max as int, f as int);
    }
    randrng_at(min, max, f)
}

} // verus!
