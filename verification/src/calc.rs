//! Fixed-point arithmetic at a fixed scale.
//!
//! Ratios and fees are plain integers carrying an implicit denominator of
//! [`PRECISION`]. All pool math goes through the two primitives below, which
//! truncate toward zero exactly as integer floor division does; every
//! rounding-direction guarantee downstream depends on that.

use vstd::prelude::*;
use vstd::arithmetic::div_mod::{
    lemma_div_is_ordered, lemma_div_multiples_vanish, lemma_div_pos_is_pos,
};
use vstd::arithmetic::mul::{lemma_mul_inequality, lemma_mul_is_commutative, lemma_mul_nonnegative};

verus! {

/// The fixed-point scale: one whole unit of a ratio or fee.
pub const PRECISION: u64 = 1_000_000;

/// What `multiply` returns: `(a * b) / PRECISION`, truncated toward zero.
pub open spec fn spec_multiply(a: int, b: int) -> int {
    (a * b) / (PRECISION as int)
}

/// What `divide` returns: the scaled ratio `(a * PRECISION) / b`, truncated
/// toward zero.
pub open spec fn spec_divide(a: int, b: int) -> int {
    (a * (PRECISION as int)) / b
}

/// Fixed-point product, where one operand carries the implicit scale.
pub fn multiply(a: u64, b: u64) -> (r: u64)
    requires
        a * b <= u64::MAX,
    ensures
        r == spec_multiply(a as int, b as int),
{
    let result: u64 = a * b;
    result / PRECISION
}

/// Fixed-point ratio of `a` to `b`. Division by zero is delegated to the
/// callers: the pool logic never passes a zero divisor.
pub fn divide(a: u64, b: u64) -> (r: u64)
    requires
        b != 0,
        a * PRECISION <= u64::MAX,
    ensures
        r == spec_divide(a as int, b as int),
{
    let a_scale: u64 = a * PRECISION;
    let result: u64 = a_scale / b;
    result
}

/// The product of two non-negative operands is non-negative.
pub proof fn lemma_multiply_nonneg(a: int, b: int)
    requires
        0 <= a,
        0 <= b,
    ensures
        0 <= spec_multiply(a, b),
{
    lemma_mul_nonnegative(a, b);
    lemma_div_pos_is_pos(a * b, PRECISION as int);
}

/// The ratio of two non-negative quantities is non-negative.
pub proof fn lemma_divide_nonneg(a: int, b: int)
    requires
        0 <= a,
        0 < b,
    ensures
        0 <= spec_divide(a, b),
{
    lemma_mul_nonnegative(a, PRECISION as int);
    lemma_div_pos_is_pos(a * (PRECISION as int), b);
}

/// Scaling a non-negative amount by a fraction of at most one whole unit
/// never yields more than the amount itself.
pub proof fn lemma_multiply_fraction_le(part: int, amount: int)
    requires
        0 <= part <= PRECISION,
        0 <= amount,
    ensures
        0 <= spec_multiply(part, amount) <= amount,
        0 <= spec_multiply(amount, part) <= amount,
{
    let s: int = PRECISION as int;
    lemma_multiply_nonneg(part, amount);
    lemma_multiply_nonneg(amount, part);
    lemma_mul_inequality(part, s, amount);
    lemma_div_is_ordered(part * amount, s * amount, s);
    lemma_div_multiples_vanish(amount, s);
    lemma_mul_is_commutative(part, amount);
}

/// Fixed-point multiplication is monotonic in either operand.
pub proof fn lemma_multiply_monotonic(a: int, b1: int, b2: int)
    requires
        0 <= a,
        b1 <= b2,
    ensures
        spec_multiply(a, b1) <= spec_multiply(a, b2),
        spec_multiply(b1, a) <= spec_multiply(b2, a),
{
    lemma_mul_inequality(b1, b2, a);
    lemma_div_is_ordered(b1 * a, b2 * a, PRECISION as int);
    lemma_mul_is_commutative(a, b1);
    lemma_mul_is_commutative(a, b2);
}

/// A ratio of a part to a larger whole is at most one whole unit.
pub proof fn lemma_divide_fraction_le_one(a: int, b: int)
    requires
        0 <= a <= b,
        0 < b,
    ensures
        0 <= spec_divide(a, b) <= PRECISION,
{
    let s: int = PRECISION as int;
    lemma_divide_nonneg(a, b);
    lemma_mul_inequality(a, b, s);
    lemma_div_is_ordered(a * s, b * s, b);
    lemma_mul_is_commutative(b, s);
    lemma_div_multiples_vanish(s, b);
}

/// A ratio of a whole to a part no larger than it is at least one whole unit.
pub proof fn lemma_divide_fraction_ge_one(a: int, b: int)
    requires
        0 < b <= a,
    ensures
        spec_divide(a, b) >= PRECISION,
{
    let s: int = PRECISION as int;
    lemma_mul_inequality(b, a, s);
    lemma_div_is_ordered(b * s, a * s, b);
    lemma_mul_is_commutative(b, s);
    lemma_div_multiples_vanish(s, b);
}

/// Dividing a quantity by its own value gives exactly one whole unit.
pub proof fn lemma_divide_self(a: int)
    requires
        0 < a,
    ensures
        spec_divide(a, a) == PRECISION,
{
    lemma_div_multiples_vanish(PRECISION as int, a);
    lemma_mul_is_commutative(a, PRECISION as int);
}

/// Scaling by exactly one whole unit is the identity.
pub proof fn lemma_multiply_by_one_unit(a: int)
    requires
        0 <= a,
    ensures
        spec_multiply(PRECISION as int, a) == a,
        spec_multiply(a, PRECISION as int) == a,
{
    let s: int = PRECISION as int;
    lemma_div_multiples_vanish(a, s);
    lemma_mul_is_commutative(a, s);
}

} // verus!
