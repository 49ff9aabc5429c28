//! Integer helpers: saturating products, rounded quotients, and the rounding of integers to a
//! binary significand of fixed width.
use vstd::prelude::*;

verus! {

/// The smaller of two integers.
pub open spec fn least(a: int, b: int) -> int {
    if a <= b {
        a
    } else {
        b
    }
}

/// The larger of two integers.
pub open spec fn greatest(a: int, b: int) -> int {
    if a >= b {
        a
    } else {
        b
    }
}

/// `n` cut off at `usize::MAX`.
pub open spec fn capped(n: nat) -> nat {
    if n > usize::MAX {
        usize::MAX as nat
    } else {
        n
    }
}

/// `a - b`, or zero where `b` is larger.
pub open spec fn monus(a: nat, b: nat) -> nat {
    if a >= b {
        (a - b) as nat
    } else {
        0
    }
}

/// The distance between two integers.
pub open spec fn distance(a: int, b: int) -> int {
    if a >= b {
        a - b
    } else {
        b - a
    }
}

pub fn min_usize(a: usize, b: usize) -> (r: usize)
    ensures
        r == least(a as int, b as int),
{
    if a <= b {
        a
    } else {
        b
    }
}

pub fn max_usize(a: usize, b: usize) -> (r: usize)
    ensures
        r == greatest(a as int, b as int),
{
    if a >= b {
        a
    } else {
        b
    }
}

pub fn min_u32(a: u32, b: u32) -> (r: u32)
    ensures
        r == least(a as int, b as int),
{
    if a <= b {
        a
    } else {
        b
    }
}

pub fn max_u32(a: u32, b: u32) -> (r: u32)
    ensures
        r == greatest(a as int, b as int),
{
    if a >= b {
        a
    } else {
        b
    }
}

pub fn min_u64(a: u64, b: u64) -> (r: u64)
    ensures
        r == least(a as int, b as int),
{
    if a <= b {
        a
    } else {
        b
    }
}

pub fn max_u64(a: u64, b: u64) -> (r: u64)
    ensures
        r == greatest(a as int, b as int),
{
    if a >= b {
        a
    } else {
        b
    }
}

pub fn abs_diff_u32(a: u32, b: u32) -> (r: u32)
    ensures
        r == distance(a as int, b as int),
{
    if a >= b {
        a - b
    } else {
        b - a
    }
}

pub fn saturating_mul_u32(a: u32, b: u32) -> (r: u32)
    ensures
        r == least(a * b, u32::MAX as int),
{
    match a.checked_mul(b) {
        Some(product) => product,
        None => u32::MAX,
    }
}

pub fn saturating_mul_usize(a: usize, b: usize) -> (r: usize)
    ensures
        r == capped((a * b) as nat),
{
    match a.checked_mul(b) {
        Some(product) => {
            assert(a * b >= 0) by (nonlinear_arith)
                requires
                    a >= 0,
                    b >= 0,
            ;
            product
        },
        None => {
            assert(a * b >= 0) by (nonlinear_arith)
                requires
                    a >= 0,
                    b >= 0,
            ;
            usize::MAX
        },
    }
}

/// The smallest `unit * 2^k` that brings `n / (unit * 2^k)` below `limit`.
pub open spec fn rounding_unit(n: nat, limit: nat, unit: nat) -> nat
    decreases monus(n + 1, unit),
{
    if unit == 0 || limit == 0 || n / unit < limit || n < unit {
        unit
    } else {
        rounding_unit(n, limit, 2 * unit)
    }
}

/// `n` rounded to a multiple of `unit`, to nearest, ties to the even multiple.
pub open spec fn round_to_multiple(n: nat, unit: nat) -> nat
    recommends
        unit > 0,
{
    let quotient = n / unit;
    let remainder = n % unit;
    if 2 * remainder > unit || (2 * remainder == unit && quotient % 2 == 1) {
        (quotient + 1) * unit
    } else {
        quotient * unit
    }
}

/// `n` rounded to a significand of `log2(limit)` bits, to nearest, ties to even: the value that
/// a binary floating-point format of that precision holds for `n`.
pub open spec fn rounded_to_significand(n: nat, limit: nat) -> nat {
    round_to_multiple(n, rounding_unit(n, limit, 1))
}

/// Computes [`rounded_to_significand`] for any significand of at least one bit.
pub fn round_to_significand(n: u64, limit: u64) -> (r: u128)
    requires
        limit >= 2,
    ensures
        r == rounded_to_significand(n as nat, limit as nat),
        r <= 2 * n,
{
    let wide: u128 = n as u128;
    let bound: u128 = limit as u128;
    let mut unit: u128 = 1;
    while wide / unit >= bound && wide >= unit
        invariant
            1 <= unit <= 2 * u64::MAX as u128,
            unit <= 1 || unit <= wide,
            wide == n,
            bound == limit,
            limit >= 2,
            rounding_unit(n as nat, limit as nat, 1) == rounding_unit(
                n as nat,
                limit as nat,
                unit as nat,
            ),
        decreases wide + 1 - unit,
    {
        assert(2 * unit <= wide) by (nonlinear_arith)
            requires
                wide / unit >= bound,
                bound >= 2,
                unit >= 1,
        ;
        unit = unit * 2;
    }
    let quotient: u128 = wide / unit;
    let remainder: u128 = wide % unit;
    assert(quotient * unit + remainder == wide && remainder < unit && quotient * unit <= wide)
        by (nonlinear_arith)
        requires
            unit >= 1,
            quotient == wide / unit,
            remainder == wide % unit,
    ;
    if 2 * remainder > unit || (2 * remainder == unit && quotient % 2 == 1) {
        assert((quotient + 1) * unit == quotient * unit + unit) by (nonlinear_arith);
        assert(2 * remainder >= unit);
        assert(unit <= wide || wide == 0 || unit == 1);
        (quotient + 1) * unit
    } else {
        quotient * unit
    }
}

/// Rounding changes a number by no more than its `limit`-th part.
pub proof fn law_rounding_changes_little(n: nat, limit: nat)
    requires
        limit >= 2,
    ensures
        limit * rounded_to_significand(n, limit) <= limit * n + n,
        limit * n <= limit * rounded_to_significand(n, limit) + n,
        n < limit ==> rounded_to_significand(n, limit) == n,
{
    lemma_rounding_unit(n, limit, 1);
    let unit = rounding_unit(n, limit, 1);
    let quotient = n / unit;
    let remainder = n % unit;
    assert(quotient * unit + remainder == n && remainder < unit) by (nonlinear_arith)
        requires
            unit >= 1,
            quotient == n / unit,
            remainder == n % unit,
    ;
    assert((quotient + 1) * unit == quotient * unit + unit) by (nonlinear_arith);
    let rounded = rounded_to_significand(n, limit);
    if unit == 1 {
        assert(rounded == n);
    } else {
        assert(2 * rounded <= 2 * n + unit && 2 * n <= 2 * rounded + unit);
        assert(limit * (2 * rounded) <= limit * (2 * n + unit) && limit * (2 * n) <= limit * (2
            * rounded + unit)) by (nonlinear_arith)
            requires
                2 * rounded <= 2 * n + unit,
                2 * n <= 2 * rounded + unit,
        ;
        assert(limit * (2 * n + unit) == 2 * (limit * n) + unit * limit && limit * (2 * rounded
            + unit) == 2 * (limit * rounded) + unit * limit && limit * (2 * rounded) == 2 * (limit
            * rounded) && limit * (2 * n) == 2 * (limit * n)) by (nonlinear_arith);
        if n < limit {
            assert(n / 1 < limit);
        }
    }
}

proof fn lemma_rounding_unit(n: nat, limit: nat, unit: nat)
    requires
        unit >= 1,
        limit >= 2,
    ensures
        rounding_unit(n, limit, unit) >= unit,
        rounding_unit(n, limit, unit) == unit || rounding_unit(n, limit, unit) * limit <= 2 * n,
        n / unit < limit ==> rounding_unit(n, limit, unit) == unit,
    decreases monus(n + 1, unit),
{
    if !(n / unit < limit || n < unit) {
        lemma_rounding_unit(n, limit, 2 * unit);
        assert((2 * unit) * limit <= 2 * n) by (nonlinear_arith)
            requires
                n / unit >= limit,
                unit >= 1,
        ;
    }
}

} // verus!
