//! Fixed-point helpers.
//!
//! Normalized quantities in the [0, 1] range are carried as integers in
//! units of one thousandth ("milli units"): 0 stands for 0.0 and
//! [`MILLI_ONE`] (1000) stands for 1.0.

use vstd::prelude::*;

verus! {

/// The fixed-point representation of 1.0: one thousand milli units.
pub const MILLI_ONE: u32 = 1000;

/// Clamp a value to at most [`MILLI_ONE`].
pub open spec fn spec_milli_clamp(v: int) -> int {
    if v > MILLI_ONE as int {
        MILLI_ONE as int
    } else {
        v
    }
}

/// Clamp an exec value to at most [`MILLI_ONE`].
pub fn milli_clamp(v: u32) -> (r: u32)
    ensures
        r == spec_milli_clamp(v as int),
        r <= MILLI_ONE,
{
    if v > MILLI_ONE {
        MILLI_ONE
    } else {
        v
    }
}

/// Scale a dimension by a milli-unit factor: `f * d / 1000`, never above
/// `d`.
pub fn scale_dim(f: u32, d: usize) -> (r: usize)
    requires
        f <= MILLI_ONE,
    ensures
        r == (f as int) * (d as int) / 1000,
        r <= d,
{
    proof {
        assert((f as int) * (d as int) <= 1000 * (d as int) && 0 <= (f as int) * (d as int) && (
        f as int) * (d as int) / 1000 <= d) by (nonlinear_arith)
            requires
                0 <= f <= 1000 && 0 <= d,
        ;
    }
    (((f as u128) * (d as u128)) / 1000) as usize
}

/// The milli-unit fraction `a * 1000 / d`, at most 1000 when `a <= d`.
pub fn milli_frac(a: usize, d: usize) -> (r: u32)
    requires
        a <= d,
        1 <= d,
    ensures
        r == (a as int) * 1000 / (d as int),
        r <= MILLI_ONE,
{
    proof {
        assert((a as int) * 1000 <= (d as int) * 1000 && 0 <= (a as int) * 1000 && (a as int)
            * 1000 / (d as int) <= 1000) by (nonlinear_arith)
            requires
                0 <= a <= d && 1 <= d,
        ;
    }
    (((a as u128) * 1000) / (d as u128)) as u32
}

/// The product of two milli-unit factors, itself a milli unit:
/// `a * b / 1000`.
pub fn milli_mul(a: u32, b: u32) -> (r: u32)
    requires
        a <= MILLI_ONE,
        b <= MILLI_ONE,
    ensures
        r == (a as int) * (b as int) / 1000,
        r <= MILLI_ONE,
{
    proof {
        assert((a as int) * (b as int) <= 1000 * 1000 && 0 <= (a as int) * (b as int))
            by (nonlinear_arith)
            requires
                0 <= a <= 1000 && 0 <= b <= 1000,
        ;
    }
    (a * b) / 1000
}

/// Re-sample index `a` of `d` into `0..n`: `a * n / d`, capped at `n - 1`.
pub fn resample_index(a: usize, d: usize, n: usize) -> (r: usize)
    requires
        1 <= d,
        1 <= n,
    ensures
        r == if (a as int) * (n as int) / (d as int) < n - 1 {
            (a as int) * (n as int) / (d as int)
        } else {
            n - 1
        },
        r < n,
{
    proof {
        assert(0 <= (a as int) * (n as int) <= u128::MAX) by (nonlinear_arith)
            requires
                0 <= a <= usize::MAX && 0 <= n <= usize::MAX,
        ;
    }
    let wide: u128 = ((a as u128) * (n as u128)) / (d as u128);
    if wide < (n - 1) as u128 {
        wide as usize
    } else {
        n - 1
    }
}

} // verus!
