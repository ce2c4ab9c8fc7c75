//! Integer trigonometry on whole degrees.
//!
//! Sine and cosine in milli units (1000 = 1.0), computed with a rational
//! approximation that is exact at multiples of 90 degrees and within a few
//! milli units elsewhere — plenty for placing pixels.

use vstd::prelude::*;

verus! {

/// The rational sine approximation on `0..=180` degrees, in milli units:
/// `4 d (180 - d) * 1000 / (40500 - d (180 - d))`.
pub open spec fn spec_sin_half(d: int) -> int {
    4 * d * (180 - d) * 1000 / (40500 - d * (180 - d))
}

/// Sine of an angle in whole degrees, in milli units.
pub open spec fn spec_sin_deg(deg: int) -> int {
    let d = deg % 360;
    if d <= 180 {
        spec_sin_half(d)
    } else {
        -spec_sin_half(d - 180)
    }
}

/// Cosine of an angle in whole degrees, in milli units.
pub open spec fn spec_cos_deg(deg: int) -> int {
    spec_sin_deg(deg + 90)
}

proof fn lemma_sin_half_bounds(d: int)
    by (nonlinear_arith)
    requires
        0 <= d <= 180,
    ensures
        0 <= spec_sin_half(d) <= 1000,
{
    let n = d * (180 - d);
    assert(0 <= n <= 8100);
    assert(4 * n * 1000 <= 1000 * (40500 - n)) by {
        assert((40500 - n) * 1000 - 4 * n * 1000 == (40500 - 5 * n) * 1000);
    };
}

/// Sine of `deg` degrees in milli units, between -1000 and 1000.
pub fn sin_deg(deg: u32) -> (r: i32)
    ensures
        r == spec_sin_deg(deg as int),
        -1000 <= r <= 1000,
{
    let d: u32 = deg % 360;
    if d <= 180 {
        proof {
            lemma_sin_half_bounds(d as int);
            assert((d as int) * (180 - d as int) <= 8100 && 0 <= (d as int) * (180 - d as int))
                by (nonlinear_arith)
                requires
                    0 <= d <= 180,
            ;
        }
        let n: u32 = d * (180 - d);
        proof {
            assert(4 * (d as int) * (180 - d as int) * 1000 == 4 * (n as int) * 1000)
                by (nonlinear_arith)
                requires
                    n == d * (180 - d as int),
            ;
        }
        ((4 * n * 1000) / (40500 - n)) as i32
    } else {
        let e: u32 = d - 180;
        proof {
            lemma_sin_half_bounds(e as int);
            assert((e as int) * (180 - e as int) <= 8100 && 0 <= (e as int) * (180 - e as int))
                by (nonlinear_arith)
                requires
                    0 <= e <= 180,
            ;
        }
        let n: u32 = e * (180 - e);
        proof {
            assert(4 * (e as int) * (180 - e as int) * 1000 == 4 * (n as int) * 1000)
                by (nonlinear_arith)
                requires
                    n == e * (180 - e as int),
            ;
        }
        -(((4 * n * 1000) / (40500 - n)) as i32)
    }
}

/// Cosine of `deg` degrees in milli units, between -1000 and 1000.
pub fn cos_deg(deg: u32) -> (r: i32)
    requires
        deg + 90 <= u32::MAX,
    ensures
        r == spec_cos_deg(deg as int),
        -1000 <= r <= 1000,
{
    let r = sin_deg(deg + 90);
    proof {
        assert((deg + 90) % 360 == ((deg + 90) as int) % 360);
    }
    r
}

} // verus!
