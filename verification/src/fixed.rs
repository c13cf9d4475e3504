//! Fixed-point scalar arithmetic in micro-units.
//!
//! A scalar is an `i64` counting millionths: `SCALE` stands for `1.0`.
//! Additions and rescaled products saturate at the `i64` range, so every
//! operation here is total.

use vstd::prelude::*;

verus! {

/// Number of micro-units in one whole unit.
pub const SCALE: i64 = 1_000_000;

/// The value an out-of-range intermediate result is clipped to.
pub open spec fn clip(v: int) -> int {
    if v > i64::MAX as int {
        i64::MAX as int
    } else if v < i64::MIN as int {
        i64::MIN as int
    } else {
        v
    }
}

/// Division that truncates toward zero, the rounding used by all rescaling
/// here.
pub open spec fn tdiv(p: int, q: int) -> int
    recommends
        q > 0,
{
    if p >= 0 {
        p / q
    } else {
        -((-p) / q)
    }
}

pub open spec fn sat_add_spec(a: int, b: int) -> int {
    clip(a + b)
}

pub open spec fn sat_sub_spec(a: int, b: int) -> int {
    clip(a - b)
}

/// Product of two micro-unit scalars, rescaled back to micro-units and
/// clipped to the `i64` range.
pub open spec fn fmul_spec(a: int, b: int) -> int {
    clip(tdiv(a * b, SCALE as int))
}

/// Clamp a scalar to the closed interval `[-SCALE, SCALE]`, i.e. `[-1, 1]`.
pub open spec fn clamp_unit_spec(v: int) -> int {
    if v > SCALE as int {
        SCALE as int
    } else if v < -(SCALE as int) {
        -(SCALE as int)
    } else {
        v
    }
}

/// Saturating addition of two scalars.
pub fn sat_add(a: i64, b: i64) -> (r: i64)
    ensures
        r as int == sat_add_spec(a as int, b as int),
{
    let s: i128 = a as i128 + b as i128;
    if s > i64::MAX as i128 {
        i64::MAX
    } else if s < i64::MIN as i128 {
        i64::MIN
    } else {
        s as i64
    }
}

/// Saturating subtraction of two scalars.
pub fn sat_sub(a: i64, b: i64) -> (r: i64)
    ensures
        r as int == sat_sub_spec(a as int, b as int),
{
    let s: i128 = a as i128 - b as i128;
    if s > i64::MAX as i128 {
        i64::MAX
    } else if s < i64::MIN as i128 {
        i64::MIN
    } else {
        s as i64
    }
}

/// Saturating fixed-point product of two scalars.
pub fn fmul(a: i64, b: i64) -> (r: i64)
    ensures
        r as int == fmul_spec(a as int, b as int),
{
    proof {
        assert((a as int) * (b as int) <= 0x40000000000000000000000000000000
            && (a as int) * (b as int) >= -0x40000000000000000000000000000000) by (nonlinear_arith)
            requires
                -0x8000000000000000 <= a as int <= 0x7fffffffffffffff,
                -0x8000000000000000 <= b as int <= 0x7fffffffffffffff,
        ;
    }
    let p: i128 = (a as i128) * (b as i128);
    let neg: bool = p < 0;
    let mag: u128 = if neg {
        (-p) as u128
    } else {
        p as u128
    };
    let q: u128 = mag / (SCALE as u128);
    assert(q <= mag) by {
        vstd::arithmetic::div_mod::lemma_div_basics_5(mag as int, SCALE as int);
    }
    let s: i128 = if neg {
        -(q as i128)
    } else {
        q as i128
    };
    if s > i64::MAX as i128 {
        i64::MAX
    } else if s < i64::MIN as i128 {
        i64::MIN
    } else {
        s as i64
    }
}

/// Clamp a scalar to `[-1, 1]` in micro-units.
pub fn clamp_unit(v: i64) -> (r: i64)
    ensures
        r as int == clamp_unit_spec(v as int),
{
    if v > SCALE {
        SCALE
    } else if v < -SCALE {
        -SCALE
    } else {
        v
    }
}

/// Magnitude of the argument after clamping it to `[-1, 1]`; the angular
/// rates fed to the trigonometric approximations are clamped to that
/// interval by the dynamics, so the polynomials below only ever see it.
pub open spec fn unit_abs(x: int) -> int {
    if clamp_unit_spec(x) >= 0 {
        clamp_unit_spec(x)
    } else {
        -clamp_unit_spec(x)
    }
}

/// Fixed-point cosine by an even Maclaurin polynomial of degree six,
/// evaluated on the argument clamped to `[-1, 1]` radians.
pub open spec fn cos_fp_spec(x: int) -> int {
    let c = unit_abs(x);
    let x2 = (c * c) / (SCALE as int);
    let x4 = (x2 * x2) / (SCALE as int);
    let x6 = (x4 * x2) / (SCALE as int);
    SCALE as int - x2 / 2 + x4 / 24 - x6 / 720
}

/// Fixed-point sine by an odd Maclaurin polynomial of degree five,
/// evaluated on the argument clamped to `[-1, 1]` radians.
pub open spec fn sin_fp_spec(x: int) -> int {
    let c = unit_abs(x);
    let x2 = (c * c) / (SCALE as int);
    let x3 = (c * x2) / (SCALE as int);
    let x5 = (x3 * x2) / (SCALE as int);
    let m = c - x3 / 6 + x5 / 120;
    if clamp_unit_spec(x) < 0 {
        -m
    } else {
        m
    }
}

/// Fixed-point cosine of an angle in micro-radians.
pub fn cos_fp(x: i64) -> (r: i64)
    ensures
        r as int == cos_fp_spec(x as int),
{
    let c0: i64 = clamp_unit(x);
    let a: i64 = if c0 < 0 {
        -c0
    } else {
        c0
    };
    let au: u64 = a as u64;
    let su: u64 = SCALE as u64;
    proof {
        assert(au * au <= 1000000000000) by (nonlinear_arith)
            requires
                au <= 1000000,
        ;
    }
    let x2: u64 = (au * au) / su;
    proof {
        vstd::arithmetic::div_mod::lemma_div_is_ordered(
            (au * au) as int,
            1000000000000,
            su as int,
        );
        assert(x2 * x2 <= 1000000000000) by (nonlinear_arith)
            requires
                x2 <= 1000000,
        ;
    }
    let x4: u64 = (x2 * x2) / su;
    proof {
        vstd::arithmetic::div_mod::lemma_div_is_ordered(
            (x2 * x2) as int,
            1000000000000,
            su as int,
        );
        assert(x4 * x2 <= 1000000000000) by (nonlinear_arith)
            requires
                x4 <= 1000000,
                x2 <= 1000000,
        ;
    }
    let x6: u64 = (x4 * x2) / su;
    proof {
        vstd::arithmetic::div_mod::lemma_div_is_ordered(
            (x4 * x2) as int,
            1000000000000,
            su as int,
        );
    }
    SCALE - (x2 / 2) as i64 + (x4 / 24) as i64 - (x6 / 720) as i64
}

/// Fixed-point sine of an angle in micro-radians.
pub fn sin_fp(x: i64) -> (r: i64)
    ensures
        r as int == sin_fp_spec(x as int),
{
    let c0: i64 = clamp_unit(x);
    let a: i64 = if c0 < 0 {
        -c0
    } else {
        c0
    };
    let au: u64 = a as u64;
    let su: u64 = SCALE as u64;
    proof {
        assert(au * au <= 1000000000000) by (nonlinear_arith)
            requires
                au <= 1000000,
        ;
    }
    let x2: u64 = (au * au) / su;
    proof {
        vstd::arithmetic::div_mod::lemma_div_is_ordered(
            (au * au) as int,
            1000000000000,
            su as int,
        );
        assert(au * x2 <= 1000000000000) by (nonlinear_arith)
            requires
                au <= 1000000,
                x2 <= 1000000,
        ;
    }
    let x3: u64 = (au * x2) / su;
    proof {
        vstd::arithmetic::div_mod::lemma_div_is_ordered(
            (au * x2) as int,
            1000000000000,
            su as int,
        );
        assert(x3 * x2 <= 1000000000000) by (nonlinear_arith)
            requires
                x3 <= 1000000,
                x2 <= 1000000,
        ;
    }
    let x5: u64 = (x3 * x2) / su;
    proof {
        vstd::arithmetic::div_mod::lemma_div_is_ordered(
            (x3 * x2) as int,
            1000000000000,
            su as int,
        );
    }
    let m: i64 = a - (x3 / 6) as i64 + (x5 / 120) as i64;
    if c0 < 0 {
        -m
    } else {
        m
    }
}

/// Integer square root, rounded down; defined by counting up, which makes
/// it a function every implementation can be held to.
pub open spec fn sqrt_spec(n: nat) -> nat
    decreases n,
{
    if n == 0 {
        0
    } else {
        let r = sqrt_spec((n - 1) as nat);
        if (r + 1) * (r + 1) <= n {
            r + 1
        } else {
            r
        }
    }
}

/// The defining property of `sqrt_spec`: it is the greatest integer whose
/// square does not exceed the argument.
pub proof fn lemma_sqrt_spec_bounds(n: nat)
    ensures
        sqrt_spec(n) * sqrt_spec(n) <= n,
        n < (sqrt_spec(n) + 1) * (sqrt_spec(n) + 1),
    decreases n,
{
    if n == 0 {
        let s = sqrt_spec(n);
        assert(s == 0);
        assert((s + 1) * (s + 1) == 1) by (nonlinear_arith)
            requires
                s == 0,
        ;
    } else {
        lemma_sqrt_spec_bounds((n - 1) as nat);
        let r = sqrt_spec((n - 1) as nat);
        if (r + 1) * (r + 1) <= n {
            assert(sqrt_spec(n) == r + 1);
            assert(n <= (r + 1) * (r + 1));
            assert((r + 1) * (r + 1) < (r + 2) * (r + 2)) by (nonlinear_arith)
                requires
                    r >= 0,
            ;
            assert(sqrt_spec(n) + 1 == r + 2);
            assert(n < (r + 2) * (r + 2));
            assert(n < (sqrt_spec(n) + 1) * (sqrt_spec(n) + 1));
        } else {
            assert(sqrt_spec(n) == r);
            assert(n < (r + 1) * (r + 1));
            assert(n < (sqrt_spec(n) + 1) * (sqrt_spec(n) + 1));
        }
    }
}

/// Any integer bracketing the argument between consecutive squares is the
/// integer square root.
pub proof fn lemma_sqrt_unique(n: nat, r: nat)
    requires
        r * r <= n,
        n < (r + 1) * (r + 1),
    ensures
        r == sqrt_spec(n),
{
    lemma_sqrt_spec_bounds(n);
    let s = sqrt_spec(n);
    if r < s {
        assert((r + 1) * (r + 1) <= s * s) by (nonlinear_arith)
            requires
                r + 1 <= s,
        ;
    }
    if s < r {
        assert((s + 1) * (s + 1) <= r * r) by (nonlinear_arith)
            requires
                s + 1 <= r,
        ;
    }
}

/// Integer square root of a 128-bit value by binary search.
pub fn isqrt(n: u128) -> (r: u64)
    ensures
        r as nat == sqrt_spec(n as nat),
{
    let mut lo: u128 = 0;
    let mut hi: u128 = 0x1_0000_0000_0000_0000;
    proof {
        assert((hi as int) * (hi as int) > n as int) by (nonlinear_arith)
            requires
                hi == 0x1_0000_0000_0000_0000,
                (n as int) < 0x1_0000_0000_0000_0000 * 0x1_0000_0000_0000_0000,
        ;
    }
    while lo + 1 < hi
        invariant
            lo < hi,
            hi <= 0x1_0000_0000_0000_0000,
            (lo as int) * (lo as int) <= n as int,
            (n as int) < (hi as int) * (hi as int),
        decreases hi - lo,
    {
        let mid: u128 = lo + (hi - lo) / 2;
        assert(lo < mid < hi);
        proof {
            assert(mid * mid < 0x1_0000_0000_0000_0000 * 0x1_0000_0000_0000_0000)
                by (nonlinear_arith)
                requires
                    0 <= mid < 0x1_0000_0000_0000_0000,
            ;
        }
        if mid * mid <= n {
            lo = mid;
        } else {
            hi = mid;
        }
    }
    proof {
        assert(lo * lo < 0x1_0000_0000_0000_0000 * 0x1_0000_0000_0000_0000) by (nonlinear_arith)
            requires
                lo < 0x1_0000_0000_0000_0000,
                lo >= 0,
        ;
        lemma_sqrt_unique(n as nat, lo as nat);
    }
    lo as u64
}

} // verus!
