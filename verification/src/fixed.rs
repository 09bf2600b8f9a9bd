//! Fixed-point scalar arithmetic.
//!
//! A quantity is an `i64` counting ten-thousandths, so `SCALE` (10 000)
//! stands for `1.0`.  Every operation clips its result to the magnitude
//! bound `FX_MAX`, so the arithmetic is closed over well-formed scalars and
//! free of overflow.  Division truncates toward zero; division by zero
//! yields zero.  Trigonometry works in degrees from a quarter-wave table
//! with linear interpolation between whole degrees.

use vstd::arithmetic::div_mod::{
    lemma_fundamental_div_mod, lemma_mod_multiples_vanish, lemma_small_mod,
};
use vstd::prelude::*;

verus! {

/// Number of fixed-point units in one whole (`1.0`).
pub const SCALE: i64 = 10_000;

/// Largest magnitude a well-formed scalar may have (one million wholes).
pub const FX_MAX: i64 = 10_000_000_000;

/// One full turn, in fixed-point degrees.
pub const DEG_FULL: i64 = 3_600_000;

/// A quarter turn, in fixed-point degrees.
pub const DEG_QUARTER: i64 = 900_000;

/// A scalar is well-formed when its magnitude is at most `FX_MAX`.
pub open spec fn fx_wf(v: int) -> bool {
    -(FX_MAX as int) <= v <= FX_MAX as int
}

pub open spec fn spec_abs(v: int) -> int {
    if v < 0 {
        -v
    } else {
        v
    }
}

/// Clip a value into the well-formed range.
pub open spec fn spec_clip(v: int) -> int {
    if v > FX_MAX as int {
        FX_MAX as int
    } else if v < -(FX_MAX as int) {
        -(FX_MAX as int)
    } else {
        v
    }
}

/// Clip a non-negative magnitude from above.
pub open spec fn spec_mag_clip(m: int) -> int {
    if m > FX_MAX as int {
        FX_MAX as int
    } else {
        m
    }
}

pub open spec fn spec_fx_add(a: int, b: int) -> int {
    spec_clip(a + b)
}

pub open spec fn spec_fx_sub(a: int, b: int) -> int {
    spec_clip(a - b)
}

/// Truncating fixed-point product: `a * b / SCALE`, rounded toward zero and
/// clipped.
pub open spec fn spec_fx_mul(a: int, b: int) -> int {
    let m = spec_mag_clip((spec_abs(a) * spec_abs(b)) / (SCALE as int));
    if (a < 0) != (b < 0) {
        -m
    } else {
        m
    }
}

/// Truncating fixed-point quotient: `a * SCALE / b`, rounded toward zero and
/// clipped; zero when the divisor is zero.
pub open spec fn spec_fx_div(a: int, b: int) -> int {
    if b == 0 {
        0
    } else {
        let m = spec_mag_clip((spec_abs(a) * SCALE as int) / spec_abs(b));
        if (a < 0) != (b < 0) {
            -m
        } else {
            m
        }
    }
}

/// Mathematical (Euclidean) remainder by one full turn: always in
/// `[0, DEG_FULL)`.
pub open spec fn spec_fx_mod360(v: int) -> int {
    v % (DEG_FULL as int)
}

pub fn fx_add(a: i64, b: i64) -> (r: i64)
    requires
        fx_wf(a as int),
        fx_wf(b as int),
    ensures
        r as int == spec_fx_add(a as int, b as int),
        fx_wf(r as int),
{
    let s: i64 = a + b;
    if s > FX_MAX {
        FX_MAX
    } else if s < -FX_MAX {
        -FX_MAX
    } else {
        s
    }
}

pub fn fx_sub(a: i64, b: i64) -> (r: i64)
    requires
        fx_wf(a as int),
        fx_wf(b as int),
    ensures
        r as int == spec_fx_sub(a as int, b as int),
        fx_wf(r as int),
{
    let s: i64 = a - b;
    if s > FX_MAX {
        FX_MAX
    } else if s < -FX_MAX {
        -FX_MAX
    } else {
        s
    }
}

pub fn fx_mul(a: i64, b: i64) -> (r: i64)
    requires
        fx_wf(a as int),
        fx_wf(b as int),
    ensures
        r as int == spec_fx_mul(a as int, b as int),
        fx_wf(r as int),
{
    let neg: bool = (a < 0) != (b < 0);
    let ma: u128 = (if a < 0 {
        -a
    } else {
        a
    }) as u128;
    let mb: u128 = (if b < 0 {
        -b
    } else {
        b
    }) as u128;
    proof {
        assert(ma as int == spec_abs(a as int));
        assert(mb as int == spec_abs(b as int));
        assert(ma * mb <= 100_000_000_000_000_000_000u128) by (nonlinear_arith)
            requires
                ma <= 10_000_000_000u128,
                mb <= 10_000_000_000u128,
        ;
    }
    let prod: u128 = ma * mb;
    let q: u128 = prod / 10_000u128;
    let m: i64 = if q > 10_000_000_000u128 {
        FX_MAX
    } else {
        q as i64
    };
    if neg {
        -m
    } else {
        m
    }
}

pub fn fx_div(a: i64, b: i64) -> (r: i64)
    requires
        fx_wf(a as int),
        fx_wf(b as int),
    ensures
        r as int == spec_fx_div(a as int, b as int),
        fx_wf(r as int),
{
    if b == 0 {
        return 0;
    }
    let neg: bool = (a < 0) != (b < 0);
    let ma: u128 = (if a < 0 {
        -a
    } else {
        a
    }) as u128;
    let mb: u128 = (if b < 0 {
        -b
    } else {
        b
    }) as u128;
    proof {
        assert(ma as int == spec_abs(a as int));
        assert(mb as int == spec_abs(b as int));
        assert(ma * 10_000u128 <= 100_000_000_000_000u128) by (nonlinear_arith)
            requires
                ma <= 10_000_000_000u128,
        ;
    }
    let q: u128 = (ma * 10_000u128) / mb;
    let m: i64 = if q > 10_000_000_000u128 {
        FX_MAX
    } else {
        q as i64
    };
    if neg {
        -m
    } else {
        m
    }
}

pub fn fx_abs(v: i64) -> (r: i64)
    requires
        fx_wf(v as int),
    ensures
        r as int == spec_abs(v as int),
        fx_wf(r as int),
{
    if v < 0 {
        -v
    } else {
        v
    }
}

/// Sign of a scalar, as a fixed-point whole: -1.0, 0.0 or 1.0.
pub open spec fn spec_fx_sig(v: int) -> int {
    if v > 0 {
        SCALE as int
    } else if v < 0 {
        -(SCALE as int)
    } else {
        0
    }
}

pub fn fx_sig(v: i64) -> (r: i64)
    requires
        fx_wf(v as int),
    ensures
        r as int == spec_fx_sig(v as int),
        fx_wf(r as int),
{
    if v > 0 {
        SCALE
    } else if v < 0 {
        -SCALE
    } else {
        0
    }
}

pub open spec fn spec_fx_max(a: int, b: int) -> int {
    if a >= b {
        a
    } else {
        b
    }
}

pub open spec fn spec_fx_min(a: int, b: int) -> int {
    if a <= b {
        a
    } else {
        b
    }
}

pub fn fx_max(a: i64, b: i64) -> (r: i64)
    ensures
        r as int == spec_fx_max(a as int, b as int),
{
    if a >= b {
        a
    } else {
        b
    }
}

pub fn fx_min(a: i64, b: i64) -> (r: i64)
    ensures
        r as int == spec_fx_min(a as int, b as int),
{
    if a <= b {
        a
    } else {
        b
    }
}

/// Clamp into `[lo, hi]`: `lo` wins below, `hi` wins above.
pub open spec fn spec_fx_clamp(v: int, lo: int, hi: int) -> int {
    if v < lo {
        lo
    } else if v > hi {
        hi
    } else {
        v
    }
}

pub fn fx_clamp(v: i64, lo: i64, hi: i64) -> (r: i64)
    requires
        lo <= hi,
    ensures
        r as int == spec_fx_clamp(v as int, lo as int, hi as int),
{
    if v < lo {
        lo
    } else if v > hi {
        hi
    } else {
        v
    }
}

pub fn fx_mod360(v: i64) -> (r: i64)
    requires
        fx_wf(v as int),
    ensures
        r as int == spec_fx_mod360(v as int),
        0 <= r < DEG_FULL,
{
    let m: u64 = 3_600_000u64;
    if v >= 0 {
        let u: u64 = (v as u64) % m;
        proof {
            lemma_small_mod((u as nat), (m as nat));
        }
        u as i64
    } else {
        let u: u64 = ((-v) as u64) % m;
        proof {
            let mi: int = m as int;
            let vi: int = v as int;
            let q: int = (-vi) / mi;
            lemma_fundamental_div_mod(-vi, mi);
            assert(-vi == mi * q + (u as int));
            if u == 0 {
                assert(vi == mi * (-q));
                lemma_mod_multiples_vanish(-q, 0, mi);
                assert(vi % mi == 0);
            } else {
                assert(vi == mi * (-q - 1) + (mi - u as int));
                lemma_mod_multiples_vanish(-q - 1, mi - u as int, mi);
                lemma_small_mod(((mi - u as int) as nat), (mi as nat));
                assert(vi % mi == mi - u as int);
            }
        }
        if u == 0 {
            0
        } else {
            m as i64 - u as i64
        }
    }
}

/// Fixed-point sine of whole degrees in the first quadrant, scaled so that
/// `sin 90 = SCALE`.
pub open spec fn spec_sin_quarter(k: int) -> int {
    if k <= 0 { 0 }
    else if k == 1 { 175 } else if k == 2 { 349 } else if k == 3 { 523 }
    else if k == 4 { 698 } else if k == 5 { 872 } else if k == 6 { 1045 }
    else if k == 7 { 1219 } else if k == 8 { 1392 } else if k == 9 { 1564 }
    else if k == 10 { 1736 } else if k == 11 { 1908 } else if k == 12 { 2079 }
    else if k == 13 { 2250 } else if k == 14 { 2419 } else if k == 15 { 2588 }
    else if k == 16 { 2756 } else if k == 17 { 2924 } else if k == 18 { 3090 }
    else if k == 19 { 3256 } else if k == 20 { 3420 } else if k == 21 { 3584 }
    else if k == 22 { 3746 } else if k == 23 { 3907 } else if k == 24 { 4067 }
    else if k == 25 { 4226 } else if k == 26 { 4384 } else if k == 27 { 4540 }
    else if k == 28 { 4695 } else if k == 29 { 4848 } else if k == 30 { 5000 }
    else if k == 31 { 5150 } else if k == 32 { 5299 } else if k == 33 { 5446 }
    else if k == 34 { 5592 } else if k == 35 { 5736 } else if k == 36 { 5878 }
    else if k == 37 { 6018 } else if k == 38 { 6157 } else if k == 39 { 6293 }
    else if k == 40 { 6428 } else if k == 41 { 6561 } else if k == 42 { 6691 }
    else if k == 43 { 6820 } else if k == 44 { 6947 } else if k == 45 { 7071 }
    else if k == 46 { 7193 } else if k == 47 { 7314 } else if k == 48 { 7431 }
    else if k == 49 { 7547 } else if k == 50 { 7660 } else if k == 51 { 7771 }
    else if k == 52 { 7880 } else if k == 53 { 7986 } else if k == 54 { 8090 }
    else if k == 55 { 8192 } else if k == 56 { 8290 } else if k == 57 { 8387 }
    else if k == 58 { 8480 } else if k == 59 { 8572 } else if k == 60 { 8660 }
    else if k == 61 { 8746 } else if k == 62 { 8829 } else if k == 63 { 8910 }
    else if k == 64 { 8988 } else if k == 65 { 9063 } else if k == 66 { 9135 }
    else if k == 67 { 9205 } else if k == 68 { 9272 } else if k == 69 { 9336 }
    else if k == 70 { 9397 } else if k == 71 { 9455 } else if k == 72 { 9511 }
    else if k == 73 { 9563 } else if k == 74 { 9613 } else if k == 75 { 9659 }
    else if k == 76 { 9703 } else if k == 77 { 9744 } else if k == 78 { 9781 }
    else if k == 79 { 9816 } else if k == 80 { 9848 } else if k == 81 { 9877 }
    else if k == 82 { 9903 } else if k == 83 { 9925 } else if k == 84 { 9945 }
    else if k == 85 { 9962 } else if k == 86 { 9976 } else if k == 87 { 9986 }
    else if k == 88 { 9994 } else if k == 89 { 9998 } else { 10000 }
}

fn sin_quarter(k: u64) -> (r: i64)
    requires
        k <= 90,
    ensures
        r as int == spec_sin_quarter(k as int),
{
    match k {
        0 => 0, 1 => 175, 2 => 349, 3 => 523, 4 => 698, 5 => 872, 6 => 1045,
        7 => 1219, 8 => 1392, 9 => 1564, 10 => 1736, 11 => 1908, 12 => 2079,
        13 => 2250, 14 => 2419, 15 => 2588, 16 => 2756, 17 => 2924, 18 => 3090,
        19 => 3256, 20 => 3420, 21 => 3584, 22 => 3746, 23 => 3907, 24 => 4067,
        25 => 4226, 26 => 4384, 27 => 4540, 28 => 4695, 29 => 4848, 30 => 5000,
        31 => 5150, 32 => 5299, 33 => 5446, 34 => 5592, 35 => 5736, 36 => 5878,
        37 => 6018, 38 => 6157, 39 => 6293, 40 => 6428, 41 => 6561, 42 => 6691,
        43 => 6820, 44 => 6947, 45 => 7071, 46 => 7193, 47 => 7314, 48 => 7431,
        49 => 7547, 50 => 7660, 51 => 7771, 52 => 7880, 53 => 7986, 54 => 8090,
        55 => 8192, 56 => 8290, 57 => 8387, 58 => 8480, 59 => 8572, 60 => 8660,
        61 => 8746, 62 => 8829, 63 => 8910, 64 => 8988, 65 => 9063, 66 => 9135,
        67 => 9205, 68 => 9272, 69 => 9336, 70 => 9397, 71 => 9455, 72 => 9511,
        73 => 9563, 74 => 9613, 75 => 9659, 76 => 9703, 77 => 9744, 78 => 9781,
        79 => 9816, 80 => 9848, 81 => 9877, 82 => 9903, 83 => 9925, 84 => 9945,
        85 => 9962, 86 => 9976, 87 => 9986, 88 => 9994, 89 => 9998, _ => 10000,
    }
}

/// Sine of a whole number of degrees anywhere on the circle, by quadrant
/// symmetry from the quarter-wave table.
pub open spec fn spec_sin_whole(k: int) -> int {
    if k <= 90 {
        spec_sin_quarter(k)
    } else if k <= 180 {
        spec_sin_quarter(180 - k)
    } else if k <= 270 {
        -spec_sin_quarter(k - 180)
    } else {
        -spec_sin_quarter(360 - k)
    }
}

fn sin_whole(k: u64) -> (r: i64)
    requires
        k <= 360,
    ensures
        r as int == spec_sin_whole(k as int),
        -10_000 <= r <= 10_000,
{
    if k <= 90 {
        sin_quarter(k)
    } else if k <= 180 {
        sin_quarter(180 - k)
    } else if k <= 270 {
        -sin_quarter(k - 180)
    } else {
        -sin_quarter(360 - k)
    }
}

/// Sine of a fixed-point quantity of degrees: the angle is reduced to
/// `[0, 360)` and the table is interpolated linearly between whole degrees.
pub open spec fn spec_fx_sin(v: int) -> int {
    let d = spec_fx_mod360(v);
    let k = d / (SCALE as int);
    let f = d % (SCALE as int);
    let s1 = spec_sin_whole(k);
    let s2 = spec_sin_whole(k + 1);
    s1 + spec_fx_mul(s2 - s1, f)
}

/// Cosine, defined as the sine a quarter turn ahead.
pub open spec fn spec_fx_cos(v: int) -> int {
    spec_fx_sin(spec_fx_mod360(v) + DEG_QUARTER as int)
}

pub fn fx_sin(v: i64) -> (r: i64)
    requires
        fx_wf(v as int),
    ensures
        r as int == spec_fx_sin(v as int),
        -10_000 <= r <= 10_000,
{
    let d: i64 = fx_mod360(v);
    let k: u64 = (d as u64) / 10_000u64;
    let f: i64 = ((d as u64) % 10_000u64) as i64;
    proof {
        assert(k as int == (d as int) / (SCALE as int));
        assert(f as int == (d as int) % (SCALE as int));
        assert(k < 360) by (nonlinear_arith)
            requires
                k as int == (d as int) / (SCALE as int),
                0 <= d < DEG_FULL,
        ;
    }
    let s1: i64 = sin_whole(k);
    let s2: i64 = sin_whole(k + 1);
    let step: i64 = fx_mul(s2 - s1, f);
    proof {
        assert(spec_abs(step as int) <= spec_abs((s2 - s1) as int)) by (nonlinear_arith)
            requires
                step as int == spec_fx_mul((s2 - s1) as int, f as int),
                0 <= f < 10_000,
                -20_000 <= s2 - s1 <= 20_000,
        ;
    }
    s1 + step
}

pub fn fx_cos(v: i64) -> (r: i64)
    requires
        fx_wf(v as int),
    ensures
        r as int == spec_fx_cos(v as int),
        -10_000 <= r <= 10_000,
{
    let d: i64 = fx_mod360(v);
    fx_sin(d + DEG_QUARTER)
}

/// Round a scalar to a whole, non-negative recursion depth: negative values
/// round to zero, others to the nearest whole.
pub open spec fn spec_depth_of(v: int) -> int {
    if v <= 0 {
        0
    } else {
        (v + 5_000) / (SCALE as int)
    }
}

pub fn depth_of(v: i64) -> (r: u64)
    requires
        fx_wf(v as int),
    ensures
        r as int == spec_depth_of(v as int),
{
    if v <= 0 {
        0
    } else {
        ((v as u64) + 5_000u64) / 10_000u64
    }
}

/// A whole depth as a fixed-point scalar, clipped to the magnitude bound.
pub open spec fn spec_depth_fx(d: int) -> int {
    if d >= 1_000_000 {
        FX_MAX as int
    } else {
        d * SCALE as int
    }
}

pub fn depth_fx(d: u64) -> (r: i64)
    ensures
        r as int == spec_depth_fx(d as int),
        fx_wf(r as int),
{
    if d >= 1_000_000 {
        FX_MAX
    } else {
        (d * 10_000u64) as i64
    }
}

} // verus!
