//! Fixed-point scalars: a value `x` of type `i64` stands for `x / ONE`.
use vstd::prelude::*;

verus! {

/// The fixed-point representation of 1.0.
pub const ONE: i64 = 65536;

/// Largest magnitude accepted by the scalar helpers, so that products stay in `i64`.
pub const SCALAR_MAX: i64 = 0x100_0000_0000;

pub open spec fn clamp_spec(x: int, lo: int, hi: int) -> int {
    if x < lo {
        lo
    } else if x > hi {
        hi
    } else {
        x
    }
}

/// `x` clamped to the unit interval `[0, ONE]`.
pub open spec fn clamp01_spec(x: int) -> int {
    clamp_spec(x, 0, ONE as int)
}

/// Position of `x` between `e0` and `e1`, as a clamped fraction of `ONE`.
pub open spec fn ramp_spec(e0: int, e1: int, x: int) -> int {
    if e1 > e0 {
        clamp01_spec((x - e0) * ONE / (e1 - e0))
    } else {
        clamp01_spec((e0 - x) * ONE / (e0 - e1))
    }
}

/// Hermite smoothstep `t * t * (3 - 2 t)` of the clamped ramp, in fixed point.
pub open spec fn smoothstep_spec(e0: int, e1: int, x: int) -> int {
    let t = ramp_spec(e0, e1, x);
    t * t * (3 * ONE - 2 * t) / ((ONE as int) * (ONE as int))
}

/// The byte of a color channel: `round(clamp01(x) * 255)`.
pub open spec fn channel_spec(x: int) -> int {
    (clamp01_spec(x) * 255 + ONE / 2) / (ONE as int)
}

pub open spec fn scalar_ok(x: int) -> bool {
    -SCALAR_MAX <= x <= SCALAR_MAX
}

/// Clamps a fixed-point value to `[0, ONE]`.
pub fn clamp01(x: i64) -> (r: i64)
    ensures
        r == clamp01_spec(x as int),
        0 <= r <= ONE,
{
    if x < 0 {
        0
    } else if x > ONE {
        ONE
    } else {
        x
    }
}

/// Smooth Hermite interpolation between the edges `e0` and `e1` (which may be
/// given in either order).
pub fn smoothstep(e0: i64, e1: i64, x: i64) -> (r: i64)
    requires
        e0 != e1,
        scalar_ok(e0 as int),
        scalar_ok(e1 as int),
        scalar_ok(x as int),
    ensures
        r == smoothstep_spec(e0 as int, e1 as int, x as int),
        0 <= r <= ONE,
{
    let (num, den) = if e1 > e0 {
        (x - e0, e1 - e0)
    } else {
        (e0 - x, e0 - e1)
    };
    let t: i64 = if num <= 0 {
        proof {
            assert((num as int) * (ONE as int) <= 0) by (nonlinear_arith)
                requires
                    num <= 0,
            ;
            assert(((num as int) * (ONE as int)) / (den as int) <= 0) by (nonlinear_arith)
                requires
                    (num as int) * (ONE as int) <= 0,
                    den > 0,
            ;
        }
        0
    } else if num >= den {
        proof {
            assert((num as int) * (ONE as int) >= (den as int) * (ONE as int)) by (nonlinear_arith)
                requires
                    num >= den,
            ;
            assert(((num as int) * (ONE as int)) / (den as int) >= ONE) by (nonlinear_arith)
                requires
                    (num as int) * (ONE as int) >= (den as int) * (ONE as int),
                    den > 0,
            ;
        }
        ONE
    } else {
        proof {
            assert(((num as int) * (ONE as int)) / (den as int) <= ONE) by (nonlinear_arith)
                requires
                    num < den,
                    num > 0,
                    den > 0,
            ;
        }
        num * ONE / den
    };
    assert(t == ramp_spec(e0 as int, e1 as int, x as int));
    let ghost ti = t as int;
    let ghost one = ONE as int;
    proof {
        assert(one * one * one - ti * ti * (3 * one - 2 * ti) == (one - ti) * (one - ti) * (one + 2 * ti))
            by (nonlinear_arith);
        assert((one - ti) * (one - ti) * (one + 2 * ti) >= 0) by (nonlinear_arith)
            requires
                0 <= ti <= one,
        ;
        assert(ti * ti * (3 * one - 2 * ti) >= 0) by (nonlinear_arith)
            requires
                0 <= ti <= one,
        ;
    }
    assert(0 <= t * t <= ONE * ONE) by (nonlinear_arith)
        requires
            0 <= t <= ONE,
    ;
    let r = t * t * (3 * ONE - 2 * t) / (ONE * ONE);
    proof {
        assert(r <= one) by (nonlinear_arith)
            requires
                0 <= ti * ti * (3 * one - 2 * ti) <= one * one * one,
                r == ti * ti * (3 * one - 2 * ti) / (one * one),
                one == 65536,
        ;
    }
    r
}

/// Scales a fixed-point intensity to a color byte, rounding to nearest.
pub fn channel(x: i64) -> (r: u8)
    ensures
        r as int == channel_spec(x as int),
{
    let c = clamp01(x);
    let b = (c * 255 + ONE / 2) / ONE;
    assert(b <= 255) by (nonlinear_arith)
        requires
            0 <= c <= 65536,
            b == (c * 255 + 32768) / 65536,
    ;
    b as u8
}

} // verus!
