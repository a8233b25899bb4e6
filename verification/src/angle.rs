//! Angles in fixed-point microradians: Euclidean remainder, wrapping a
//! difference onto the shortest rotational path, and exponential angular
//! interpolation.
use vstd::prelude::*;

use crate::SCALE;
use crate::fixed::{abs_spec, euclid_mod, lemma_tdiv_monotone, tdiv};

verus! {

/// Half a turn, in microradians.
pub const PI_FP: i64 = 3_141_593;

/// A full turn, in microradians.
pub const TAU_FP: i64 = 2 * PI_FP;

/// Angles this module accepts; comfortably clear of the 64-bit range so
/// sums with `PI_FP` cannot overflow.
pub const ANGLE_LIMIT: i64 = 1_000_000_000_000;

/// An angular difference wrapped onto the shortest rotational path: the
/// representative of `d` modulo a full turn that lies in
/// `(-PI_FP, PI_FP]`.
pub open spec fn wrap_angle_spec(d: int) -> int {
    PI_FP - (PI_FP - d) % (TAU_FP as int)
}

/// The wrapped difference never exceeds half a turn in magnitude, and
/// differs from the unwrapped difference by a whole number of turns.
pub proof fn lemma_wrap_angle_shortest(d: int)
    ensures
        -(PI_FP as int) < wrap_angle_spec(d) <= PI_FP,
        abs_spec(wrap_angle_spec(d)) <= PI_FP,
        (wrap_angle_spec(d) - d) % (TAU_FP as int) == 0,
{
    vstd::arithmetic::div_mod::lemma_mod_bound(PI_FP - d, TAU_FP as int);
    vstd::arithmetic::div_mod::lemma_fundamental_div_mod(PI_FP - d, TAU_FP as int);
    let q = (PI_FP - d) / (TAU_FP as int);
    assert(wrap_angle_spec(d) - d == (TAU_FP as int) * q) by (nonlinear_arith)
        requires
            PI_FP - d == (TAU_FP as int) * q + (PI_FP - d) % (TAU_FP as int),
            wrap_angle_spec(d) == PI_FP - (PI_FP - d) % (TAU_FP as int),
    ;
    vstd::arithmetic::div_mod::lemma_mod_multiples_basic(q, TAU_FP as int);
}

/// Wrap an angular difference onto the shortest rotational path.
pub fn wrap_angle(d: i64) -> (r: i64)
    requires
        abs_spec(d as int) <= 2 * ANGLE_LIMIT,
    ensures
        r == wrap_angle_spec(d as int),
        -PI_FP < r <= PI_FP,
{
    proof {
        vstd::arithmetic::div_mod::lemma_mod_bound(PI_FP - d, TAU_FP as int);
    }
    PI_FP - euclid_mod(PI_FP - d, TAU_FP)
}

/// The result of one step of exponential angular interpolation from `a`
/// toward `b` with blend factor `t` (in fixed-point, `SCALE` meaning
/// one): the current angle plus the wrapped difference scaled by `t`.
pub open spec fn lerp_angle_spec(a: int, b: int, t: int) -> int {
    a + tdiv(wrap_angle_spec(b - a) * t, SCALE as int)
}

/// One step of exponential angular interpolation toward `b`: the angle
/// moves along the shorter rotational arc, by fraction `t` of the
/// remaining wrapped difference.
pub fn lerp_angle(a: i64, b: i64, t: i64) -> (r: i64)
    requires
        abs_spec(a as int) <= ANGLE_LIMIT,
        abs_spec(b as int) <= ANGLE_LIMIT,
        0 <= t <= SCALE,
    ensures
        r == lerp_angle_spec(a as int, b as int, t as int),
        abs_spec(r as int) <= abs_spec(a as int) + PI_FP,
{
    let delta = wrap_angle(b - a);
    proof {
        assert(-(PI_FP as int) * SCALE as int <= delta as int * t as int <= PI_FP as int
            * SCALE as int) by (nonlinear_arith)
            requires
                -(PI_FP as int) <= delta as int <= PI_FP as int,
                0 <= t as int <= SCALE as int,
        ;
    }
    let step = delta * t / SCALE;
    proof {
        let x = delta as int * t as int;
        lemma_tdiv_monotone(x, PI_FP as int * SCALE as int, SCALE as int);
        lemma_tdiv_monotone(-(PI_FP as int) * SCALE as int, x, SCALE as int);
        assert(tdiv(PI_FP as int * SCALE as int, SCALE as int) == PI_FP as int);
        assert(tdiv(-(PI_FP as int) * SCALE as int, SCALE as int) == -(PI_FP as int));
    }
    a + step
}

} // verus!
