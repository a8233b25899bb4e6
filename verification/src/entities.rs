//! The moving entities of a session: bullets in straight-line flight and
//! enemies homing in on the player.
use vstd::prelude::*;

use crate::fixed::{
    abs_spec, isqrt, lemma_sqrt_floor_bounds, lemma_tdiv_ratio_bound, sqrt_floor, tdiv,
};
use crate::geometry::{dist_sq, dist_sq_spec};
use crate::{COORD_LIMIT, DT_LIMIT, MOVE_LIMIT, SCALE, SIZE_LIMIT, SPEED_LIMIT};

verus! {

/// A projectile: a position, a direction fixed at creation as a
/// fixed-point unit vector, and a scalar speed.
#[derive(Clone, Copy, PartialEq, Eq, Structural, Debug)]
pub struct Bullet {
    pub x: i64,
    pub y: i64,
    pub radius: i64,
    pub speed: i64,
    pub direction_x: i64,
    pub direction_y: i64,
}

impl Bullet {
    /// The ranges a bullet's fields stay in: position within the world
    /// bound, direction components no longer than one unit, speed and
    /// radius non-negative and bounded.
    pub open spec fn wf(self) -> bool {
        &&& abs_spec(self.x as int) <= COORD_LIMIT
        &&& abs_spec(self.y as int) <= COORD_LIMIT
        &&& abs_spec(self.direction_x as int) <= SCALE
        &&& abs_spec(self.direction_y as int) <= SCALE
        &&& 0 <= self.speed <= SPEED_LIMIT
        &&& 0 <= self.radius <= SIZE_LIMIT
    }

    /// Horizontal displacement of one frame of flight; it depends only
    /// on the direction, the speed and the frame time, never on where
    /// the bullet is.
    pub open spec fn step_dx(self, dt: int) -> int {
        tdiv(self.direction_x * (self.speed * dt), SCALE as int * SCALE as int)
    }

    /// Vertical displacement of one frame of flight.
    pub open spec fn step_dy(self, dt: int) -> int {
        tdiv(self.direction_y * (self.speed * dt), SCALE as int * SCALE as int)
    }

    /// Horizontal position after one frame of flight.
    pub open spec fn step_x(self, dt: int) -> int {
        self.x + self.step_dx(dt)
    }

    /// Vertical position after one frame of flight.
    pub open spec fn step_y(self, dt: int) -> int {
        self.y + self.step_dy(dt)
    }

    /// Horizontal position after `k` frames of flight, each `dt` time
    /// units long.
    pub open spec fn flight_x(self, dt: int, k: nat) -> int
        decreases k,
    {
        if k == 0 {
            self.x as int
        } else {
            self.flight_x(dt, (k - 1) as nat) + self.step_dx(dt)
        }
    }

    /// Vertical position after `k` frames of flight.
    pub open spec fn flight_y(self, dt: int, k: nat) -> int
        decreases k,
    {
        if k == 0 {
            self.y as int
        } else {
            self.flight_y(dt, (k - 1) as nat) + self.step_dy(dt)
        }
    }

    /// Advance the bullet `dt` time units along its fixed direction at
    /// its constant speed; nothing else about it changes.
    pub fn update(&mut self, dt: i64)
        requires
            old(self).wf(),
            0 <= dt <= DT_LIMIT,
        ensures
            final(self).x == old(self).step_x(dt as int),
            final(self).y == old(self).step_y(dt as int),
            final(self).radius == old(self).radius,
            final(self).speed == old(self).speed,
            final(self).direction_x == old(self).direction_x,
            final(self).direction_y == old(self).direction_y,
            abs_spec(final(self).x as int) <= abs_spec(old(self).x as int) + MOVE_LIMIT,
            abs_spec(final(self).y as int) <= abs_spec(old(self).y as int) + MOVE_LIMIT,
    {
        proof {
            assert(0 <= self.speed as int * dt as int <= SPEED_LIMIT as int * DT_LIMIT as int)
                by (nonlinear_arith)
                requires
                    0 <= self.speed <= SPEED_LIMIT,
                    0 <= dt <= DT_LIMIT,
            ;
        }
        let k = self.speed * dt;
        proof {
            lemma_tdiv_ratio_bound(
                self.direction_x as int,
                SCALE as int,
                k as int,
                SCALE as int,
            );
            lemma_tdiv_ratio_bound(
                self.direction_y as int,
                SCALE as int,
                k as int,
                SCALE as int,
            );
            assert(self.direction_x * k <= SCALE as int * k && -(SCALE as int * k)
                <= self.direction_x * k && self.direction_y * k <= SCALE as int * k && -(SCALE
                as int * k) <= self.direction_y * k) by (nonlinear_arith)
                requires
                    -(SCALE as int) <= self.direction_x as int <= SCALE as int,
                    -(SCALE as int) <= self.direction_y as int <= SCALE as int,
                    0 <= k,
            ;
            vstd::arithmetic::div_mod::lemma_div_is_ordered(
                k as int,
                SPEED_LIMIT as int * DT_LIMIT as int,
                SCALE as int,
            );
        }
        let mx = self.direction_x * k / (SCALE * SCALE);
        let my = self.direction_y * k / (SCALE * SCALE);
        self.x = self.x + mx;
        self.y = self.y + my;
    }
}

/// A bullet whose direction and speed are fixed flies along a straight
/// line: its position after `k` frames is its origin plus `k` times the
/// constant per-frame displacement.
pub proof fn lemma_bullet_straight_line(b: Bullet, dt: int, k: nat)
    ensures
        b.flight_x(dt, k) == b.x + k * b.step_dx(dt),
        b.flight_y(dt, k) == b.y + k * b.step_dy(dt),
    decreases k,
{
    if k > 0 {
        lemma_bullet_straight_line(b, dt, (k - 1) as nat);
        assert((k - 1) * b.step_dx(dt) + b.step_dx(dt) == k * b.step_dx(dt))
            by (nonlinear_arith);
        assert((k - 1) * b.step_dy(dt) + b.step_dy(dt) == k * b.step_dy(dt))
            by (nonlinear_arith);
    } else {
        assert(k * b.step_dx(dt) == 0) by (nonlinear_arith)
            requires
                k == 0,
        ;
        assert(k * b.step_dy(dt) == 0) by (nonlinear_arith)
            requires
                k == 0,
        ;
    }
}

/// A homing enemy: a rectangle in world space that moves toward the
/// player at a constant speed whenever it is farther than one unit away.
#[derive(Clone, Copy, PartialEq, Eq, Structural, Debug)]
pub struct Enemy {
    pub x: i64,
    pub y: i64,
    pub width: i64,
    pub height: i64,
    pub speed: i64,
}

impl Enemy {
    /// The ranges an enemy's fields stay in.
    pub open spec fn wf(self) -> bool {
        &&& abs_spec(self.x as int) <= COORD_LIMIT
        &&& abs_spec(self.y as int) <= COORD_LIMIT
        &&& 0 <= self.width <= SIZE_LIMIT
        &&& 0 <= self.height <= SIZE_LIMIT
        &&& 0 <= self.speed <= SPEED_LIMIT
    }

    /// Whether the target is outside the one-unit dead zone, so the
    /// enemy moves this frame.
    pub open spec fn moves_toward(self, tx: int, ty: int) -> bool {
        dist_sq_spec(self.x as int, self.y as int, tx, ty) > SCALE as int * SCALE as int
    }

    /// Horizontal position after one frame of homing toward `(tx, ty)`.
    pub open spec fn step_x(self, tx: int, ty: int, dt: int) -> int {
        if self.moves_toward(tx, ty) {
            let dist = sqrt_floor(
                dist_sq_spec(self.x as int, self.y as int, tx, ty) as nat,
            ) as int;
            self.x + tdiv((tx - self.x) * (self.speed * dt), dist * SCALE as int)
        } else {
            self.x as int
        }
    }

    /// Vertical position after one frame of homing toward `(tx, ty)`.
    pub open spec fn step_y(self, tx: int, ty: int, dt: int) -> int {
        if self.moves_toward(tx, ty) {
            let dist = sqrt_floor(
                dist_sq_spec(self.x as int, self.y as int, tx, ty) as nat,
            ) as int;
            self.y + tdiv((ty - self.y) * (self.speed * dt), dist * SCALE as int)
        } else {
            self.y as int
        }
    }

    /// Move the enemy `dt` time units toward the target at its constant
    /// speed, unless the target is within the one-unit dead zone, in
    /// which case it holds position; nothing else about it changes.
    pub fn update(&mut self, target_x: i64, target_y: i64, dt: i64)
        requires
            old(self).wf(),
            abs_spec(target_x as int) <= COORD_LIMIT,
            abs_spec(target_y as int) <= COORD_LIMIT,
            0 <= dt <= DT_LIMIT,
        ensures
            final(self).x == old(self).step_x(target_x as int, target_y as int, dt as int),
            final(self).y == old(self).step_y(target_x as int, target_y as int, dt as int),
            final(self).width == old(self).width,
            final(self).height == old(self).height,
            final(self).speed == old(self).speed,
            abs_spec(final(self).x as int) <= abs_spec(old(self).x as int) + MOVE_LIMIT,
            abs_spec(final(self).y as int) <= abs_spec(old(self).y as int) + MOVE_LIMIT,
    {
        let d2 = dist_sq(self.x, self.y, target_x, target_y);
        if d2 > (SCALE * SCALE) as i128 {
            let ghost d2n = d2 as nat;
            let dist128 = isqrt(d2 as u128);
            proof {
                lemma_sqrt_floor_bounds(d2n);
                let dist = sqrt_floor(d2n) as int;
                let dx = target_x as int - self.x as int;
                let dy = target_y as int - self.y as int;
                assert(dist >= SCALE && -dist <= dx <= dist && -dist <= dy <= dist && dist
                    <= 6_000_000_000_000) by (nonlinear_arith)
                    requires
                        dist >= 0,
                        dist * dist <= d2 as int,
                        (d2 as int) < (dist + 1) * (dist + 1),
                        d2 as int == dx * dx + dy * dy,
                        (d2 as int) > SCALE as int * SCALE as int,
                        SCALE as int > 0,
                        -4_000_000_000_000 <= dx <= 4_000_000_000_000,
                        -4_000_000_000_000 <= dy <= 4_000_000_000_000,
                ;
            }
            let dist = dist128 as i64;
            proof {
                assert(0 <= self.speed as int * dt as int <= SPEED_LIMIT as int * DT_LIMIT as int)
                    by (nonlinear_arith)
                    requires
                        0 <= self.speed <= SPEED_LIMIT,
                        0 <= dt <= DT_LIMIT,
                ;
            }
            let k = self.speed * dt;
            proof {
                let dist = sqrt_floor(d2n) as int;
                let dx = target_x as int - self.x as int;
                let dy = target_y as int - self.y as int;
                lemma_tdiv_ratio_bound(dx, dist, k as int, SCALE as int);
                lemma_tdiv_ratio_bound(dy, dist, k as int, SCALE as int);
                assert(dx * (k as int) <= dist * (k as int) && -(dist * (k as int)) <= dx * (
                k as int) && dy * (k as int) <= dist * (k as int) && -(dist * (k as int)) <= dy * (
                k as int) && dist * SCALE as int <= i128::MAX && dist * (k as int)
                <= 60_000_000_000_000_000_000_000) by (nonlinear_arith)
                    requires
                        -dist <= dx <= dist,
                        -dist <= dy <= dist,
                        0 <= k <= 10_000_000_000,
                        0 < SCALE,
                        SCALE <= dist <= 6_000_000_000_000,
                ;
                vstd::arithmetic::div_mod::lemma_div_is_ordered(
                    k as int,
                    SPEED_LIMIT as int * DT_LIMIT as int,
                    SCALE as int,
                );
            }
            let den: i128 = dist as i128 * SCALE as i128;
            let mx = (target_x as i128 - self.x as i128) * k as i128 / den;
            let my = (target_y as i128 - self.y as i128) * k as i128 / den;
            self.x = self.x + mx as i64;
            self.y = self.y + my as i64;
        }
    }
}

} // verus!
