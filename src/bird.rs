use vstd::prelude::*;
use crate::constants::{
    FLAP_FORCE, GRAVITY, MAX_TILT_DEGREES, MILLI, ROTATION_STEPS_PER_DEGREE,
    ROTATION_STEPS_PER_VELOCITY,
};

verus! {

/// The bird. It stays at horizontal position 0; only its height changes.
#[derive(Clone, Copy, Debug, PartialEq, Eq, Structural)]
pub struct Bird {
    /// Vertical velocity, in world units per second (up is positive).
    pub velocity: i64,
    /// Vertical position, in thousandths of a world unit.
    pub height: i64,
}

/// Whether an integer fits in an `i64`.
pub open spec fn fits_i64(x: int) -> bool {
    i64::MIN <= x <= i64::MAX
}

/// Velocity lost to gravity over `dt` milliseconds, in units per second.
pub open spec fn gravity_drop(dt: int) -> int {
    GRAVITY * dt / (MILLI as int)
}

/// Velocity after a frame of `dt` milliseconds: a flap sets it to
/// `FLAP_FORCE`, then gravity pulls it down.
pub open spec fn next_velocity(v: int, dt: int, flap: bool) -> int {
    (if flap { FLAP_FORCE as int } else { v }) - gravity_drop(dt)
}

/// Height after a frame: the new velocity carries the bird for `dt`
/// milliseconds (units per second times milliseconds gives thousandths).
pub open spec fn next_height(v: int, y: int, dt: int, flap: bool) -> int {
    y + next_velocity(v, dt, flap) * dt
}

/// Whether a frame's velocity and height fit in an `i64`.
pub open spec fn flight_fits(v: int, y: int, dt: int, flap: bool) -> bool {
    fits_i64(next_velocity(v, dt, flap)) && fits_i64(next_height(v, y, dt, flap))
}

/// The bird's tilt, in fifteenths of a degree: the velocity over 7.5 units
/// per second per degree, held to `[-90, 90]` degrees.
pub open spec fn tilt(v: int) -> int {
    let steps = ROTATION_STEPS_PER_VELOCITY * v;
    let bound = ROTATION_STEPS_PER_DEGREE * MAX_TILT_DEGREES;
    if steps > bound {
        bound as int
    } else if steps < -bound {
        -bound
    } else {
        steps
    }
}

/// Velocity and height after `n` frames of `dt` milliseconds without a flap.
pub open spec fn fall(v: int, y: int, dt: int, n: nat) -> (int, int)
    decreases n,
{
    if n == 0 {
        (v, y)
    } else {
        let (v1, y1) = fall(v, y, dt, (n - 1) as nat);
        (next_velocity(v1, dt, false), next_height(v1, y1, dt, false))
    }
}

impl Bird {
    /// A bird at the origin, at rest.
    pub fn new() -> (r: Bird)
        ensures
            r.velocity == 0,
            r.height == 0,
    {
        Bird { velocity: 0, height: 0 }
    }

    /// Whether `fly` can compute a frame of `dt` milliseconds in `i64`.
    pub fn can_fly(&self, dt: u32, flap: bool) -> (r: bool)
        ensures
            r == flight_fits(self.velocity as int, self.height as int, dt as int, flap),
    {
        let base: i64 = if flap { FLAP_FORCE } else { self.velocity };
        let drop: i64 = GRAVITY * (dt as i64) / MILLI;
        if base < i64::MIN + drop {
            return false;
        }
        let v: i64 = base - drop;
        proof {
            lemma_step_bounded(v as int, dt as int);
        }
        let step: i128 = (v as i128) * (dt as i128);
        let y: i128 = step + (self.height as i128);
        i64::MIN as i128 <= y && y <= i64::MAX as i128
    }

    /// The bird after a frame of `dt` milliseconds, before any collision:
    /// a flap sets the velocity to `FLAP_FORCE` (it does not add to it),
    /// gravity lowers it by `GRAVITY * dt`, and the bird moves by it.
    pub fn fly(&self, dt: u32, flap: bool) -> (r: Bird)
        requires
            flight_fits(self.velocity as int, self.height as int, dt as int, flap),
        ensures
            r.velocity == next_velocity(self.velocity as int, dt as int, flap),
            r.height == next_height(self.velocity as int, self.height as int, dt as int, flap),
            !flap ==> r.velocity == self.velocity - gravity_drop(dt as int),
            flap ==> r.velocity == FLAP_FORCE - gravity_drop(dt as int),
    {
        let base: i64 = if flap { FLAP_FORCE } else { self.velocity };
        let drop: i64 = GRAVITY * (dt as i64) / MILLI;
        let v: i64 = base - drop;
        proof {
            lemma_step_bounded(v as int, dt as int);
        }
        let step: i128 = (v as i128) * (dt as i128);
        let y: i128 = step + (self.height as i128);
        Bird { velocity: v, height: y as i64 }
    }

    /// The bird's tilt for drawing, in fifteenths of a degree.
    pub fn orientation(&self) -> (r: i64)
        ensures
            r == tilt(self.velocity as int),
            -ROTATION_STEPS_PER_DEGREE * MAX_TILT_DEGREES <= r
                <= ROTATION_STEPS_PER_DEGREE * MAX_TILT_DEGREES,
    {
        let bound: i64 = ROTATION_STEPS_PER_DEGREE * MAX_TILT_DEGREES;
        if self.velocity > bound / ROTATION_STEPS_PER_VELOCITY {
            bound
        } else if self.velocity < -(bound / ROTATION_STEPS_PER_VELOCITY) {
            -bound
        } else {
            ROTATION_STEPS_PER_VELOCITY * self.velocity
        }
    }
}

proof fn lemma_step_bounded(v: int, dt: int)
    requires
        fits_i64(v),
        0 <= dt <= u32::MAX,
    ensures
        -0x1_0000_0000_0000_0000_0000_0000 <= v * dt <= 0x1_0000_0000_0000_0000_0000_0000,
{
    assert(-0x1_0000_0000_0000_0000_0000_0000 <= v * dt <= 0x1_0000_0000_0000_0000_0000_0000)
        by (nonlinear_arith)
        requires
            -0x8000_0000_0000_0000 <= v <= 0x7fff_ffff_ffff_ffff,
            0 <= dt <= 0xffff_ffff,
    ;
}

/// Without a flap, each frame of positive length lowers the velocity by
/// exactly `GRAVITY * dt`, whatever it was; nothing holds it up.
pub proof fn lemma_gravity_lowers_velocity(v: int, dt: int)
    requires
        dt > 0,
    ensures
        next_velocity(v, dt, false) == v - gravity_drop(dt),
        next_velocity(v, dt, false) < v,
{
}

/// A flap sets the velocity to `FLAP_FORCE` whatever it was before, so two
/// birds that flap in the same frame leave it with the same velocity.
pub proof fn lemma_flap_sets_velocity(v1: int, v2: int, dt: int)
    ensures
        next_velocity(v1, dt, true) == next_velocity(v2, dt, true),
        next_velocity(v1, dt, true) == FLAP_FORCE - gravity_drop(dt),
{
}

/// After `n` frames of `dt` milliseconds without a flap, the velocity has
/// dropped by `n` times `GRAVITY * dt`, and the height follows the closed
/// kinematic sum `y + n * v * dt - g * dt * n * (n + 1) / 2`, where `g` is the
/// velocity lost per frame.
pub proof fn lemma_fall_closed_form(v: int, y: int, dt: int, n: nat)
    ensures
        fall(v, y, dt, n).0 == v - n * gravity_drop(dt),
        fall(v, y, dt, n).1 == y + n * v * dt - gravity_drop(dt) * dt * (n * (n + 1) / 2),
    decreases n,
{
    let g = gravity_drop(dt);
    if n == 0 {
        assert(y + n * v * dt - g * dt * (n * (n + 1) / 2) == y) by (nonlinear_arith)
            requires
                n == 0,
        ;
    } else {
        let m = (n - 1) as nat;
        lemma_fall_closed_form(v, y, dt, m);
        let (v1, y1) = fall(v, y, dt, m);
        assert(fall(v, y, dt, n) == (next_velocity(v1, dt, false), next_height(v1, y1, dt, false)));
        assert(v - m * g - g == v - n * g) by (nonlinear_arith)
            requires
                m + 1 == n,
        ;
        assert(m * (m + 1) / 2 + n == n * (n + 1) / 2) by (nonlinear_arith)
            requires
                m + 1 == n,
        ;
        assert(y + m * v * dt - g * dt * (m * (m + 1) / 2) + (v - m * g - g) * dt
            == y + n * v * dt - g * dt * (n * (n + 1) / 2)) by (nonlinear_arith)
            requires
                m + 1 == n,
                m * (m + 1) / 2 + n == n * (n + 1) / 2,
        ;
    }
}

} // verus!
