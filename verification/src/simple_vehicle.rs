//! The point-mass vehicle: a force accumulator, damped acceleration,
//! clamped velocity, and a local frame re-derived from motion each tick.

use vstd::prelude::*;

use crate::fixed::{
    iabs, lemma_tz_div_abs, lemma_tz_div_cancel, lemma_tz_div_le, mul_div, sqrt_floor, tz_div,
    SCALE,
};
use crate::local_space::{frame_bounded, LocalSpace};
use crate::vector::{
    alen, bounded, lemma_alen_bounds, lemma_lerp_in_range, lemma_mul_abs_bound, lemma_msq_zero,
    msq, v3_cross, v3_lerp, v3_norm, v3_scale, v3_sum, v3_trunc, v3_zero, Vec3, Vector,
};

verus! {

/// Blend factor of the acceleration damping: the smoothed acceleration
/// moves one percent per tick from the previous smoothed value toward the
/// newly computed one.
pub const ACCELERATION_DAMPING: i64 = 990_000;

/// Height of the fixed world-space banking bias: a tenth of a unit, a
/// deliberately small nudge toward world-up.
pub const GLOBAL_UP_Y: i64 = 100_000;

/// Fixed-point one half, the share of the acceleration fed into banking.
pub const BANK_ACCEL_SHARE: i64 = 500_000;

/// Default vehicle mass: exactly one, so force equals acceleration.
pub const DEFAULT_MASS: i64 = 1_000_000;

/// Default speed limit, 0.64 units per tick.
pub const DEFAULT_MAX_SPEED: i64 = 640_000;

/// Default force limit, 0.48 units per tick squared.
pub const DEFAULT_MAX_FORCE: i64 = 480_000;

/// Upper bound on the speed and force limits a well-formed vehicle may
/// carry (ten units per tick).
pub const SPEED_CAP: i64 = 10_000_000;

/// Lower bound on a well-formed vehicle's mass (a tenth of a unit).
pub const MASS_MIN: i64 = 100_000;

/// Coordinate bound on the damped acceleration of a well-formed vehicle.
pub const ACCEL_LIMIT: i64 = 1_000_000_000;

/// Coordinate bound on the accumulated force accepted by an update.
pub const FORCE_ACC_LIMIT: i64 = 1_000_000_000;

/// Coordinate bound on the position accepted by an update.
pub const POSITION_LIMIT: i64 = 20_000_000_000;

/// The fixed world-space banking bias.
pub open spec fn global_up() -> Vec3 {
    Vec3 { x: 0, y: GLOBAL_UP_Y as int, z: 0 }
}

pub struct SimpleVehicle {
    /// The vehicle's oriented frame and position.
    pub local_space: LocalSpace,
    pub mass: i64,
    pub max_speed: i64,
    pub max_force: i64,
    pub velocity: Vector,
    /// Force accumulated since the last update; consumed by each update.
    pub all_forces: Vector,
    /// Damped acceleration carried between ticks.
    pub acceleration: Vector,
}

/// Instantaneous acceleration: the accumulated force `f`, clamped to the
/// force limit, divided by the mass.
pub open spec fn step_new_accel(pre: SimpleVehicle, f: Vec3) -> Vec3 {
    let ft = v3_trunc(f, pre.max_force as int);
    Vec3 {
        x: tz_div(ft.x * (SCALE as int), pre.mass as int),
        y: tz_div(ft.y * (SCALE as int), pre.mass as int),
        z: tz_div(ft.z * (SCALE as int), pre.mass as int),
    }
}

/// Damped acceleration after a tick: one percent of the way from the
/// previous smoothed acceleration toward the instantaneous one.
pub open spec fn step_accel(pre: SimpleVehicle, f: Vec3) -> Vec3 {
    v3_lerp(ACCELERATION_DAMPING as int, step_new_accel(pre, f), pre.acceleration@)
}

/// Velocity after a tick: the damped acceleration added, then clamped to
/// the speed limit.
pub open spec fn step_velocity(pre: SimpleVehicle, f: Vec3) -> Vec3 {
    v3_trunc(v3_sum(pre.velocity@, step_accel(pre, f)), pre.max_speed as int)
}

/// Banking reference after a tick: the previous up axis, half the damped
/// acceleration, and the world-up bias, normalized.
pub open spec fn step_bank(pre: SimpleVehicle, f: Vec3) -> Vec3 {
    v3_norm(
        v3_sum(
            v3_sum(pre.local_space.up@, v3_scale(BANK_ACCEL_SHARE as int, step_accel(pre, f))),
            global_up(),
        ),
    )
}

/// One tick of the vehicle dynamics from state `pre` carrying accumulated
/// force `f` to state `post`: clamp the force, divide by the mass, damp
/// the acceleration, integrate and clamp the velocity, integrate the
/// position, and re-derive the frame from the motion unless at rest.
pub open spec fn vehicle_step(pre: SimpleVehicle, f: Vec3, post: SimpleVehicle) -> bool {
    let acc = step_accel(pre, f);
    let vel = step_velocity(pre, f);
    let bank = step_bank(pre, f);
    &&& post.mass == pre.mass
    &&& post.max_speed == pre.max_speed
    &&& post.max_force == pre.max_force
    &&& post.all_forces@ == v3_zero()
    &&& post.acceleration@ == acc
    &&& post.velocity@ == vel
    &&& post.local_space.position@ == v3_sum(pre.local_space.position@, vel)
    &&& if sqrt_floor(msq(vel)) > 0 {
        let fwd = v3_norm(vel);
        let side = v3_cross(fwd, bank);
        &&& post.local_space.forward@ == fwd
        &&& post.local_space.side@ == side
        &&& post.local_space.up@ == v3_cross(side, fwd)
    } else {
        &&& post.local_space.forward@ == pre.local_space.forward@
        &&& post.local_space.side@ == pre.local_space.side@
        &&& post.local_space.up@ == pre.local_space.up@
    }
}

impl SimpleVehicle {
    /// Well-formedness that construction establishes and every update
    /// preserves: limits within their caps, the velocity within the speed
    /// limit by the approximate metric, and bounded acceleration and frame
    /// axes.
    pub open spec fn wf(self) -> bool {
        &&& MASS_MIN <= self.mass
        &&& 0 < self.max_speed <= SPEED_CAP
        &&& 0 < self.max_force <= SPEED_CAP
        &&& alen(self.velocity@) <= self.max_speed
        &&& bounded(self.velocity@, 2 * self.max_speed + 1)
        &&& bounded(self.acceleration@, ACCEL_LIMIT as int)
        &&& frame_bounded(self.local_space)
    }

    /// A vehicle at rest at the given position, with the default limits
    /// and the canonical frame.
    pub fn new(position: Vector) -> (r: SimpleVehicle)
        ensures
            r.local_space.position@ == position@,
            r.local_space.forward@ == (Vec3 { x: 0, y: 0, z: SCALE as int }),
            r.local_space.side@ == (Vec3 { x: SCALE as int, y: 0, z: 0 }),
            r.local_space.up@ == (Vec3 { x: 0, y: SCALE as int, z: 0 }),
            r.mass == DEFAULT_MASS,
            r.max_speed == DEFAULT_MAX_SPEED,
            r.max_force == DEFAULT_MAX_FORCE,
            r.velocity@ == v3_zero(),
            r.all_forces@ == v3_zero(),
            r.acceleration@ == v3_zero(),
            r.wf(),
    {
        let r = SimpleVehicle {
            local_space: LocalSpace::new(position),
            mass: DEFAULT_MASS,
            max_speed: DEFAULT_MAX_SPEED,
            max_force: DEFAULT_MAX_FORCE,
            velocity: Vector::new(0, 0, 0),
            all_forces: Vector::new(0, 0, 0),
            acceleration: Vector::new(0, 0, 0),
        };
        proof {
            lemma_alen_bounds(r.velocity@);
        }
        r
    }

    /// Accumulate a force for the next update to consume.
    pub fn apply_global_force(&mut self, force: Vector)
        requires
            i64::MIN <= old(self).all_forces@.x + force@.x <= i64::MAX,
            i64::MIN <= old(self).all_forces@.y + force@.y <= i64::MAX,
            i64::MIN <= old(self).all_forces@.z + force@.z <= i64::MAX,
        ensures
            final(self).all_forces@ == v3_sum(old(self).all_forces@, force@),
            final(self).local_space == old(self).local_space,
            final(self).mass == old(self).mass,
            final(self).max_speed == old(self).max_speed,
            final(self).max_force == old(self).max_force,
            final(self).velocity == old(self).velocity,
            final(self).acceleration == old(self).acceleration,
    {
        let f0 = self.all_forces;
        self.all_forces.set_sum(f0, force);
    }

    /// Consume the force accumulator: clamp it, divide by the mass, reset
    /// it, and fold the result into the damped acceleration.
    fn consume_forces(&mut self)
        requires
            old(self).wf(),
            bounded(old(self).all_forces@, FORCE_ACC_LIMIT as int),
        ensures
            final(self).all_forces@ == v3_zero(),
            final(self).acceleration@ == step_accel(*old(self), old(self).all_forces@),
            bounded(final(self).acceleration@, ACCEL_LIMIT as int),
            alen(v3_trunc(old(self).all_forces@, old(self).max_force as int))
                <= old(self).max_force,
            final(self).local_space == old(self).local_space,
            final(self).mass == old(self).mass,
            final(self).max_speed == old(self).max_speed,
            final(self).max_force == old(self).max_force,
            final(self).velocity == old(self).velocity,
    {
        let ghost pre = *self;
        self.all_forces.set_approximate_truncate(self.max_force);
        let ghost ft = self.all_forces@;

        let mut new_accel = Vector::new(0, 0, 0);
        proof {
            lemma_mul_abs_bound(ft.x, SCALE as int, 2 * pre.max_force + 1, SCALE as int);
            lemma_mul_abs_bound(ft.y, SCALE as int, 2 * pre.max_force + 1, SCALE as int);
            lemma_mul_abs_bound(ft.z, SCALE as int, 2 * pre.max_force + 1, SCALE as int);
            lemma_accel_quotient_bound(ft.x, pre.mass as int, pre.max_force as int);
            lemma_accel_quotient_bound(ft.y, pre.mass as int, pre.max_force as int);
            lemma_accel_quotient_bound(ft.z, pre.mass as int, pre.max_force as int);
        }
        if self.mass == SCALE {
            new_accel.set(self.all_forces);
            proof {
                lemma_tz_div_cancel(ft.x, SCALE as int);
                lemma_tz_div_cancel(ft.y, SCALE as int);
                lemma_tz_div_cancel(ft.z, SCALE as int);
            }
        } else {
            let na = Vector::new(
                mul_div(self.all_forces.x, SCALE, self.mass),
                mul_div(self.all_forces.y, SCALE, self.mass),
                mul_div(self.all_forces.z, SCALE, self.mass),
            );
            new_accel.set(na);
        }
        proof {
            assert(new_accel@ == step_new_accel(pre, pre.all_forces@));
            assert(bounded(new_accel@, 210_000_000));
        }
        self.all_forces.set_to_zero();

        let prev_accel = self.acceleration;
        self.acceleration.set_interpolation(ACCELERATION_DAMPING, new_accel, prev_accel);
        proof {
            lemma_lerp_in_range(new_accel@.x, prev_accel@.x, ACCELERATION_DAMPING as int);
            lemma_lerp_in_range(new_accel@.y, prev_accel@.y, ACCELERATION_DAMPING as int);
            lemma_lerp_in_range(new_accel@.z, prev_accel@.z, ACCELERATION_DAMPING as int);
            assert(self.acceleration@ == step_accel(pre, pre.all_forces@));
            assert(bounded(self.acceleration@, ACCEL_LIMIT as int));
        }
    }

    /// One simulation tick; see [`vehicle_step`] for the exact transition.
    /// Afterwards the velocity keeps to the speed limit and the consumed
    /// force, once clamped, kept to the force limit, both by the
    /// approximate metric; an accumulator already at rest leaves the
    /// position and frame untouched.
    #[verifier::rlimit(100)]
    pub fn update(&mut self)
        requires
            old(self).wf(),
            bounded(old(self).all_forces@, FORCE_ACC_LIMIT as int),
            bounded(old(self).local_space.position@, POSITION_LIMIT as int),
        ensures
            vehicle_step(*old(self), old(self).all_forces@, *final(self)),
            final(self).wf(),
            final(self).local_space.position@
                == v3_sum(old(self).local_space.position@, final(self).velocity@),
            final(self).max_speed == old(self).max_speed,
            final(self).max_force == old(self).max_force,
            final(self).mass == old(self).mass,
            alen(final(self).velocity@) <= final(self).max_speed,
            alen(v3_trunc(old(self).all_forces@, old(self).max_force as int))
                <= old(self).max_force,
            (old(self).all_forces@ == v3_zero() && old(self).velocity@ == v3_zero()
                && old(self).acceleration@ == v3_zero()) ==> {
                &&& final(self).local_space == old(self).local_space
                &&& final(self).velocity@ == v3_zero()
            },
    {
        let ghost pre = *self;
        self.consume_forces();

        // Integrate the velocity and clamp it to the speed limit.
        let v0 = self.velocity;
        let acc_copy = self.acceleration;
        self.velocity.set_sum(v0, acc_copy);
        self.velocity.set_approximate_truncate(self.max_speed);
        let ghost velg = self.velocity@;
        proof {
            assert(velg == step_velocity(pre, pre.all_forces@));
        }

        // Integrate the position.
        let p0 = self.local_space.position;
        let vel_copy = self.velocity;
        self.local_space.position.set_sum(p0, vel_copy);

        // Banking reference, then the frame re-derivation from the motion.
        let up_copy = self.local_space.up;
        let bank_up = bank_reference(up_copy, acc_copy);
        proof {
            assert(bank_up@ == step_bank(pre, pre.all_forces@));
        }
        self.local_space.rederive(vel_copy, bank_up);

        proof {
            assert(vehicle_step(pre, pre.all_forces@, *self));
            assert(self.wf());
            if pre.all_forces@ == v3_zero() && pre.velocity@ == v3_zero()
                && pre.acceleration@ == v3_zero() {
                lemma_rest_step(pre, *self);
            }
        }
    }
}

/// The banking reference: the up axis, plus half the damped acceleration,
/// plus the world-up bias, normalized.
fn bank_reference(up: Vector, acc: Vector) -> (r: Vector)
    requires
        bounded(up@, 4 * (SCALE as int)),
        bounded(acc@, ACCEL_LIMIT as int),
    ensures
        r@ == v3_norm(
            v3_sum(v3_sum(up@, v3_scale(BANK_ACCEL_SHARE as int, acc@)), global_up()),
        ),
        bounded(r@, SCALE as int),
{
    let mut accel_up = Vector::new(0, 0, 0);
    proof {
        lemma_mul_abs_bound(acc@.x, BANK_ACCEL_SHARE as int, ACCEL_LIMIT as int,
            BANK_ACCEL_SHARE as int);
        lemma_mul_abs_bound(acc@.y, BANK_ACCEL_SHARE as int, ACCEL_LIMIT as int,
            BANK_ACCEL_SHARE as int);
        lemma_mul_abs_bound(acc@.z, BANK_ACCEL_SHARE as int, ACCEL_LIMIT as int,
            BANK_ACCEL_SHARE as int);
        lemma_tz_div_le(acc@.x * (BANK_ACCEL_SHARE as int), SCALE as int,
            (ACCEL_LIMIT as int) * (BANK_ACCEL_SHARE as int));
        lemma_tz_div_le(acc@.y * (BANK_ACCEL_SHARE as int), SCALE as int,
            (ACCEL_LIMIT as int) * (BANK_ACCEL_SHARE as int));
        lemma_tz_div_le(acc@.z * (BANK_ACCEL_SHARE as int), SCALE as int,
            (ACCEL_LIMIT as int) * (BANK_ACCEL_SHARE as int));
    }
    accel_up.set_scale(BANK_ACCEL_SHARE, acc);
    let mut bank_up = Vector::new(0, 0, 0);
    bank_up.set_sum(up, accel_up);
    let b0 = bank_up;
    bank_up.set_sum(b0, Vector::new(0, GLOBAL_UP_Y, 0));
    bank_up.set_normalize();
    bank_up
}

/// The instantaneous acceleration of a clamped force is bounded: the
/// force-over-mass quotient of a well-formed vehicle stays far below the
/// acceleration bound.
proof fn lemma_accel_quotient_bound(c: int, mass: int, max_force: int)
    requires
        MASS_MIN <= mass,
        0 < max_force <= SPEED_CAP,
        iabs(c) <= 2 * max_force + 1,
    ensures
        iabs(c * (SCALE as int)) <= i64::MAX as int,
        iabs(tz_div(c * (SCALE as int), mass)) <= 210_000_000,
{
    let s = SCALE as int;
    lemma_mul_abs_bound(c, s, 2 * (SPEED_CAP as int) + 1, s);
    lemma_tz_div_abs(c * s, mass);
    let q = iabs(tz_div(c * s, mass));
    assert(mass * q <= 20_000_001_000_000);
    assert(q <= 210_000_000) by (nonlinear_arith)
        requires
            mass * q <= 20_000_001_000_000 && mass >= 100_000 && q >= 0,
    ;
}

/// A vehicle at rest with no pending force stays exactly where it is:
/// every stage of the transition maps zero to zero, so the position is
/// kept and the zero-speed branch keeps the previous frame.
proof fn lemma_rest_step(pre: SimpleVehicle, post: SimpleVehicle)
    requires
        pre.wf(),
        pre.all_forces@ == v3_zero(),
        pre.velocity@ == v3_zero(),
        pre.acceleration@ == v3_zero(),
        vehicle_step(pre, pre.all_forces@, post),
    ensures
        post.local_space.position@ == pre.local_space.position@,
        post.velocity@ == v3_zero(),
        post.local_space.forward@ == pre.local_space.forward@,
        post.local_space.side@ == pre.local_space.side@,
        post.local_space.up@ == pre.local_space.up@,
{
    let s = SCALE as int;
    lemma_alen_bounds(v3_zero());
    assert(alen(v3_zero()) == 0);
    let ft = v3_trunc(v3_zero(), pre.max_force as int);
    assert(ft == v3_zero());
    vstd::arithmetic::div_mod::lemma_div_of0(pre.mass as int);
    assert(tz_div(0 * s, pre.mass as int) == 0) by {
        assert(0 * s == 0) by (nonlinear_arith);
    }
    assert(step_new_accel(pre, pre.all_forces@) == v3_zero());
    assert(tz_div((0 - 0) * (ACCELERATION_DAMPING as int), s) == 0) by {
        assert((0 - 0) * (ACCELERATION_DAMPING as int) == 0) by (nonlinear_arith);
        vstd::arithmetic::div_mod::lemma_div_of0(s);
    }
    assert(step_accel(pre, pre.all_forces@) == v3_zero());
    assert(v3_sum(v3_zero(), v3_zero()) == v3_zero());
    let vel = step_velocity(pre, pre.all_forces@);
    assert(vel == v3_zero());
    lemma_msq_zero(vel);
    crate::fixed::lemma_sqrt_floor_correct(0);
    crate::fixed::lemma_sqrt_floor_unique(0, sqrt_floor(0), 0);
}

} // verus!
