//! The steering agent: a vehicle, a target, a seek/flee mode, and the
//! per-tick protocol of steering, integrating, and checking arrival.

use vstd::prelude::*;

use crate::fixed::SCALE;
use crate::simple_vehicle::{
    vehicle_step, SimpleVehicle, FORCE_ACC_LIMIT, POSITION_LIMIT, SPEED_CAP,
};
use crate::vector::{alen, bounded, v3_diff, v3_sum, v3_trunc, v3_zero, Vec3, Vector};

verus! {

/// Distance at or below which the target counts as reached: six tenths of
/// a unit.
pub const REACHED_DISTANCE: i64 = 600_000;

/// The desired speed is the current approximate speed times this fraction:
/// eleven tenths, slightly above the current speed.
pub const DESIRED_SPEED_NUM: i64 = 11;

/// Denominator of the desired-speed fraction.
pub const DESIRED_SPEED_DEN: i64 = 10;

/// Whether the agent steers toward its target or away from it.
#[derive(Clone, Copy, Debug, PartialEq, Eq, Structural)]
pub enum SteerMode {
    Seek,
    Flee,
}

pub struct Seeker {
    /// The point mass this agent steers.
    pub vehicle: SimpleVehicle,
    /// The point sought or fled.
    pub target: Vector,
    pub mode: SteerMode,
    /// Set once the vehicle has come within [`REACHED_DISTANCE`] of the
    /// target; never cleared by the agent itself.
    pub reached_target: bool,
    /// The last computed steering force, retained for external readers.
    pub steering: Vector,
}

/// The steering force an agent computes from its state: the offset toward
/// the target (or away from it, fleeing), clamped to a desired speed
/// slightly above the current approximate speed, minus the current
/// velocity, clamped to the force limit.
pub open spec fn steer_force(s: Seeker) -> Vec3 {
    let diff = if s.mode == SteerMode::Seek {
        v3_diff(s.target@, s.vehicle.local_space.position@)
    } else {
        v3_diff(s.vehicle.local_space.position@, s.target@)
    };
    let goal = alen(s.vehicle.velocity@) * (DESIRED_SPEED_NUM as int) / (DESIRED_SPEED_DEN as int);
    let desired = v3_trunc(diff, goal);
    v3_trunc(v3_diff(desired, s.vehicle.velocity@), s.vehicle.max_force as int)
}

impl Seeker {
    /// An agent in seek mode, with a fresh vehicle at the origin, the
    /// target at the origin, and nothing reached yet.
    pub fn new() -> (r: Seeker)
        ensures
            r.mode == SteerMode::Seek,
            !r.reached_target,
            r.steering@ == v3_zero(),
            r.target@ == v3_zero(),
            r.vehicle.wf(),
            r.vehicle.local_space.position@ == v3_zero(),
            r.vehicle.local_space.forward@ == (Vec3 { x: 0, y: 0, z: SCALE as int }),
            r.vehicle.local_space.side@ == (Vec3 { x: SCALE as int, y: 0, z: 0 }),
            r.vehicle.local_space.up@ == (Vec3 { x: 0, y: SCALE as int, z: 0 }),
            r.vehicle.velocity@ == v3_zero(),
            r.vehicle.all_forces@ == v3_zero(),
            r.vehicle.acceleration@ == v3_zero(),
            r.vehicle.mass == crate::simple_vehicle::DEFAULT_MASS,
            r.vehicle.max_speed == crate::simple_vehicle::DEFAULT_MAX_SPEED,
            r.vehicle.max_force == crate::simple_vehicle::DEFAULT_MAX_FORCE,
    {
        Seeker {
            mode: SteerMode::Seek,
            reached_target: false,
            vehicle: SimpleVehicle::new(Vector::new(0, 0, 0)),
            target: Vector::new(0, 0, 0),
            steering: Vector::new(0, 0, 0),
        }
    }

    /// Compute the steering force for this tick and retain it in
    /// `steering`; nothing else changes.
    #[verifier::rlimit(100)]
    pub fn steer_for_seek_flee(&mut self)
        requires
            old(self).vehicle.wf(),
            bounded(old(self).vehicle.local_space.position@, POSITION_LIMIT as int),
            bounded(old(self).target@, POSITION_LIMIT as int),
        ensures
            final(self).steering@ == steer_force(*old(self)),
            bounded(final(self).steering@, 2 * old(self).vehicle.max_force + 1),
            final(self).vehicle == old(self).vehicle,
            final(self).target == old(self).target,
            final(self).mode == old(self).mode,
            final(self).reached_target == old(self).reached_target,
    {
        let target = self.target;
        let position = self.vehicle.local_space.position;
        if self.mode == SteerMode::Seek {
            self.steering.set_diff(target, position);
        } else {
            self.steering.set_diff(position, target);
        }

        let current_speed = self.vehicle.velocity.approximate_length();
        let goal_length = (current_speed * DESIRED_SPEED_NUM) / DESIRED_SPEED_DEN;
        self.steering.set_approximate_truncate(goal_length);

        let desired = self.steering;
        let velocity = self.vehicle.velocity;
        self.steering.set_diff(desired, velocity);
        self.steering.set_approximate_truncate(self.vehicle.max_force);
    }

    /// One agent tick: compute and retain the steering force, feed it to
    /// the vehicle, integrate the vehicle, then mark the target reached if
    /// the new position is close enough (the mark is sticky).
    #[verifier::rlimit(100)]
    pub fn update(&mut self)
        requires
            old(self).vehicle.wf(),
            bounded(old(self).vehicle.local_space.position@, POSITION_LIMIT as int),
            bounded(old(self).target@, POSITION_LIMIT as int),
            bounded(
                old(self).vehicle.all_forces@,
                FORCE_ACC_LIMIT as int - 2 * (SPEED_CAP as int) - 1,
            ),
        ensures
            final(self).steering@ == steer_force(*old(self)),
            vehicle_step(
                old(self).vehicle,
                v3_sum(old(self).vehicle.all_forces@, steer_force(*old(self))),
                final(self).vehicle,
            ),
            final(self).vehicle.wf(),
            final(self).vehicle.local_space.position@ == v3_sum(
                old(self).vehicle.local_space.position@,
                final(self).vehicle.velocity@,
            ),
            final(self).vehicle.max_speed == old(self).vehicle.max_speed,
            final(self).vehicle.max_force == old(self).vehicle.max_force,
            final(self).vehicle.all_forces@ == v3_zero(),
            final(self).reached_target == (old(self).reached_target
                || alen(v3_diff(old(self).target@, final(self).vehicle.local_space.position@))
                <= REACHED_DISTANCE),
            final(self).target == old(self).target,
            final(self).mode == old(self).mode,
    {
        self.steer_for_seek_flee();
        let force = self.steering;
        self.vehicle.apply_global_force(force);
        self.vehicle.update();

        let distance = self.target.approximate_distance(&self.vehicle.local_space.position);
        if distance <= REACHED_DISTANCE {
            self.reached_target = true;
        }
    }
}

} // verus!
