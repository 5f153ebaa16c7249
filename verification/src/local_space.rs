//! The vehicle's own oriented coordinate frame: three intended-unit axes
//! and a position, re-derived from motion by the owning vehicle each tick.

use vstd::prelude::*;

use crate::fixed::{sqrt_floor, SCALE};
use crate::vector::{
    bounded, lemma_cross_bound, msq, v3_cross, v3_norm, Vec3, Vector, MAG_LIMIT,
};

verus! {

pub struct LocalSpace {
    /// Axis along the direction of motion; starts along +z.
    pub forward: Vector,
    /// Axis to the vehicle's side; starts along +x.
    pub side: Vector,
    /// Axis above the vehicle; starts along +y.
    pub up: Vector,
    /// The vehicle's position.
    pub position: Vector,
}

/// Bounds on the frame axes that every per-tick re-derivation maintains:
/// `forward` is a normalization result, `side` a rescaled cross product of
/// two such vectors, and `up` a rescaled cross product of `side` and
/// `forward`.
pub open spec fn frame_bounded(ls: LocalSpace) -> bool {
    &&& bounded(ls.forward@, SCALE as int)
    &&& bounded(ls.side@, 2 * (SCALE as int))
    &&& bounded(ls.up@, 4 * (SCALE as int))
}

impl LocalSpace {
    /// A frame at the given position with the canonical basis.
    pub fn new(initial_position: Vector) -> (r: LocalSpace)
        ensures
            r.forward@ == (Vec3 { x: 0, y: 0, z: SCALE as int }),
            r.side@ == (Vec3 { x: SCALE as int, y: 0, z: 0 }),
            r.up@ == (Vec3 { x: 0, y: SCALE as int, z: 0 }),
            r.position@ == initial_position@,
            frame_bounded(r),
    {
        LocalSpace {
            forward: Vector::new(0, 0, SCALE),
            side: Vector::new(SCALE, 0, 0),
            up: Vector::new(0, SCALE, 0),
            position: initial_position,
        }
    }

    /// Re-derive the frame from the motion: `forward` along the velocity,
    /// `side` and `up` by cross products against the banking reference.
    /// A vehicle at rest (zero magnitude) keeps its previous frame.
    pub fn rederive(&mut self, velocity: Vector, bank_up: Vector)
        requires
            frame_bounded(*old(self)),
            bounded(velocity@, MAG_LIMIT as int),
            bounded(bank_up@, SCALE as int),
        ensures
            final(self).position == old(self).position,
            frame_bounded(*final(self)),
            sqrt_floor(msq(velocity@)) > 0 ==> {
                &&& final(self).forward@ == v3_norm(velocity@)
                &&& final(self).side@ == v3_cross(v3_norm(velocity@), bank_up@)
                &&& final(self).up@ == v3_cross(
                    v3_cross(v3_norm(velocity@), bank_up@),
                    v3_norm(velocity@),
                )
            },
            sqrt_floor(msq(velocity@)) <= 0 ==> {
                &&& final(self).forward@ == old(self).forward@
                &&& final(self).side@ == old(self).side@
                &&& final(self).up@ == old(self).up@
            },
    {
        let speed = velocity.magnitude();
        if speed > 0 {
            let mut fwd = velocity;
            fwd.set_normalize();
            self.forward = fwd;
            proof {
                lemma_cross_bound(fwd@, bank_up@, SCALE as int, SCALE as int);
            }
            self.side.set_cross(fwd, bank_up);
            let side_copy = self.side;
            proof {
                lemma_cross_bound(side_copy@, fwd@, 2 * (SCALE as int), SCALE as int);
            }
            self.up.set_cross(side_copy, fwd);
        }
    }
}

} // verus!
