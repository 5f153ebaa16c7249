// The vehicle integrator: construction defaults, the speed and force
// clamps after updates, and the no-op update at rest.

use seek_flee::fixed::SCALE;
use seek_flee::simple_vehicle::{
    SimpleVehicle, DEFAULT_MASS, DEFAULT_MAX_FORCE, DEFAULT_MAX_SPEED,
};
use seek_flee::vector::Vector;

#[test]
fn construction_defaults() {
    let v = SimpleVehicle::new(Vector::new(7 * SCALE, -2 * SCALE, 0));
    assert_eq!(v.mass, DEFAULT_MASS);
    assert_eq!(v.max_speed, DEFAULT_MAX_SPEED);
    assert_eq!(v.max_force, DEFAULT_MAX_FORCE);
    assert_eq!((v.local_space.position.x, v.local_space.position.y), (7 * SCALE, -2 * SCALE));
    assert_eq!((v.velocity.x, v.velocity.y, v.velocity.z), (0, 0, 0));
    // Canonical basis: forward +z, side +x, up +y.
    assert_eq!((v.local_space.forward.x, v.local_space.forward.y, v.local_space.forward.z),
        (0, 0, SCALE));
    assert_eq!((v.local_space.side.x, v.local_space.side.y, v.local_space.side.z),
        (SCALE, 0, 0));
    assert_eq!((v.local_space.up.x, v.local_space.up.y, v.local_space.up.z), (0, SCALE, 0));
}

#[test]
fn velocity_stays_under_max_speed() {
    let mut v = SimpleVehicle::new(Vector::new(0, 0, 0));
    for _ in 0..2000 {
        v.apply_global_force(Vector::new(900_000_000, -123_456, 0));
        v.update();
        assert!(v.velocity.approximate_length() <= v.max_speed);
    }
    // After a long push the vehicle is essentially at full speed.
    assert!(v.velocity.approximate_length() >= v.max_speed - 2);
}

#[test]
fn truncated_force_stays_under_max_force() {
    let mut f = Vector::new(900_000_000, -500_000_000, 123_456_789);
    f.set_approximate_truncate(DEFAULT_MAX_FORCE);
    assert!(f.approximate_length() <= DEFAULT_MAX_FORCE);
}

#[test]
fn update_at_rest_is_a_no_op() {
    let mut v = SimpleVehicle::new(Vector::new(5 * SCALE, 6 * SCALE, 0));
    for _ in 0..10 {
        v.update();
        assert_eq!((v.local_space.position.x, v.local_space.position.y,
            v.local_space.position.z), (5 * SCALE, 6 * SCALE, 0));
        assert_eq!((v.velocity.x, v.velocity.y, v.velocity.z), (0, 0, 0));
        // The zero-velocity branch freezes the frame.
        assert_eq!((v.local_space.forward.x, v.local_space.forward.y,
            v.local_space.forward.z), (0, 0, SCALE));
        assert_eq!((v.local_space.up.x, v.local_space.up.y, v.local_space.up.z),
            (0, SCALE, 0));
    }
}

#[test]
fn force_accumulates_until_update() {
    let mut v = SimpleVehicle::new(Vector::new(0, 0, 0));
    v.apply_global_force(Vector::new(100, 200, 300));
    v.apply_global_force(Vector::new(1, 2, 3));
    assert_eq!((v.all_forces.x, v.all_forces.y, v.all_forces.z), (101, 202, 303));
    v.update();
    assert_eq!((v.all_forces.x, v.all_forces.y, v.all_forces.z), (0, 0, 0));
}
