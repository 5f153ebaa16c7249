// Scenario runs of the steering agent: the exact steering force on known
// state, a seek run that closes on its target and latches the reached
// flag, a flee run that heads the opposite way, and the documented
// behavior of an agent starting from exact rest.

use seek_flee::fixed::SCALE;
use seek_flee::seeker::{Seeker, SteerMode, REACHED_DISTANCE};
use seek_flee::vector::Vector;

const TARGET_X: i64 = 100_000_000; // 100 units

#[test]
fn fresh_agent_defaults() {
    let agent = Seeker::new();
    assert!(matches!(agent.mode, SteerMode::Seek));
    assert!(!agent.reached_target);
    assert_eq!((agent.steering.x, agent.steering.y, agent.steering.z), (0, 0, 0));
    assert_eq!((agent.target.x, agent.target.y, agent.target.z), (0, 0, 0));
    let ls = &agent.vehicle.local_space;
    assert_eq!((ls.position.x, ls.position.y, ls.position.z), (0, 0, 0));
    assert_eq!((ls.forward.x, ls.forward.y, ls.forward.z), (0, 0, SCALE));
    assert_eq!((ls.side.x, ls.side.y, ls.side.z), (SCALE, 0, 0));
    assert_eq!((ls.up.x, ls.up.y, ls.up.z), (0, SCALE, 0));
}

#[test]
fn steering_force_exact_value() {
    let mut agent = Seeker::new();
    agent.target = Vector::new(TARGET_X, 0, 0);
    agent.vehicle.velocity = Vector::new(100_000, 0, 0);
    agent.steer_for_seek_flee();
    // approximate speed 93_750; desired speed 103_125; the offset clamps
    // to (110_000, 0, 0); minus the velocity: (10_000, 0, 0), well under
    // the force limit.
    assert_eq!((agent.steering.x, agent.steering.y, agent.steering.z), (10_000, 0, 0));
}

#[test]
fn seek_closes_on_target_and_latches() {
    let mut agent = Seeker::new();
    agent.target = Vector::new(TARGET_X, 0, 0);
    agent.vehicle.velocity = Vector::new(100_000, 0, 0);

    let mut prev_x = agent.vehicle.local_space.position.x;
    let mut ticks = 0u32;
    while !agent.reached_target {
        agent.update();
        ticks += 1;
        assert!(ticks <= 10_000, "target never reached");
        let x = agent.vehicle.local_space.position.x;
        assert!(x > prev_x, "position must strictly increase while seeking");
        prev_x = x;
    }
    // Arrived: within the reach threshold of the target.
    let d = agent.target.approximate_distance(&agent.vehicle.local_space.position);
    assert!(d <= REACHED_DISTANCE);
    // The flag is sticky: it stays set while the agent keeps running.
    for _ in 0..50 {
        agent.update();
        assert!(agent.reached_target);
    }
}

#[test]
fn flee_moves_opposite_to_seek() {
    let mut seek = Seeker::new();
    seek.target = Vector::new(TARGET_X, 0, 0);
    seek.vehicle.velocity = Vector::new(100_000, 0, 0);

    let mut flee = Seeker::new();
    flee.mode = SteerMode::Flee;
    flee.target = Vector::new(TARGET_X, 0, 0);
    flee.vehicle.velocity = Vector::new(100_000, 0, 0);

    for _ in 0..2000 {
        seek.update();
        flee.update();
    }
    assert!(seek.vehicle.local_space.position.x > 0);
    assert!(flee.vehicle.local_space.position.x < 0);
    assert!(!flee.reached_target);
}

#[test]
fn rest_with_zero_desired_speed_stays_at_rest() {
    // From exact rest the desired speed is zero, so the steering force is
    // zero and the agent never moves: the seek ramp needs some motion.
    let mut agent = Seeker::new();
    agent.target = Vector::new(TARGET_X, 0, 0);
    for _ in 0..20 {
        agent.update();
        assert_eq!((agent.steering.x, agent.steering.y, agent.steering.z), (0, 0, 0));
        assert_eq!(agent.vehicle.local_space.position.x, 0);
        assert_eq!(agent.vehicle.velocity.x, 0);
    }
}
