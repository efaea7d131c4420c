use ros2_sim::kinematics::{Pose, Robot, DELTA_TIME_STEP_BITS};
use ros2_sim::scalar::Scalar;
use ros2_sim::sim::Ros2Simulator;

fn sc(v: f64) -> Scalar {
    Scalar { bits: v.to_bits() }
}

fn fl(s: Scalar) -> f64 {
    f64::from_bits(s.bits)
}

/// One unicycle integration step with the engine's fixed step: heading
/// first, then translation along the new heading, then normalization of
/// the heading into (-pi, pi].
fn integrate(robot: &Robot) -> Pose {
    let dt = f64::from_bits(DELTA_TIME_STEP_BITS);
    let mut theta = fl(robot.theta) + fl(robot.angular_vel) * dt;
    let x = fl(robot.x) + fl(robot.linear_vel) * theta.cos() * dt;
    let y = fl(robot.y) + fl(robot.linear_vel) * theta.sin() * dt;
    while theta > std::f64::consts::PI {
        theta -= 2.0 * std::f64::consts::PI;
    }
    while theta < -std::f64::consts::PI {
        theta += 2.0 * std::f64::consts::PI;
    }
    Pose { x: sc(x), y: sc(y), theta: sc(theta) }
}

/// Drives the per-frame advance the way the embedding layer does:
/// integrate every robot with the fixed step, then hand the poses back.
fn step(sim: &mut Ros2Simulator, dt_hint: f64) {
    let poses: Vec<Pose> = sim.get_robots().iter().map(integrate).collect();
    sim.update_robots(sc(dt_hint), &poses);
}

#[test]
fn bounding_box_turtlebot() {
    let mut sim = Ros2Simulator::new();
    sim.add_robot("r".to_string(), "turtlebot".to_string(), sc(0.0), sc(0.0));
    let robots = sim.get_robots();
    assert_eq!(fl(robots[0].width), 40.0);
    assert_eq!(fl(robots[0].height), 40.0);
}

#[test]
fn bounding_box_differential() {
    let mut sim = Ros2Simulator::new();
    sim.add_robot("r".to_string(), "differential".to_string(), sc(0.0), sc(0.0));
    let robots = sim.get_robots();
    assert_eq!(fl(robots[0].width), 50.0);
    assert_eq!(fl(robots[0].height), 50.0);
}

#[test]
fn bounding_box_ackermann() {
    let mut sim = Ros2Simulator::new();
    sim.add_robot("r".to_string(), "ackermann".to_string(), sc(0.0), sc(0.0));
    let robots = sim.get_robots();
    assert_eq!(fl(robots[0].width), 60.0);
    assert_eq!(fl(robots[0].height), 40.0);
}

#[test]
fn bounding_box_unknown_type_gets_default() {
    let mut sim = Ros2Simulator::new();
    sim.add_robot("r".to_string(), "unknown-type".to_string(), sc(0.0), sc(0.0));
    assert_eq!(sim.get_robot_count(), 1);
    let robots = sim.get_robots();
    assert_eq!(fl(robots[0].width), 40.0);
    assert_eq!(fl(robots[0].height), 40.0);
}

#[test]
fn add_robot_overwrites_in_place() {
    let mut sim = Ros2Simulator::new();
    sim.add_robot("r".to_string(), "turtlebot".to_string(), sc(5.0), sc(6.0));
    sim.set_robot_velocity("r".to_string(), sc(9.0), sc(9.0));
    sim.add_robot("r".to_string(), "ackermann".to_string(), sc(1.0), sc(2.0));
    assert_eq!(sim.get_robot_count(), 1);
    let robots = sim.get_robots();
    assert_eq!(robots[0].robot_type, "ackermann");
    assert_eq!(fl(robots[0].x), 1.0);
    assert_eq!(fl(robots[0].y), 2.0);
    assert_eq!(fl(robots[0].theta), 0.0);
    assert_eq!(fl(robots[0].linear_vel), 0.0);
    assert_eq!(fl(robots[0].angular_vel), 0.0);
    assert_eq!(fl(robots[0].width), 60.0);
}

#[test]
fn apply_action_forward_case_insensitive() {
    let mut sim = Ros2Simulator::new();
    sim.add_robot("r".to_string(), "turtlebot".to_string(), sc(0.0), sc(0.0));
    sim.apply_action("r".to_string(), "FORWARD".to_string());
    let robots = sim.get_robots();
    assert_eq!(fl(robots[0].linear_vel), 60.0);
    assert_eq!(fl(robots[0].angular_vel), 0.0);
}

#[test]
fn apply_action_profiles() {
    let mut sim = Ros2Simulator::new();
    sim.add_robot("r".to_string(), "turtlebot".to_string(), sc(0.0), sc(0.0));
    sim.apply_action("r".to_string(), "backward".to_string());
    assert_eq!(fl(sim.get_robots()[0].linear_vel), -40.0);
    assert_eq!(fl(sim.get_robots()[0].angular_vel), 0.0);
    sim.apply_action("r".to_string(), "left".to_string());
    assert_eq!(fl(sim.get_robots()[0].linear_vel), 0.0);
    assert_eq!(fl(sim.get_robots()[0].angular_vel), 1.2);
    sim.apply_action("r".to_string(), "Right".to_string());
    assert_eq!(fl(sim.get_robots()[0].linear_vel), 0.0);
    assert_eq!(fl(sim.get_robots()[0].angular_vel), -1.2);
    sim.apply_action("r".to_string(), "stop".to_string());
    assert_eq!(fl(sim.get_robots()[0].linear_vel), 0.0);
    assert_eq!(fl(sim.get_robots()[0].angular_vel), 0.0);
}

#[test]
fn apply_action_unknown_token_changes_nothing() {
    let mut sim = Ros2Simulator::new();
    sim.add_robot("r".to_string(), "turtlebot".to_string(), sc(0.0), sc(0.0));
    sim.set_robot_velocity("r".to_string(), sc(7.0), sc(8.0));
    sim.apply_action("r".to_string(), "sideways".to_string());
    let robots = sim.get_robots();
    assert_eq!(fl(robots[0].linear_vel), 7.0);
    assert_eq!(fl(robots[0].angular_vel), 8.0);
}

#[test]
fn unknown_robot_operations_are_silent_noops() {
    let mut sim = Ros2Simulator::new();
    sim.set_robot_velocity("ghost".to_string(), sc(1.0), sc(1.0));
    sim.move_robot("ghost".to_string(), sc(1.0), sc(1.0));
    sim.apply_action("ghost".to_string(), "forward".to_string());
    assert_eq!(sim.get_robot_count(), 0);
    assert!(sim.get_robots().is_empty());
}

#[test]
fn set_velocity_overwrites_only_velocities() {
    let mut sim = Ros2Simulator::new();
    sim.add_robot("r".to_string(), "turtlebot".to_string(), sc(3.0), sc(4.0));
    sim.set_robot_velocity("r".to_string(), sc(12.5), sc(-0.5));
    let robots = sim.get_robots();
    assert_eq!(fl(robots[0].linear_vel), 12.5);
    assert_eq!(fl(robots[0].angular_vel), -0.5);
    assert_eq!(fl(robots[0].x), 3.0);
    assert_eq!(fl(robots[0].y), 4.0);
    assert_eq!(fl(robots[0].theta), 0.0);
}

#[test]
fn move_robot_teleports_position_only() {
    let mut sim = Ros2Simulator::new();
    sim.add_robot("r".to_string(), "turtlebot".to_string(), sc(0.0), sc(0.0));
    sim.set_robot_velocity("r".to_string(), sc(2.0), sc(3.0));
    sim.move_robot("r".to_string(), sc(10.0), sc(20.0));
    let robots = sim.get_robots();
    assert_eq!(fl(robots[0].x), 10.0);
    assert_eq!(fl(robots[0].y), 20.0);
    assert_eq!(fl(robots[0].linear_vel), 2.0);
    assert_eq!(fl(robots[0].angular_vel), 3.0);
}

#[test]
fn update_ignores_step_hint() {
    let mut sim1 = Ros2Simulator::new();
    let mut sim2 = Ros2Simulator::new();
    for sim in [&mut sim1, &mut sim2] {
        sim.add_robot("r".to_string(), "turtlebot".to_string(), sc(1.0), sc(2.0));
        sim.set_robot_velocity("r".to_string(), sc(60.0), sc(0.7));
    }
    step(&mut sim1, 1000.0);
    step(&mut sim2, 0.001);
    let r1 = &sim1.get_robots()[0];
    let r2 = &sim2.get_robots()[0];
    assert_eq!(r1.x.bits, r2.x.bits);
    assert_eq!(r1.y.bits, r2.y.bits);
    assert_eq!(r1.theta.bits, r2.theta.bits);
}

#[test]
fn update_advances_with_fixed_step() {
    let mut sim = Ros2Simulator::new();
    sim.add_robot("r".to_string(), "turtlebot".to_string(), sc(0.0), sc(0.0));
    sim.apply_action("r".to_string(), "forward".to_string());
    step(&mut sim, 1000.0);
    let robots = sim.get_robots();
    let dt = f64::from_bits(DELTA_TIME_STEP_BITS);
    let expected_x = 60.0 * (0.0f64).cos() * dt;
    assert_eq!(fl(robots[0].x), expected_x);
    assert!((fl(robots[0].x) - 0.96).abs() < 1e-12);
    assert_eq!(fl(robots[0].y), 0.0);
    assert_eq!(fl(robots[0].theta), 0.0);
}

#[test]
fn update_normalizes_theta_into_half_open_range() {
    let mut sim = Ros2Simulator::new();
    sim.add_robot("r".to_string(), "turtlebot".to_string(), sc(0.0), sc(0.0));
    sim.set_robot_velocity("r".to_string(), sc(0.0), sc(300.0));
    step(&mut sim, 0.016);
    let theta = fl(sim.get_robots()[0].theta);
    assert!(theta > -std::f64::consts::PI);
    assert!(theta <= std::f64::consts::PI);
}

#[test]
fn update_touches_every_robot() {
    let mut sim = Ros2Simulator::new();
    sim.add_robot("a".to_string(), "turtlebot".to_string(), sc(0.0), sc(0.0));
    sim.add_robot("b".to_string(), "turtlebot".to_string(), sc(5.0), sc(0.0));
    sim.apply_action("a".to_string(), "forward".to_string());
    sim.apply_action("b".to_string(), "backward".to_string());
    step(&mut sim, 0.016);
    let robots = sim.get_robots();
    assert!(fl(robots[0].x) > 0.0);
    assert!(fl(robots[1].x) < 5.0);
}

#[test]
fn obstacles_keep_attributes_and_order() {
    let mut sim = Ros2Simulator::new();
    sim.add_obstacle(sc(1.0), sc(2.0), sc(3.0), sc(4.0), "rectangle".to_string());
    sim.add_obstacle(sc(5.0), sc(6.0), sc(7.0), sc(8.0), "circle".to_string());
    let obstacles = sim.get_obstacles();
    assert_eq!(obstacles.len(), 2);
    assert_eq!(obstacles[0].shape, "rectangle");
    assert_eq!(fl(obstacles[0].x), 1.0);
    assert_eq!(obstacles[1].shape, "circle");
    assert_eq!(fl(obstacles[1].height), 8.0);
}
