use ros2_sim::graph::SimError;
use ros2_sim::scalar::Scalar;
use ros2_sim::sim::Ros2Simulator;

fn sc(v: f64) -> Scalar {
    Scalar { bits: v.to_bits() }
}

fn fl(s: Scalar) -> f64 {
    f64::from_bits(s.bits)
}

#[test]
fn add_node_overwrites_in_place() {
    let mut sim = Ros2Simulator::new();
    sim.add_node("a".to_string(), "sensor".to_string(), sc(1.0), sc(2.0));
    sim.add_node("a".to_string(), "planner".to_string(), sc(3.0), sc(4.0));
    assert_eq!(sim.get_node_count(), 1);
    let nodes = sim.get_nodes();
    assert_eq!(nodes.len(), 1);
    assert_eq!(nodes[0].name, "a");
    assert_eq!(nodes[0].node_type, "planner");
    assert_eq!(fl(nodes[0].x), 3.0);
    assert_eq!(fl(nodes[0].y), 4.0);
}

#[test]
fn add_topic_overwrite_resets_membership() {
    let mut sim = Ros2Simulator::new();
    sim.add_node("n".to_string(), "t".to_string(), sc(0.0), sc(0.0));
    sim.add_topic("cmd".to_string(), "geometry".to_string());
    assert!(sim.publish("n".to_string(), "cmd".to_string()).is_ok());
    sim.add_topic("cmd".to_string(), "twist".to_string());
    assert_eq!(sim.get_topic_count(), 1);
    let topics = sim.get_topics();
    assert_eq!(topics[0].msg_type, "twist");
    assert!(topics[0].publishers.is_empty());
    assert!(topics[0].subscribers.is_empty());
}

#[test]
fn publish_twice_keeps_single_occurrence() {
    let mut sim = Ros2Simulator::new();
    sim.add_node("n".to_string(), "t".to_string(), sc(0.0), sc(0.0));
    sim.add_topic("cmd".to_string(), "twist".to_string());
    assert!(sim.publish("n".to_string(), "cmd".to_string()).is_ok());
    assert!(sim.publish("n".to_string(), "cmd".to_string()).is_ok());
    let topics = sim.get_topics();
    assert_eq!(topics[0].publishers, vec!["n".to_string()]);
}

#[test]
fn subscribe_twice_keeps_single_occurrence() {
    let mut sim = Ros2Simulator::new();
    sim.add_node("n".to_string(), "t".to_string(), sc(0.0), sc(0.0));
    sim.add_topic("cmd".to_string(), "twist".to_string());
    assert!(sim.subscribe("n".to_string(), "cmd".to_string()).is_ok());
    assert!(sim.subscribe("n".to_string(), "cmd".to_string()).is_ok());
    let topics = sim.get_topics();
    assert_eq!(topics[0].subscribers, vec!["n".to_string()]);
    assert!(topics[0].publishers.is_empty());
}

#[test]
fn publish_missing_node_is_node_not_found() {
    let mut sim = Ros2Simulator::new();
    assert_eq!(
        sim.publish("ghost".to_string(), "t".to_string()),
        Err(SimError::NodeNotFound)
    );
}

#[test]
fn publish_missing_topic_is_topic_not_found() {
    let mut sim = Ros2Simulator::new();
    sim.add_node("n".to_string(), "t".to_string(), sc(0.0), sc(0.0));
    assert_eq!(
        sim.publish("n".to_string(), "ghost".to_string()),
        Err(SimError::TopicNotFound)
    );
}

#[test]
fn subscribe_lookup_errors_mirror_publish() {
    let mut sim = Ros2Simulator::new();
    assert_eq!(
        sim.subscribe("ghost".to_string(), "t".to_string()),
        Err(SimError::NodeNotFound)
    );
    sim.add_node("n".to_string(), "t".to_string(), sc(0.0), sc(0.0));
    assert_eq!(
        sim.subscribe("n".to_string(), "ghost".to_string()),
        Err(SimError::TopicNotFound)
    );
}

#[test]
fn membership_keeps_insertion_order() {
    let mut sim = Ros2Simulator::new();
    sim.add_node("a".to_string(), "t".to_string(), sc(0.0), sc(0.0));
    sim.add_node("b".to_string(), "t".to_string(), sc(0.0), sc(0.0));
    sim.add_topic("cmd".to_string(), "twist".to_string());
    assert!(sim.publish("a".to_string(), "cmd".to_string()).is_ok());
    assert!(sim.publish("b".to_string(), "cmd".to_string()).is_ok());
    assert!(sim.publish("a".to_string(), "cmd".to_string()).is_ok());
    let topics = sim.get_topics();
    assert_eq!(topics[0].publishers, vec!["a".to_string(), "b".to_string()]);
}

#[test]
fn send_message_ignores_topic_registry() {
    let mut sim = Ros2Simulator::new();
    sim.send_message("nonexistent-topic".to_string(), "x".to_string(), sc(0.0));
    assert_eq!(sim.get_topic_count(), 0);
    let messages = sim.get_messages();
    assert_eq!(messages.len(), 1);
    assert_eq!(messages[0].topic, "nonexistent-topic");
    assert_eq!(messages[0].data, "x");
    assert_eq!(fl(messages[0].timestamp), 0.0);
}

#[test]
fn message_log_keeps_insertion_order() {
    let mut sim = Ros2Simulator::new();
    sim.send_message("t".to_string(), "first".to_string(), sc(1.0));
    sim.send_message("t".to_string(), "second".to_string(), sc(2.0));
    let messages = sim.get_messages();
    assert_eq!(messages.len(), 2);
    assert_eq!(messages[0].data, "first");
    assert_eq!(messages[1].data, "second");
}

#[test]
fn clear_messages_leaves_nodes_and_topics() {
    let mut sim = Ros2Simulator::new();
    sim.add_node("n".to_string(), "t".to_string(), sc(0.0), sc(0.0));
    sim.add_topic("cmd".to_string(), "twist".to_string());
    sim.send_message("cmd".to_string(), "m".to_string(), sc(0.5));
    sim.clear_messages();
    assert_eq!(sim.get_messages().len(), 0);
    assert_eq!(sim.get_node_count(), 1);
    assert_eq!(sim.get_topic_count(), 1);
}

#[test]
fn reset_zeroes_everything() {
    let mut sim = Ros2Simulator::new();
    sim.add_node("n".to_string(), "t".to_string(), sc(0.0), sc(0.0));
    sim.add_topic("cmd".to_string(), "twist".to_string());
    sim.add_robot("r".to_string(), "turtlebot".to_string(), sc(0.0), sc(0.0));
    sim.add_obstacle(sc(1.0), sc(1.0), sc(2.0), sc(2.0), "rectangle".to_string());
    sim.send_message("cmd".to_string(), "m".to_string(), sc(0.0));
    sim.reset();
    assert_eq!(sim.get_node_count(), 0);
    assert_eq!(sim.get_topic_count(), 0);
    assert_eq!(sim.get_robot_count(), 0);
    assert_eq!(sim.get_messages().len(), 0);
    assert_eq!(sim.get_obstacles().len(), 0);
}

#[test]
fn clear_obstacles_touches_only_obstacles() {
    let mut sim = Ros2Simulator::new();
    sim.add_node("n".to_string(), "t".to_string(), sc(0.0), sc(0.0));
    sim.add_topic("cmd".to_string(), "twist".to_string());
    sim.add_robot("r".to_string(), "turtlebot".to_string(), sc(0.0), sc(0.0));
    sim.add_obstacle(sc(1.0), sc(1.0), sc(2.0), sc(2.0), "circle".to_string());
    sim.send_message("cmd".to_string(), "m".to_string(), sc(0.0));
    sim.clear_obstacles();
    assert_eq!(sim.get_obstacles().len(), 0);
    assert_eq!(sim.get_node_count(), 1);
    assert_eq!(sim.get_topic_count(), 1);
    assert_eq!(sim.get_robot_count(), 1);
    assert_eq!(sim.get_messages().len(), 1);
}
