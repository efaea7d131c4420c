//! The simulator facade: one graph registry and one kinematics engine
//! behind a single set of entry points, with a combined lifecycle.

use crate::graph::{
    added_once, upsert_node, GraphRegistry, Ros2Message, Ros2Node, Ros2Topic, SimError,
};
use crate::kinematics::{
    action_applied, bounding_box, lower_of, robot_moved, robots_after_update, upsert_robot,
    velocity_set, KinematicsEngine, Obstacle, Pose, Robot, ZERO_BITS,
};
use crate::scalar::Scalar;
use vstd::prelude::*;

verus! {

/// The primary simulation state: the computation graph and the
/// kinematic playground, constructed empty and reset together.
pub struct Ros2Simulator {
    graph: GraphRegistry,
    engine: KinematicsEngine,
}

impl Ros2Simulator {
    pub closed spec fn graph(self) -> GraphRegistry {
        self.graph
    }

    pub closed spec fn engine(self) -> KinematicsEngine {
        self.engine
    }

    pub open spec fn wf(self) -> bool {
        self.graph().wf() && self.engine().wf()
    }

    /// A simulator with empty registries.
    pub fn new() -> (r: Ros2Simulator)
        ensures
            r.wf(),
            r.graph().nodes_seq() == Seq::<Ros2Node>::empty(),
            r.graph().topics_seq() == Seq::<Ros2Topic>::empty(),
            r.graph().messages_seq() == Seq::<Ros2Message>::empty(),
            r.engine().robots_seq() == Seq::<Robot>::empty(),
            r.engine().obstacles_seq() == Seq::<Obstacle>::empty(),
            r.engine().last_hint() == (Scalar { bits: ZERO_BITS }),
    {
        Ros2Simulator { graph: GraphRegistry::new(), engine: KinematicsEngine::new() }
    }

    /// Inserts or overwrites the node under `name`.
    pub fn add_node(&mut self, name: String, node_type: String, x: Scalar, y: Scalar)
        requires
            old(self).wf(),
        ensures
            final(self).wf(),
            final(self).graph().nodes_seq() == upsert_node(
                old(self).graph().nodes_seq(),
                (Ros2Node { name, node_type, x, y }),
            ),
            final(self).graph().has_node(name@),
            final(self).graph().node_of(name@) == (Ros2Node { name, node_type, x, y }),
            forall|m: Seq<char>|
                m != name@ ==> #[trigger] final(self).graph().has_node(m) == old(self).graph().has_node(m),
            forall|m: Seq<char>|
                m != name@ && old(self).graph().has_node(m) ==> #[trigger] final(self).graph().node_of(m) == old(self).graph().node_of(m),
            final(self).graph().nodes_seq().len() == if old(self).graph().has_node(name@) {
                old(self).graph().nodes_seq().len()
            } else {
                old(self).graph().nodes_seq().len() + 1
            },
            final(self).graph().topics_seq() == old(self).graph().topics_seq(),
            final(self).graph().messages_seq() == old(self).graph().messages_seq(),
            final(self).engine() == old(self).engine(),
    {
        self.graph.add_node(name, node_type, x, y);
    }

    /// Inserts or overwrites the topic under `name` with empty
    /// membership lists.
    pub fn add_topic(&mut self, name: String, msg_type: String)
        requires
            old(self).wf(),
        ensures
            final(self).wf(),
            final(self).graph().topics_seq().len() == crate::graph::upsert_topic_len(
                old(self).graph().topics_seq(),
                name@,
            ),
            final(self).graph().has_topic(name@),
            final(self).graph().topic_of(name@).name == name,
            final(self).graph().topic_of(name@).msg_type == msg_type,
            final(self).graph().topic_of(name@).publishers@ == Seq::<String>::empty(),
            final(self).graph().topic_of(name@).subscribers@ == Seq::<String>::empty(),
            forall|m: Seq<char>|
                m != name@ ==> #[trigger] final(self).graph().has_topic(m) == old(self).graph().has_topic(m),
            forall|m: Seq<char>|
                m != name@ && old(self).graph().has_topic(m) ==> #[trigger] final(self).graph().topic_of(m) == old(self).graph().topic_of(m),
            final(self).graph().nodes_seq() == old(self).graph().nodes_seq(),
            final(self).graph().messages_seq() == old(self).graph().messages_seq(),
            final(self).engine() == old(self).engine(),
    {
        self.graph.add_topic(name, msg_type);
    }

    /// Adds `node_name` to the publisher list of `topic_name`; strict
    /// lookup on both names, idempotent on repeat calls.
    pub fn publish(&mut self, node_name: String, topic_name: String) -> (r: Result<(), SimError>)
        requires
            old(self).wf(),
        ensures
            final(self).wf(),
            final(self).graph().nodes_seq() == old(self).graph().nodes_seq(),
            final(self).graph().messages_seq() == old(self).graph().messages_seq(),
            final(self).engine() == old(self).engine(),
            r is Err ==> final(self).graph().topics_seq() == old(self).graph().topics_seq(),
            !old(self).graph().has_node(node_name@) ==> r == Err::<(), SimError>(
                SimError::NodeNotFound,
            ),
            old(self).graph().has_node(node_name@) && !old(self).graph().has_topic(topic_name@)
                ==> r == Err::<(), SimError>(SimError::TopicNotFound),
            old(self).graph().has_node(node_name@) && old(self).graph().has_topic(topic_name@)
                ==> r == Ok::<(), SimError>(()),
            r is Ok ==> {
                &&& final(self).graph().topics_seq().len() == old(self).graph().topics_seq().len()
                &&& forall|m: Seq<char>| #[trigger]
                    final(self).graph().has_topic(m) == old(self).graph().has_topic(m)
                &&& forall|m: Seq<char>|
                    m != topic_name@ && old(self).graph().has_topic(m) ==> #[trigger] final(self).graph().topic_of(m) == old(self).graph().topic_of(m)
                &&& final(self).graph().topic_of(topic_name@).name == old(self).graph().topic_of(
                    topic_name@,
                ).name
                &&& final(self).graph().topic_of(topic_name@).msg_type == old(self).graph().topic_of(topic_name@).msg_type
                &&& final(self).graph().topic_of(topic_name@).subscribers == old(self).graph().topic_of(topic_name@).subscribers
                &&& final(self).graph().topic_of(topic_name@).publishers@ == added_once(
                    old(self).graph().topic_of(topic_name@).publishers@,
                    node_name,
                )
            },
    {
        self.graph.publish(node_name, topic_name)
    }

    /// Adds `node_name` to the subscriber list of `topic_name`; the
    /// contract mirrors `publish` exactly.
    pub fn subscribe(&mut self, node_name: String, topic_name: String) -> (r: Result<(), SimError>)
        requires
            old(self).wf(),
        ensures
            final(self).wf(),
            final(self).graph().nodes_seq() == old(self).graph().nodes_seq(),
            final(self).graph().messages_seq() == old(self).graph().messages_seq(),
            final(self).engine() == old(self).engine(),
            r is Err ==> final(self).graph().topics_seq() == old(self).graph().topics_seq(),
            !old(self).graph().has_node(node_name@) ==> r == Err::<(), SimError>(
                SimError::NodeNotFound,
            ),
            old(self).graph().has_node(node_name@) && !old(self).graph().has_topic(topic_name@)
                ==> r == Err::<(), SimError>(SimError::TopicNotFound),
            old(self).graph().has_node(node_name@) && old(self).graph().has_topic(topic_name@)
                ==> r == Ok::<(), SimError>(()),
            r is Ok ==> {
                &&& final(self).graph().topics_seq().len() == old(self).graph().topics_seq().len()
                &&& forall|m: Seq<char>| #[trigger]
                    final(self).graph().has_topic(m) == old(self).graph().has_topic(m)
                &&& forall|m: Seq<char>|
                    m != topic_name@ && old(self).graph().has_topic(m) ==> #[trigger] final(self).graph().topic_of(m) == old(self).graph().topic_of(m)
                &&& final(self).graph().topic_of(topic_name@).name == old(self).graph().topic_of(
                    topic_name@,
                ).name
                &&& final(self).graph().topic_of(topic_name@).msg_type == old(self).graph().topic_of(topic_name@).msg_type
                &&& final(self).graph().topic_of(topic_name@).publishers == old(self).graph().topic_of(topic_name@).publishers
                &&& final(self).graph().topic_of(topic_name@).subscribers@ == added_once(
                    old(self).graph().topic_of(topic_name@).subscribers@,
                    node_name,
                )
            },
    {
        self.graph.subscribe(node_name, topic_name)
    }

    /// Unconditionally appends a message entry; the topic name is not
    /// validated.
    pub fn send_message(&mut self, topic: String, data: String, timestamp: Scalar)
        requires
            old(self).wf(),
        ensures
            final(self).wf(),
            final(self).graph().messages_seq() == old(self).graph().messages_seq().push(
                (Ros2Message { topic, data, timestamp }),
            ),
            final(self).graph().nodes_seq() == old(self).graph().nodes_seq(),
            final(self).graph().topics_seq() == old(self).graph().topics_seq(),
            final(self).engine() == old(self).engine(),
    {
        self.graph.send_message(topic, data, timestamp);
    }

    /// Empties the message log only.
    pub fn clear_messages(&mut self)
        requires
            old(self).wf(),
        ensures
            final(self).wf(),
            final(self).graph().messages_seq() == Seq::<Ros2Message>::empty(),
            final(self).graph().nodes_seq() == old(self).graph().nodes_seq(),
            final(self).graph().topics_seq() == old(self).graph().topics_seq(),
            final(self).engine() == old(self).engine(),
    {
        self.graph.clear_messages();
    }

    pub fn get_node_count(&self) -> (r: usize)
        ensures
            r == self.graph().nodes_seq().len(),
    {
        self.graph.get_node_count()
    }

    pub fn get_topic_count(&self) -> (r: usize)
        ensures
            r == self.graph().topics_seq().len(),
    {
        self.graph.get_topic_count()
    }

    /// Clears nodes, topics, messages, robots and obstacles together.
    pub fn reset(&mut self)
        ensures
            final(self).wf(),
            final(self).graph().nodes_seq() == Seq::<Ros2Node>::empty(),
            final(self).graph().topics_seq() == Seq::<Ros2Topic>::empty(),
            final(self).graph().messages_seq() == Seq::<Ros2Message>::empty(),
            final(self).engine().robots_seq() == Seq::<Robot>::empty(),
            final(self).engine().obstacles_seq() == Seq::<Obstacle>::empty(),
    {
        self.graph.clear();
        self.engine.clear();
    }

    /// Inserts or overwrites the robot under `name`.
    pub fn add_robot(&mut self, name: String, robot_type: String, x: Scalar, y: Scalar)
        requires
            old(self).wf(),
        ensures
            final(self).wf(),
            final(self).engine().robots_seq() == upsert_robot(
                old(self).engine().robots_seq(),
                (Robot {
                    name,
                    robot_type,
                    x,
                    y,
                    theta: Scalar { bits: ZERO_BITS },
                    linear_vel: Scalar { bits: ZERO_BITS },
                    angular_vel: Scalar { bits: ZERO_BITS },
                    width: bounding_box(robot_type@).0,
                    height: bounding_box(robot_type@).1,
                }),
            ),
            final(self).engine().has_robot(name@),
            final(self).engine().robot_of(name@) == (Robot {
                name,
                robot_type,
                x,
                y,
                theta: Scalar { bits: ZERO_BITS },
                linear_vel: Scalar { bits: ZERO_BITS },
                angular_vel: Scalar { bits: ZERO_BITS },
                width: bounding_box(robot_type@).0,
                height: bounding_box(robot_type@).1,
            }),
            forall|m: Seq<char>|
                m != name@ ==> #[trigger] final(self).engine().has_robot(m) == old(self).engine().has_robot(m),
            forall|m: Seq<char>|
                m != name@ && old(self).engine().has_robot(m) ==> #[trigger] final(self).engine().robot_of(m) == old(self).engine().robot_of(m),
            final(self).engine().robots_seq().len() == if old(self).engine().has_robot(name@) {
                old(self).engine().robots_seq().len()
            } else {
                old(self).engine().robots_seq().len() + 1
            },
            final(self).engine().obstacles_seq() == old(self).engine().obstacles_seq(),
            final(self).graph() == old(self).graph(),
    {
        self.engine.add_robot(name, robot_type, x, y);
    }

    /// Overwrites the robot's velocities; a silent no-op if unknown.
    pub fn set_robot_velocity(&mut self, name: String, linear: Scalar, angular: Scalar)
        requires
            old(self).wf(),
        ensures
            final(self).wf(),
            final(self).engine().robots_seq() == velocity_set(
                old(self).engine().robots_seq(),
                name@,
                linear,
                angular,
            ),
            final(self).engine().obstacles_seq() == old(self).engine().obstacles_seq(),
            final(self).engine().last_hint() == old(self).engine().last_hint(),
            final(self).graph() == old(self).graph(),
    {
        self.engine.set_robot_velocity(name, linear, angular);
    }

    /// The per-frame advance; see `KinematicsEngine::update_robots`.
    pub fn update_robots(&mut self, dt_hint: Scalar, poses: &Vec<Pose>)
        requires
            old(self).wf(),
            poses@.len() == old(self).engine().robots_seq().len(),
        ensures
            final(self).wf(),
            final(self).engine().robots_seq() == robots_after_update(
                old(self).engine().robots_seq(),
                poses@,
            ),
            final(self).engine().obstacles_seq() == old(self).engine().obstacles_seq(),
            final(self).engine().last_hint() == dt_hint,
            final(self).graph() == old(self).graph(),
    {
        self.engine.update_robots(dt_hint, poses);
    }

    /// Appends an anonymous obstacle.
    pub fn add_obstacle(&mut self, x: Scalar, y: Scalar, width: Scalar, height: Scalar, shape: String)
        requires
            old(self).wf(),
        ensures
            final(self).wf(),
            final(self).engine().obstacles_seq() == old(self).engine().obstacles_seq().push(
                (Obstacle { x, y, width, height, shape }),
            ),
            final(self).engine().robots_seq() == old(self).engine().robots_seq(),
            final(self).engine().last_hint() == old(self).engine().last_hint(),
            final(self).graph() == old(self).graph(),
    {
        self.engine.add_obstacle(x, y, width, height, shape);
    }

    /// Empties the obstacle list only.
    pub fn clear_obstacles(&mut self)
        requires
            old(self).wf(),
        ensures
            final(self).wf(),
            final(self).engine().obstacles_seq() == Seq::<Obstacle>::empty(),
            final(self).engine().robots_seq() == old(self).engine().robots_seq(),
            final(self).engine().last_hint() == old(self).engine().last_hint(),
            final(self).graph() == old(self).graph(),
    {
        self.engine.clear_obstacles();
    }

    /// Teleports the robot's position; a silent no-op if unknown.
    pub fn move_robot(&mut self, name: String, x: Scalar, y: Scalar)
        requires
            old(self).wf(),
        ensures
            final(self).wf(),
            final(self).engine().robots_seq() == robot_moved(
                old(self).engine().robots_seq(),
                name@,
                x,
                y,
            ),
            final(self).engine().obstacles_seq() == old(self).engine().obstacles_seq(),
            final(self).engine().last_hint() == old(self).engine().last_hint(),
            final(self).graph() == old(self).graph(),
    {
        self.engine.move_robot(name, x, y);
    }

    /// Applies a case-insensitive action token; a silent no-op if the
    /// robot is unknown or the token is unrecognized.
    pub fn apply_action(&mut self, name: String, action: String)
        requires
            old(self).wf(),
        ensures
            final(self).wf(),
            final(self).engine().robots_seq() == action_applied(
                old(self).engine().robots_seq(),
                name@,
                lower_of(action@),
            ),
            final(self).engine().obstacles_seq() == old(self).engine().obstacles_seq(),
            final(self).engine().last_hint() == old(self).engine().last_hint(),
            final(self).graph() == old(self).graph(),
    {
        self.engine.apply_action(name, action);
    }

    pub fn get_robot_count(&self) -> (r: usize)
        ensures
            r == self.engine().robots_seq().len(),
    {
        self.engine.get_robot_count()
    }

    /// The full current node listing, in unspecified order.
    pub fn get_nodes(&self) -> (r: &Vec<Ros2Node>)
        ensures
            r@ == self.graph().nodes_seq(),
    {
        self.graph.get_nodes()
    }

    /// The full current topic listing, in unspecified order.
    pub fn get_topics(&self) -> (r: &Vec<Ros2Topic>)
        ensures
            r@ == self.graph().topics_seq(),
    {
        self.graph.get_topics()
    }

    /// The message log, in insertion order.
    pub fn get_messages(&self) -> (r: &Vec<Ros2Message>)
        ensures
            r@ == self.graph().messages_seq(),
    {
        self.graph.get_messages()
    }

    /// The full current robot listing, in unspecified order.
    pub fn get_robots(&self) -> (r: &Vec<Robot>)
        ensures
            r@ == self.engine().robots_seq(),
    {
        self.engine.get_robots()
    }

    /// The obstacle listing, in insertion order.
    pub fn get_obstacles(&self) -> (r: &Vec<Obstacle>)
        ensures
            r@ == self.engine().obstacles_seq(),
    {
        self.engine.get_obstacles()
    }
}

} // verus!
