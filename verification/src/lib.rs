//! An in-memory model of a publish/subscribe computation graph (nodes,
//! topics, a flat message log) coupled with a 2D kinematic simulation of
//! mobile robots and static obstacles.
//!
//! The library is split into two components behind one facade:
//!
//! - [`graph::GraphRegistry`] owns nodes, topics and the message log and
//!   enforces name-based identity and duplicate-free publisher/subscriber
//!   membership.
//! - [`kinematics::KinematicsEngine`] owns robots and obstacles, maps
//!   discrete action tokens to velocity profiles, and advances robot poses
//!   one fixed step at a time.
//! - [`sim::Ros2Simulator`] composes the two and owns their combined
//!   lifecycle.
//!
//! Verus does not model IEEE floating point, so every real-valued quantity
//! (positions, headings, velocities, timestamps) is carried opaquely as the
//! bit pattern of an IEEE double, wrapped in [`scalar::Scalar`]. The
//! registry and lifecycle logic never inspects these bits, and the one
//! place that computes with them — the per-robot pose integration — is
//! delegated to the embedding layer, which hands the new poses back to the
//! verified engine.

pub mod graph;
pub mod kinematics;
pub mod scalar;
pub mod sim;
