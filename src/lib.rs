//! Typed expression trees that steer simulated agents: evaluation against a
//! read-only world snapshot, pre-order addressing of every node, single-point
//! mutation and depth-budgeted random generation.

pub mod rng;
pub mod values;
pub mod world;
pub mod tree;
pub mod eval;
pub mod generators;
pub mod mutation;
pub mod program;
pub mod builders;
pub mod angels;
