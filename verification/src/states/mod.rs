//! The states a node passes through while it joins the network.

pub mod model;
pub mod node;
pub mod proving_node;
