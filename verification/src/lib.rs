//! Admission and membership-consensus core of a sectioned peer-to-peer routing
//! network: the network-event model with its successor-proof check, and the
//! state machine a relocated node runs while its destination section vets it.

pub mod ack_manager;
pub mod action;
pub mod authority;
pub mod chain;
pub mod error;
pub mod id;
pub mod id_set;
pub mod messages;
pub mod order;
pub mod outbox;
pub mod peer_manager;
pub mod resource_prover;
pub mod routing_message_filter;
pub mod serialisation;
pub mod state_machine;
pub mod states;
pub mod table;
pub mod xor_name;
