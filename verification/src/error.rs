//! Errors reported by the routing core.

use crate::id::PublicId;
use vstd::prelude::*;

verus! {

/// What can go wrong while handling an event.
#[derive(Clone, Copy, Debug, PartialEq, Eq, Structural)]
pub enum RoutingError {
    /// The message was seen before and has been absorbed.
    FilterCheckFailed,
    /// The sender's peer state does not allow the message.
    InvalidStateForOperation,
    /// A hop message came from a peer we hold no usable connection to.
    UnknownConnection(PublicId),
    /// The proxy is unknown or not connected.
    ProxyConnectionNotFound,
    /// A message to be sent does not come from our client authority.
    InvalidSource,
    /// A value could not be serialised.
    Serialisation,
}

/// Why a request made through the node's interface was turned down.
#[derive(Clone, Copy, Debug, PartialEq, Eq, Structural)]
pub enum InterfaceError {
    /// The node is not yet a member of the network.
    InvalidState,
}

} // verus!
