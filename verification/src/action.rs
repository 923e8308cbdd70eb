//! The events that drive a state: actions from the node's own side, and
//! events from the transport.

use crate::id::PublicId;
use crate::messages::{direct_views, DirectMessage, DirectMessageView, Message, MessageView};
use crate::outbox::TimerToken;
use vstd::prelude::*;

verus! {

/// Something the node's own side wants handled.
#[derive(Debug)]
pub enum Action {
    /// A client asks for a request to be sent; `request` numbers the
    /// channel on which the caller awaits the answer.
    ClientSendRequest { request: u64 },
    /// The node's user asks for a message to be sent.
    NodeSendMessage { request: u64 },
    /// The caller asks for the node's identity.
    GetId { request: u64 },
    /// A timer has run out.
    HandleTimeout(TimerToken),
    /// The proof for a challenger has been computed; the messages hold its
    /// parts, the first one last.
    TakeResourceProofResult(PublicId, Vec<DirectMessage>),
    /// Stop.
    Terminate,
}

/// What an action is.
pub enum ActionView {
    ClientSendRequest { request: u64 },
    NodeSendMessage { request: u64 },
    GetId { request: u64 },
    HandleTimeout(TimerToken),
    TakeResourceProofResult(PublicId, Seq<DirectMessageView>),
    Terminate,
}

impl View for Action {
    type V = ActionView;

    open spec fn view(&self) -> ActionView {
        match self {
            Action::ClientSendRequest { request } => ActionView::ClientSendRequest {
                request: *request,
            },
            Action::NodeSendMessage { request } => ActionView::NodeSendMessage {
                request: *request,
            },
            Action::GetId { request } => ActionView::GetId { request: *request },
            Action::HandleTimeout(token) => ActionView::HandleTimeout(*token),
            Action::TakeResourceProofResult(id, messages) => ActionView::TakeResourceProofResult(
                *id,
                direct_views(messages@),
            ),
            Action::Terminate => ActionView::Terminate,
        }
    }
}

/// What kind of peer is at the other end of a connection.
#[derive(Clone, Copy, Debug, PartialEq, Eq, Structural)]
pub enum CrustUser {
    /// A node of the network.
    Node,
    /// A client.
    Client,
}

/// The outcome of preparing our connection info for a peer.
#[derive(Clone, Copy, Debug, PartialEq, Eq, Structural)]
pub struct ConnectionInfoResult {
    pub result_token: u32,
    pub succeeded: bool,
}

/// Something the transport reports.
#[derive(Debug)]
pub enum CrustEvent {
    /// The bootstrap has failed.
    BootstrapFailed,
    /// Our listener has started on the given port.
    ListenerStarted(u16),
    /// The connection to a peer is established.
    ConnectSuccess(PublicId),
    /// The connection to a peer could not be established.
    ConnectFailure(PublicId),
    /// The connection to a peer is lost.
    LostPeer(PublicId),
    /// Our connection info for a peer has been prepared, or could not be.
    ConnectionInfoPrepared(ConnectionInfoResult),
    /// A message has come from a peer, decoded by the codec.
    NewMessage(PublicId, CrustUser, Message),
}

/// What a transport event is.
pub enum CrustEventView {
    BootstrapFailed,
    ListenerStarted(u16),
    ConnectSuccess(PublicId),
    ConnectFailure(PublicId),
    LostPeer(PublicId),
    ConnectionInfoPrepared(ConnectionInfoResult),
    NewMessage(PublicId, CrustUser, MessageView),
}

impl View for CrustEvent {
    type V = CrustEventView;

    open spec fn view(&self) -> CrustEventView {
        match self {
            CrustEvent::BootstrapFailed => CrustEventView::BootstrapFailed,
            CrustEvent::ListenerStarted(port) => CrustEventView::ListenerStarted(*port),
            CrustEvent::ConnectSuccess(id) => CrustEventView::ConnectSuccess(*id),
            CrustEvent::ConnectFailure(id) => CrustEventView::ConnectFailure(*id),
            CrustEvent::LostPeer(id) => CrustEventView::LostPeer(*id),
            CrustEvent::ConnectionInfoPrepared(result) => CrustEventView::ConnectionInfoPrepared(
                *result,
            ),
            CrustEvent::NewMessage(id, user, msg) => CrustEventView::NewMessage(*id, *user, msg@),
        }
    }
}

} // verus!
