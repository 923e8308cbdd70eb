//! Messages exchanged between nodes: direct ones between two connected
//! peers, and routing messages addressed from one authority to another.

use crate::authority::Authority;
use crate::chain::section_info::{GenesisPfxInfo, GenesisPfxInfoView};
use crate::id::{PublicId, Signature};
use crate::xor_name::Digest256;
use vstd::prelude::*;

verus! {

/// Identifier of a request, echoed by its response.
#[derive(Clone, Copy, Debug, PartialEq, Eq, Structural)]
pub struct MessageId {
    pub hi: u64,
    pub lo: u64,
}

/// Acknowledgment token of a routing message: the digest the codec computes
/// over the message.
#[derive(Clone, Copy, Debug, PartialEq, Eq, Structural)]
pub struct Ack {
    pub m_hash: u64,
}

/// A copy of a byte string.
pub fn clone_bytes(bytes: &Vec<u8>) -> (r: Vec<u8>)
    ensures
        r@ == bytes@,
{
    let mut out: Vec<u8> = Vec::new();
    let mut i: usize = 0;
    while i < bytes.len()
        invariant
            i <= bytes.len(),
            out@ == bytes@.take(i as int),
        decreases bytes.len() - i,
    {
        out.push(bytes[i]);
        proof {
            assert(out@ =~= bytes@.take(i as int + 1));
        }
        i += 1;
    }
    proof {
        assert(bytes@.take(i as int) =~= bytes@);
    }
    out
}

/// A message between two directly connected peers.
#[derive(Debug, PartialEq, Eq)]
pub enum DirectMessage {
    /// A relocated node presents its old and new identities, each
    /// vouching for the pair.
    CandidateInfo {
        old_public_id: PublicId,
        new_public_id: PublicId,
        signature_using_old: Signature,
        signature_using_new: Signature,
        new_client_auth: Authority,
    },
    /// A challenge: prove your resources on this seed.
    ResourceProof { seed: Vec<u8>, target_size: usize, difficulty: u8 },
    /// One part of the answer to a challenge.
    ResourceProofResponse {
        part_index: usize,
        part_count: usize,
        proof: Vec<u8>,
        leading_zero_bytes: u64,
    },
    /// The challenger has received a part of the answer.
    ResourceProofResponseReceipt,
}

/// What a direct message is.
pub enum DirectMessageView {
    CandidateInfo {
        old_public_id: PublicId,
        new_public_id: PublicId,
        signature_using_old: Signature,
        signature_using_new: Signature,
        new_client_auth: Authority,
    },
    ResourceProof { seed: Seq<u8>, target_size: usize, difficulty: u8 },
    ResourceProofResponse {
        part_index: usize,
        part_count: usize,
        proof: Seq<u8>,
        leading_zero_bytes: u64,
    },
    ResourceProofResponseReceipt,
}

impl View for DirectMessage {
    type V = DirectMessageView;

    open spec fn view(&self) -> DirectMessageView {
        match self {
            DirectMessage::CandidateInfo {
                old_public_id,
                new_public_id,
                signature_using_old,
                signature_using_new,
                new_client_auth,
            } => DirectMessageView::CandidateInfo {
                old_public_id: *old_public_id,
                new_public_id: *new_public_id,
                signature_using_old: *signature_using_old,
                signature_using_new: *signature_using_new,
                new_client_auth: *new_client_auth,
            },
            DirectMessage::ResourceProof {
                seed,
                target_size,
                difficulty,
            } => DirectMessageView::ResourceProof {
                seed: seed@,
                target_size: *target_size,
                difficulty: *difficulty,
            },
            DirectMessage::ResourceProofResponse {
                part_index,
                part_count,
                proof,
                leading_zero_bytes,
            } => DirectMessageView::ResourceProofResponse {
                part_index: *part_index,
                part_count: *part_count,
                proof: proof@,
                leading_zero_bytes: *leading_zero_bytes,
            },
            DirectMessage::ResourceProofResponseReceipt => {
                DirectMessageView::ResourceProofResponseReceipt
            },
        }
    }
}

/// The views of a list of direct messages, in order.
pub open spec fn direct_views(s: Seq<DirectMessage>) -> Seq<DirectMessageView> {
    s.map_values(|m: DirectMessage| m@)
}

/// The payload of a routing message.
#[derive(Debug, PartialEq, Eq)]
pub enum MessageContent {
    /// Asks the recipient to connect, and carries the sender's encrypted
    /// connection info.
    ConnectionInfoRequest { encrypted_conn_info: Vec<u8>, pub_id: PublicId, msg_id: MessageId },
    /// Answers a connection-info request with the sender's own info.
    ConnectionInfoResponse { encrypted_conn_info: Vec<u8>, pub_id: PublicId, msg_id: MessageId },
    /// The section has approved the node; carries the agreed genesis
    /// snapshots.
    NodeApproval(GenesisPfxInfo),
    /// Acknowledges the routing message with the given token, received on
    /// the given route.
    Ack(Ack, u8),
    /// One part of a user message.
    UserMessagePart { hash: Digest256, part_count: u32, part_index: u32, payload: Vec<u8> },
}

/// What a routing message's payload is.
pub enum MessageContentView {
    ConnectionInfoRequest { encrypted_conn_info: Seq<u8>, pub_id: PublicId, msg_id: MessageId },
    ConnectionInfoResponse { encrypted_conn_info: Seq<u8>, pub_id: PublicId, msg_id: MessageId },
    NodeApproval(GenesisPfxInfoView),
    Ack(Ack, u8),
    UserMessagePart { hash: Digest256, part_count: u32, part_index: u32, payload: Seq<u8> },
}

impl View for MessageContent {
    type V = MessageContentView;

    open spec fn view(&self) -> MessageContentView {
        match self {
            MessageContent::ConnectionInfoRequest {
                encrypted_conn_info,
                pub_id,
                msg_id,
            } => MessageContentView::ConnectionInfoRequest {
                encrypted_conn_info: encrypted_conn_info@,
                pub_id: *pub_id,
                msg_id: *msg_id,
            },
            MessageContent::ConnectionInfoResponse {
                encrypted_conn_info,
                pub_id,
                msg_id,
            } => MessageContentView::ConnectionInfoResponse {
                encrypted_conn_info: encrypted_conn_info@,
                pub_id: *pub_id,
                msg_id: *msg_id,
            },
            MessageContent::NodeApproval(info) => MessageContentView::NodeApproval(info@),
            MessageContent::Ack(ack, route) => MessageContentView::Ack(*ack, *route),
            MessageContent::UserMessagePart {
                hash,
                part_count,
                part_index,
                payload,
            } => MessageContentView::UserMessagePart {
                hash: *hash,
                part_count: *part_count,
                part_index: *part_index,
                payload: payload@,
            },
        }
    }
}

impl Clone for MessageContent {
    fn clone(&self) -> (r: MessageContent)
        ensures
            r@ == self@,
    {
        match self {
            MessageContent::ConnectionInfoRequest {
                encrypted_conn_info,
                pub_id,
                msg_id,
            } => MessageContent::ConnectionInfoRequest {
                encrypted_conn_info: clone_bytes(encrypted_conn_info),
                pub_id: *pub_id,
                msg_id: *msg_id,
            },
            MessageContent::ConnectionInfoResponse {
                encrypted_conn_info,
                pub_id,
                msg_id,
            } => MessageContent::ConnectionInfoResponse {
                encrypted_conn_info: clone_bytes(encrypted_conn_info),
                pub_id: *pub_id,
                msg_id: *msg_id,
            },
            MessageContent::NodeApproval(info) => MessageContent::NodeApproval(info.clone()),
            MessageContent::Ack(ack, route) => MessageContent::Ack(*ack, *route),
            MessageContent::UserMessagePart {
                hash,
                part_count,
                part_index,
                payload,
            } => MessageContent::UserMessagePart {
                hash: *hash,
                part_count: *part_count,
                part_index: *part_index,
                payload: clone_bytes(payload),
            },
        }
    }
}

/// A message from one authority to another.
#[derive(Debug, PartialEq, Eq)]
pub struct RoutingMessage {
    pub src: Authority,
    pub dst: Authority,
    pub content: MessageContent,
}

/// What a routing message is.
pub struct RoutingMessageView {
    pub src: Authority,
    pub dst: Authority,
    pub content: MessageContentView,
}

impl View for RoutingMessage {
    type V = RoutingMessageView;

    open spec fn view(&self) -> RoutingMessageView {
        RoutingMessageView { src: self.src, dst: self.dst, content: self.content@ }
    }
}

impl Clone for RoutingMessage {
    fn clone(&self) -> (r: RoutingMessage)
        ensures
            r@ == self@,
    {
        RoutingMessage { src: self.src, dst: self.dst, content: self.content.clone() }
    }
}

/// The views of a list of routing messages, in order.
pub open spec fn routing_views(s: Seq<RoutingMessage>) -> Seq<RoutingMessageView> {
    s.map_values(|m: RoutingMessage| m@)
}

impl RoutingMessage {
    /// The acknowledgment of a message with token `ack` that arrived on
    /// `route`: it travels from `src` back to the message's source.
    pub open spec fn ack_from_spec(
        msg: RoutingMessageView,
        ack: Ack,
        route: u8,
        src: Authority,
    ) -> RoutingMessageView {
        RoutingMessageView { src, dst: msg.src, content: MessageContentView::Ack(ack, route) }
    }

    /// Builds the acknowledgment of `msg`, sent from `src`.
    pub fn ack_from(msg: &RoutingMessage, ack: Ack, route: u8, src: Authority) -> (r:
        RoutingMessage)
        ensures
            r@ == RoutingMessage::ack_from_spec(msg@, ack, route, src),
    {
        RoutingMessage { src, dst: msg.src, content: MessageContent::Ack(ack, route) }
    }
}

/// A routing message as it arrives from a neighbour: verified and decoded
/// by the codec, with the route it took and the digest of its content.
#[derive(Debug, PartialEq, Eq)]
pub struct HopMessage {
    pub content: RoutingMessage,
    pub route: u8,
    pub digest: u64,
}

/// What a hop message is.
pub struct HopMessageView {
    pub content: RoutingMessageView,
    pub route: u8,
    pub digest: u64,
}

impl View for HopMessage {
    type V = HopMessageView;

    open spec fn view(&self) -> HopMessageView {
        HopMessageView { content: self.content@, route: self.route, digest: self.digest }
    }
}

/// A message as decoded from the transport.
#[derive(Debug, PartialEq, Eq)]
pub enum Message {
    /// A routing message, forwarded hop by hop.
    Hop(HopMessage),
    /// A message from the peer itself.
    Direct(DirectMessage),
}

/// What a decoded message is.
pub enum MessageView {
    Hop(HopMessageView),
    Direct(DirectMessageView),
}

impl View for Message {
    type V = MessageView;

    open spec fn view(&self) -> MessageView {
        match self {
            Message::Hop(hop) => MessageView::Hop(hop@),
            Message::Direct(direct) => MessageView::Direct(direct@),
        }
    }
}

} // verus!
