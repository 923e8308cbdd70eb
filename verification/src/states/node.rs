//! What a node starts from once its section has approved it.

use crate::ack_manager::{AckManager, AckManagerView};
use crate::chain::section_info::{GenesisPfxInfo, GenesisPfxInfoView};
use crate::id::{FullId, PublicId};
use crate::id_set::IdSet;
use crate::messages::{routing_views, RoutingMessage, RoutingMessageView};
use crate::outbox::Timer;
use crate::peer_manager::{Peer, PeerManager};
use crate::routing_message_filter::RoutingMessageFilter;
use vstd::prelude::*;

verus! {

/// What a full member starts from.
pub struct NodeView {
    pub acks: AckManagerView,
    pub id: PublicId,
    pub gen_pfx_info: GenesisPfxInfoView,
    pub min_section_size: usize,
    /// The routing messages to process first, oldest first.
    pub queue: Seq<RoutingMessageView>,
    pub notified: Set<PublicId>,
    pub peers: Seq<Peer>,
    pub rate_limiter_disabled: bool,
    pub filter: Set<u64>,
    pub next_token: u64,
}

/// A full member of a section, as the proving node leaves it: the agreed
/// genesis snapshots, the connections, acknowledgments and filter gathered
/// while proving, and the routing messages that waited for the approval.
#[derive(Debug)]
pub struct Node {
    ack_mgr: AckManager,
    full_id: FullId,
    gen_pfx_info: GenesisPfxInfo,
    min_section_size: usize,
    msg_queue: Vec<RoutingMessage>,
    notified_nodes: IdSet,
    peer_mgr: PeerManager,
    routing_msg_filter: RoutingMessageFilter,
    timer: Timer,
}

impl View for Node {
    type V = NodeView;

    closed spec fn view(&self) -> NodeView {
        NodeView {
            acks: self.ack_mgr@,
            id: self.full_id.public_id,
            gen_pfx_info: self.gen_pfx_info@,
            min_section_size: self.min_section_size,
            queue: routing_views(self.msg_queue@),
            notified: self.notified_nodes@,
            peers: self.peer_mgr@,
            rate_limiter_disabled: self.peer_mgr.rate_limiter_disabled(),
            filter: self.routing_msg_filter@,
            next_token: self.timer.next(),
        }
    }
}

impl Node {
    /// The member that takes over from a proving node.
    pub fn from_proving_node(
        ack_mgr: AckManager,
        full_id: FullId,
        gen_pfx_info: GenesisPfxInfo,
        min_section_size: usize,
        msg_queue: Vec<RoutingMessage>,
        notified_nodes: IdSet,
        peer_mgr: PeerManager,
        routing_msg_filter: RoutingMessageFilter,
        timer: Timer,
    ) -> (r: Node)
        ensures
            r@ == (NodeView {
                acks: ack_mgr@,
                id: full_id.public_id,
                gen_pfx_info: gen_pfx_info@,
                min_section_size,
                queue: routing_views(msg_queue@),
                notified: notified_nodes@,
                peers: peer_mgr@,
                rate_limiter_disabled: peer_mgr.rate_limiter_disabled(),
                filter: routing_msg_filter@,
                next_token: timer.next(),
            }),
    {
        Node {
            ack_mgr,
            full_id,
            gen_pfx_info,
            min_section_size,
            msg_queue,
            notified_nodes,
            peer_mgr,
            routing_msg_filter,
            timer,
        }
    }

    /// Our identity.
    pub fn full_id(&self) -> (r: &FullId)
        ensures
            r.public_id == self@.id,
    {
        &self.full_id
    }

    /// The genesis snapshots the section agreed on.
    pub fn gen_pfx_info(&self) -> (r: &GenesisPfxInfo)
        ensures
            r@ == self@.gen_pfx_info,
    {
        &self.gen_pfx_info
    }

    /// The smallest size a section may have.
    pub fn min_section_size(&self) -> (r: usize)
        ensures
            r == self@.min_section_size,
    {
        self.min_section_size
    }

    /// The routing messages to process first, oldest first.
    pub fn msg_queue(&self) -> (r: &Vec<RoutingMessage>)
        ensures
            routing_views(r@) == self@.queue,
    {
        &self.msg_queue
    }

    /// The peers gathered so far.
    pub fn peer_mgr(&self) -> (r: &PeerManager)
        ensures
            r@ == self@.peers,
    {
        &self.peer_mgr
    }

    /// The acknowledgments still awaited.
    pub fn ack_mgr(&self) -> (r: &AckManager)
        ensures
            r@ == self@.acks,
    {
        &self.ack_mgr
    }
}

} // verus!
