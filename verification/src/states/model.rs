//! The admission state machine as a mathematical object: what the proving
//! node holds, and what each event makes of it.

use crate::ack_manager::{
    awaits, timed_by, AckManagerView, PendingAckView, UnacknowledgedMessageView,
    ACK_TIMEOUT_SECS,
};
use crate::action::{ActionView, CrustEventView, CrustUser};
use crate::authority::Authority;
use crate::error::{InterfaceError, RoutingError};
use crate::id::PublicId;
use crate::messages::{
    Ack, DirectMessageView, HopMessageView, MessageContentView, MessageView, RoutingMessage,
    RoutingMessageView,
};
use crate::outbox::{serial_after, EffectView, Event, TimerToken, TokenKind};
use crate::peer_manager::{
    after_connect, after_prepare, has_id, has_name, is_authorised_peer, is_connected_peer,
    is_proxy_peer, is_proxy_spec, state_of, Peer, PeerState,
};
use crate::resource_prover::{
    ResourceProverView, APPROVAL_PROGRESS_INTERVAL_SECS, APPROVAL_TIMEOUT_DISABLED_SECS,
    APPROVAL_TIMEOUT_SECS,
};
use crate::state_machine::TransitionView;
use crate::table::{
    all_entries, first_index, first_match, lemma_all_entries_kept, lemma_first_index_sound,
    without_first,
};
use crate::xor_name::{Prefix, XorName};
use vstd::prelude::*;

verus! {

/// What the proving node holds.
pub struct ProvingNodeView {
    /// Routing messages sent and not yet acknowledged.
    pub acks: AckManagerView,
    /// Our identity from before the relocation.
    pub old_id: PublicId,
    /// Our identity in the section we are joining.
    pub id: PublicId,
    /// Routing messages waiting to be processed, oldest first.
    pub queue: Seq<RoutingMessageView>,
    /// Routing messages put off until we are approved, oldest first.
    pub backlog: Seq<RoutingMessageView>,
    /// The smallest size a section may have.
    pub min_section_size: usize,
    /// The peers we know.
    pub peers: Seq<Peer>,
    /// Whether clients are exempt from rate limiting.
    pub rate_limiter_disabled: bool,
    /// The digests of the routing messages that have come in.
    pub filter: Set<u64>,
    /// The serial number of the next timer token.
    pub next_token: u64,
    /// The resource-proof exchanges.
    pub prover: ResourceProverView,
    /// The prefix of the section we are joining.
    pub joining_prefix: Prefix,
    /// The peers about which the user has been told.
    pub notified: Set<PublicId>,
}

/// What handling one event comes to: the node afterwards, the effects
/// asked for, in order, and the answer.
pub struct Step<R> {
    pub node: ProvingNodeView,
    pub effects: Seq<EffectView>,
    pub result: R,
}

/// The requests for connection info that go out to the members of the
/// section, one each, in order.
pub open spec fn connection_requests(members: Seq<PublicId>, src: Authority) -> Seq<EffectView> {
    members.map_values(
        |m: PublicId|
            EffectView::RequestConnectionInfo { peer: m, src, dst: Authority::ManagedNode(m.name) },
    )
}

/// The table of peers after we have set out to connect to each of
/// `members`.
pub open spec fn prepare_all(peers: Seq<Peer>, members: Seq<PublicId>) -> Seq<Peer>
    decreases members.len(),
{
    if members.len() == 0 {
        peers
    } else {
        after_prepare(prepare_all(peers, members.drop_last()), members.last())
    }
}

impl ProvingNodeView {
    /// The node as it is made: the proxy is its only connection, it has
    /// set out to connect to every member of the section, and the clocks of
    /// the resource proof run.
    pub open spec fn initial(
        prefix: Prefix,
        members: Seq<PublicId>,
        old_id: PublicId,
        id: PublicId,
        min_section_size: usize,
        proxy: PublicId,
        rate_limiter_disabled: bool,
        resource_proof_disabled: bool,
        first_token: u64,
    ) -> ProvingNodeView {
        ProvingNodeView {
            acks: AckManagerView { pending: Seq::empty(), received: Set::empty() },
            old_id,
            id,
            queue: Seq::empty(),
            backlog: Seq::empty(),
            min_section_size,
            peers: prepare_all(seq![Peer { pub_id: proxy, state: PeerState::Proxy }], members),
            rate_limiter_disabled,
            filter: Set::empty(),
            next_token: serial_after(serial_after(first_token)),
            prover: ResourceProverView {
                challengers: members,
                disabled: resource_proof_disabled,
                in_flight: Seq::empty(),
                completed: Seq::empty(),
                timed_out: false,
                approval_token: Some(
                    TimerToken { kind: TokenKind::ResourceProof, serial: first_token },
                ),
                progress_token: Some(
                    TimerToken {
                        kind: TokenKind::ResourceProof,
                        serial: serial_after(first_token),
                    },
                ),
            },
            joining_prefix: prefix,
            notified: Set::empty(),
        }
    }

    /// The effects of making the node: the two clocks, then one request for
    /// connection info to each member of the section.
    pub open spec fn initial_effects(
        members: Seq<PublicId>,
        id: PublicId,
        proxy: PublicId,
        resource_proof_disabled: bool,
        first_token: u64,
    ) -> Seq<EffectView> {
        seq![
            EffectView::Schedule {
                token: TimerToken { kind: TokenKind::ResourceProof, serial: first_token },
                secs: if resource_proof_disabled {
                    APPROVAL_TIMEOUT_DISABLED_SECS
                } else {
                    APPROVAL_TIMEOUT_SECS
                },
            },
            EffectView::Schedule {
                token: TimerToken {
                    kind: TokenKind::ResourceProof,
                    serial: serial_after(first_token),
                },
                secs: APPROVAL_PROGRESS_INTERVAL_SECS,
            },
        ] + connection_requests(
            members,
            Authority::Client { client_id: id, proxy_node_name: proxy.name },
        )
    }

    /// Nothing happens.
    pub open spec fn stay(self) -> Step<TransitionView> {
        Step { node: self, effects: Seq::empty(), result: TransitionView::Stay }
    }

    /// Whether `auth` is us: a client authority with our identity.
    pub open spec fn in_authority(self, auth: Authority) -> bool {
        match auth {
            Authority::Client { client_id, .. } => client_id == self.id,
            _ => false,
        }
    }

    /// The identity of the proxy with the given address, provided that the
    /// connection to it is established.
    pub open spec fn proxy_public_id(self, proxy_name: XorName) -> Option<PublicId> {
        match first_match(self.peers, has_name(proxy_name)) {
            Some(p) => if is_connected_peer(self.peers, p.pub_id) {
                Some(p.pub_id)
            } else {
                None
            },
            None => None,
        }
    }

    /// The two identities as words, the old one first: what is serialised
    /// and signed to show that both belong to one node.
    pub open spec fn id_pair_words(self) -> Seq<u64> {
        self.old_id.words() + self.id.words()
    }

    /// The node after the peer `id` has been dropped: its record and what
    /// was noted about it are gone. The answer is `false` where the peer was
    /// the proxy.
    pub open spec fn dropped_peer(self, id: PublicId) -> Step<bool> {
        Step {
            node: ProvingNodeView {
                peers: without_first(self.peers, has_id(id)),
                notified: self.notified.remove(id),
                ..self
            },
            effects: Seq::empty(),
            result: !is_proxy_spec(self.peers, id),
        }
    }

    /// What losing the connection to `id` comes to: the peer is dropped;
    /// where it was the proxy, the user is told and the node stops.
    pub open spec fn lost_peer(self, id: PublicId) -> Step<TransitionView> {
        let dropped = self.dropped_peer(id);
        if dropped.result {
            Step { node: dropped.node, effects: Seq::empty(), result: TransitionView::Stay }
        } else {
            Step {
                node: dropped.node,
                effects: seq![EffectView::Event(Event::Terminated)],
                result: TransitionView::Terminate,
            }
        }
    }

    /// The handshake with a peer we have connected to, given what
    /// serialising the two identities gave: where that failed or no proxy is
    /// known, nothing; else the candidate info for the peer, to be signed
    /// over the serialised identities.
    pub open spec fn candidate_effects(self, to: PublicId, payload: Option<Seq<u8>>) -> Seq<
        EffectView,
    > {
        match payload {
            Some(bytes) => match first_match(self.peers, is_proxy_peer()) {
                Some(proxy) => seq![
                    EffectView::SendCandidateInfo {
                        to,
                        old_public_id: self.old_id,
                        new_public_id: self.id,
                        payload: bytes,
                        new_client_auth: Authority::Client {
                            client_id: self.id,
                            proxy_node_name: proxy.pub_id.name,
                        },
                    },
                ],
                None => Seq::empty(),
            },
            None => Seq::empty(),
        }
    }

    /// What an established connection to `id` comes to: the peer counts
    /// as connected and is sent the handshake.
    pub open spec fn connect_success(self, id: PublicId, payload: Option<Seq<u8>>) -> Step<
        TransitionView,
    > {
        let node = ProvingNodeView { peers: after_connect(self.peers, id), ..self };
        Step { node, effects: node.candidate_effects(id, payload), result: TransitionView::Stay }
    }

    /// What sending a routing message through the proxy comes to. A
    /// message to ourselves goes nowhere. The message must come from our
    /// client authority, whose proxy must be connected. An acknowledgment
    /// goes out as it is. For any other message whose acknowledgment has not
    /// come in yet, a clock is started, the message is kept until it is
    /// acknowledged, and it goes out; where the acknowledgment is here
    /// already, nothing is sent.
    pub open spec fn send_via_proxy(self, msg: RoutingMessageView, ack: Ack, route: u8) -> Step<
        Result<(), RoutingError>,
    > {
        if msg.dst is Client && self.in_authority(msg.dst) {
            Step { node: self, effects: Seq::empty(), result: Ok(()) }
        } else {
            match msg.src {
                Authority::Client { proxy_node_name, .. } => match self.proxy_public_id(
                    proxy_node_name,
                ) {
                    Some(proxy) => {
                        let send = EffectView::SendHop { to: proxy, routing_msg: msg, route };
                        if msg.content is Ack {
                            Step { node: self, effects: seq![send], result: Ok(()) }
                        } else if self.acks.received.contains(ack) {
                            Step { node: self, effects: Seq::empty(), result: Ok(()) }
                        } else {
                            let token = TimerToken {
                                kind: TokenKind::AckResend,
                                serial: self.next_token,
                            };
                            Step {
                                node: ProvingNodeView {
                                    next_token: serial_after(self.next_token),
                                    acks: self.acks.after_pending(
                                        ack,
                                        UnacknowledgedMessageView {
                                            routing_msg: msg,
                                            route,
                                            timer_token: token,
                                        },
                                    ),
                                    ..self
                                },
                                effects: seq![
                                    EffectView::Schedule { token, secs: ACK_TIMEOUT_SECS },
                                    send,
                                ],
                                result: Ok(()),
                            }
                        }
                    },
                    None => Step {
                        node: self,
                        effects: Seq::empty(),
                        result: Err(RoutingError::ProxyConnectionNotFound),
                    },
                },
                _ => Step {
                    node: self,
                    effects: Seq::empty(),
                    result: Err(RoutingError::InvalidSource),
                },
            }
        }
    }

    /// What the running out of an acknowledgment's clock comes to: the
    /// message that waited under `token` is sent again on the next route,
    /// unless every route has been tried.
    pub open spec fn resend(self, token: TimerToken) -> Step<()> {
        match first_match(self.acks.pending, timed_by(token)) {
            Some(p) => {
                let node = ProvingNodeView { acks: self.acks.after_timeout(token), ..self };
                if p.msg.route as int == self.min_section_size as int || p.msg.route == u8::MAX {
                    Step { node, effects: Seq::empty(), result: () }
                } else {
                    let sent = node.send_via_proxy(
                        p.msg.routing_msg,
                        p.ack,
                        (p.msg.route + 1) as u8,
                    );
                    Step { node: sent.node, effects: sent.effects, result: () }
                }
            },
            None => Step { node: self, effects: Seq::empty(), result: () },
        }
    }

    /// What a timer token comes to. The token of the approval clock ends
    /// the attempt: the user is told to start over and the node stops. The
    /// token of the progress clock starts that clock again. Any other token
    /// is looked up among the unacknowledged messages.
    pub open spec fn timeout(self, token: TimerToken) -> Step<TransitionView> {
        if self.prover.is_approval_token(token) {
            Step {
                node: ProvingNodeView { prover: self.prover.after_approval_timeout(), ..self },
                effects: seq![EffectView::Event(Event::RestartRequired)],
                result: TransitionView::Terminate,
            }
        } else if self.prover.is_progress_token(token) {
            let next = TimerToken { kind: TokenKind::ResourceProof, serial: self.next_token };
            Step {
                node: ProvingNodeView {
                    prover: ResourceProverView { progress_token: Some(next), ..self.prover },
                    next_token: serial_after(self.next_token),
                    ..self
                },
                effects: seq![
                    EffectView::Schedule { token: next, secs: APPROVAL_PROGRESS_INTERVAL_SECS },
                ],
                result: TransitionView::Stay,
            }
        } else {
            let resent = self.resend(token);
            Step { node: resent.node, effects: resent.effects, result: TransitionView::Stay }
        }
    }

    /// What an action comes to. Requests to send are turned down, for the
    /// node is not a member yet; a computed proof has its first part sent to
    /// the challenger.
    pub open spec fn action(self, action: ActionView) -> Step<TransitionView> {
        match action {
            ActionView::ClientSendRequest { request } => Step {
                node: self,
                effects: seq![EffectView::Reject { request, error: InterfaceError::InvalidState }],
                result: TransitionView::Stay,
            },
            ActionView::NodeSendMessage { request } => Step {
                node: self,
                effects: seq![EffectView::Reject { request, error: InterfaceError::InvalidState }],
                result: TransitionView::Stay,
            },
            ActionView::GetId { request } => Step {
                node: self,
                effects: seq![EffectView::ReplyId { request, id: self.id }],
                result: TransitionView::Stay,
            },
            ActionView::HandleTimeout(token) => self.timeout(token),
            ActionView::TakeResourceProofResult(id, messages) => Step {
                node: ProvingNodeView { prover: self.prover.after_result(id, messages), ..self },
                effects: if self.prover.takes_result(id, messages) {
                    seq![EffectView::SendDirect { to: id, msg: messages.last() }]
                } else {
                    Seq::empty()
                },
                result: TransitionView::Stay,
            },
            ActionView::Terminate => Step {
                node: self,
                effects: Seq::empty(),
                result: TransitionView::Terminate,
            },
        }
    }

    /// What a direct message from `from` comes to. Only a peer that is
    /// connected or is the proxy is listened to; anyone else is turned away
    /// and nothing changes. A challenge starts an exchange; a receipt moves
    /// one on.
    pub open spec fn direct_message(self, msg: DirectMessageView, from: PublicId) -> Step<
        Result<(), RoutingError>,
    > {
        if !is_authorised_peer(self.peers, from) {
            Step {
                node: self,
                effects: Seq::empty(),
                result: Err(RoutingError::InvalidStateForOperation),
            }
        } else {
            match msg {
                DirectMessageView::ResourceProof { seed, target_size, difficulty } => Step {
                    node: ProvingNodeView {
                        prover: self.prover.after_request(from, seed, target_size, difficulty),
                        ..self
                    },
                    effects: seq![
                        EffectView::StartProof { challenger: from, seed, target_size, difficulty },
                    ],
                    result: Ok(()),
                },
                DirectMessageView::ResourceProofResponseReceipt => Step {
                    node: ProvingNodeView { prover: self.prover.after_receipt(from), ..self },
                    effects: match self.prover.next_part(from) {
                        Some(part) => seq![EffectView::SendDirect { to: from, msg: part }],
                        None => Seq::empty(),
                    },
                    result: Ok(()),
                },
                _ => Step { node: self, effects: Seq::empty(), result: Ok(()) },
            }
        }
    }

    /// What acknowledging a routing message comes to: nothing for an
    /// acknowledgment; for any other message its acknowledgment is sent back
    /// to the source, as far as the proxy can be reached.
    pub open spec fn send_ack(self, msg: RoutingMessageView, ack: Ack, route: u8) -> Step<()> {
        if msg.content is Ack {
            Step { node: self, effects: Seq::empty(), result: () }
        } else {
            let sent = self.send_via_proxy(
                RoutingMessage::ack_from_spec(msg, ack, route, msg.dst),
                ack,
                route,
            );
            Step { node: sent.node, effects: sent.effects, result: () }
        }
    }

    /// What filtering a hop message comes to. Its digest is noted. A
    /// message seen before is absorbed; one that is not for us is let go;
    /// one that is for us is acknowledged and handed on.
    pub open spec fn filter_hop(self, hop: HopMessageView) -> Step<
        Result<Option<RoutingMessageView>, RoutingError>,
    > {
        let noted = ProvingNodeView { filter: self.filter.insert(hop.digest), ..self };
        if self.filter.contains(hop.digest) {
            Step {
                node: noted,
                effects: Seq::empty(),
                result: Err(RoutingError::FilterCheckFailed),
            }
        } else if !self.in_authority(hop.content.dst) {
            Step { node: noted, effects: Seq::empty(), result: Ok(None) }
        } else {
            let acked = noted.send_ack(hop.content, Ack { m_hash: hop.digest }, hop.route);
            Step { node: acked.node, effects: acked.effects, result: Ok(Some(hop.content)) }
        }
    }

    /// The node with `msg` put off until the approval.
    pub open spec fn backlogged(self, msg: RoutingMessageView) -> Step<TransitionView> {
        Step {
            node: ProvingNodeView { backlog: self.backlog.push(msg), ..self },
            effects: Seq::empty(),
            result: TransitionView::Stay,
        }
    }

    /// Whether `msg` is the section's approval of this node and the node
    /// may take it: every challenger has completed its exchange.
    pub open spec fn approves(self, msg: RoutingMessageView) -> bool {
        &&& msg.content is NodeApproval
        &&& msg.src is PrefixSection
        &&& msg.dst is Client
        &&& self.prover.is_eligible()
    }

    /// What a routing message for us comes to. Connection info is taken up
    /// at once: a request between two nodes only where its source lies in
    /// the section we are joining, a response from a node to a client
    /// always. The section's approval, once every challenger has completed
    /// its exchange, makes the node a member. An acknowledgment is taken in.
    /// Everything else is put off until the approval.
    pub open spec fn dispatch(self, msg: RoutingMessageView) -> Step<TransitionView> {
        match (msg.content, msg.src, msg.dst) {
            (
                MessageContentView::ConnectionInfoRequest { encrypted_conn_info, pub_id, msg_id },
                Authority::ManagedNode(src_name),
                Authority::ManagedNode(_),
            ) => if self.joining_prefix.matches_spec(src_name) {
                Step {
                    node: ProvingNodeView { peers: after_prepare(self.peers, pub_id), ..self },
                    effects: seq![
                        EffectView::AcceptConnectionInfoRequest {
                            peer: pub_id,
                            encrypted_conn_info,
                            msg_id,
                            src: msg.src,
                            dst: msg.dst,
                        },
                    ],
                    result: TransitionView::Stay,
                }
            } else {
                self.backlogged(msg)
            },
            (
                MessageContentView::ConnectionInfoResponse { encrypted_conn_info, pub_id, msg_id },
                Authority::ManagedNode(_),
                Authority::Client { .. },
            ) => Step {
                node: self,
                effects: seq![
                    EffectView::AcceptConnectionInfoResponse {
                        peer: pub_id,
                        encrypted_conn_info,
                        msg_id,
                        src: msg.src,
                        dst: msg.dst,
                    },
                ],
                result: TransitionView::Stay,
            },
            (MessageContentView::Ack(ack, _), _, _) => Step {
                node: ProvingNodeView { acks: self.acks.after_receive(ack), ..self },
                effects: Seq::empty(),
                result: TransitionView::Stay,
            },
            (MessageContentView::NodeApproval(gen_pfx_info), _, _) => if self.approves(msg) {
                Step {
                    node: ProvingNodeView { prover: self.prover.after_approval(), ..self },
                    effects: Seq::empty(),
                    result: TransitionView::IntoNode { gen_pfx_info },
                }
            } else {
                self.backlogged(msg)
            },
            _ => self.backlogged(msg),
        }
    }

    /// What a hop message from `from` comes to. Only a peer that is
    /// connected or is the proxy is listened to. The message is filtered
    /// and, if it is new and for us, dispatched.
    pub open spec fn hop_message(self, hop: HopMessageView, from: PublicId) -> Step<
        Result<TransitionView, RoutingError>,
    > {
        if !is_authorised_peer(self.peers, from) {
            Step {
                node: self,
                effects: Seq::empty(),
                result: Err(RoutingError::UnknownConnection(from)),
            }
        } else {
            let filtered = self.filter_hop(hop);
            match filtered.result {
                Ok(Some(msg)) => {
                    let dispatched = filtered.node.dispatch(msg);
                    Step {
                        node: dispatched.node,
                        effects: filtered.effects + dispatched.effects,
                        result: Ok(dispatched.result),
                    }
                },
                Ok(None) => Step {
                    node: filtered.node,
                    effects: filtered.effects,
                    result: Ok(TransitionView::Stay),
                },
                Err(e) => Step { node: filtered.node, effects: filtered.effects, result: Err(e) },
            }
        }
    }

    /// What a decoded message from `from` comes to.
    pub open spec fn new_message(self, from: PublicId, msg: MessageView) -> Step<
        Result<TransitionView, RoutingError>,
    > {
        match msg {
            MessageView::Direct(direct) => {
                let handled = self.direct_message(direct, from);
                Step {
                    node: handled.node,
                    effects: handled.effects,
                    result: match handled.result {
                        Ok(_) => Ok(TransitionView::Stay),
                        Err(e) => Err(e),
                    },
                }
            },
            MessageView::Hop(hop) => self.hop_message(hop, from),
        }
    }

    /// What a transport event comes to. `payload` is what serialising the
    /// two identities gave, which matters for an established connection
    /// only. A message that is turned away leaves the node where it is.
    pub open spec fn crust_event(self, event: CrustEventView, payload: Option<Seq<u8>>) -> Step<
        TransitionView,
    > {
        match event {
            CrustEventView::ConnectSuccess(id) => self.connect_success(id, payload),
            CrustEventView::ConnectFailure(id) => Step {
                node: self.dropped_peer(id).node,
                effects: Seq::empty(),
                result: TransitionView::Stay,
            },
            CrustEventView::LostPeer(id) => self.lost_peer(id),
            CrustEventView::ConnectionInfoPrepared(result) => Step {
                node: self,
                effects: seq![
                    EffectView::ConnectionInfoPrepared {
                        result_token: result.result_token,
                        succeeded: result.succeeded,
                    },
                ],
                result: TransitionView::Stay,
            },
            CrustEventView::NewMessage(from, _, msg) => {
                let handled = self.new_message(from, msg);
                Step {
                    node: handled.node,
                    effects: handled.effects,
                    result: match handled.result {
                        Ok(transition) => transition,
                        Err(_) => TransitionView::Stay,
                    },
                }
            },
            _ => self.stay(),
        }
    }

    /// The queue handed over to the full member: what waited to be
    /// processed, then what was put off, each in its order.
    pub open spec fn handed_over(self) -> Seq<RoutingMessageView> {
        self.queue + self.backlog
    }
}

/// A routing message that is dispatched is acted on or kept: either it is
/// connection info, an acknowledgment or the approval and is taken up, or it
/// stands at the end of the backlog afterwards, behind everything that was
/// backlogged before it. What waits to be processed is not touched.
pub proof fn lemma_dispatch_acts_or_backlogs(v: ProvingNodeView, msg: RoutingMessageView)
    ensures
        v.dispatch(msg).node.queue == v.queue,
        v.dispatch(msg).node.backlog == v.backlog.push(msg) || {
            &&& v.dispatch(msg).node.backlog == v.backlog
            &&& (msg.content is ConnectionInfoRequest || msg.content is ConnectionInfoResponse
                || msg.content is Ack || msg.content is NodeApproval)
        },
        msg.content is UserMessagePart ==> v.dispatch(msg).node.backlog == v.backlog.push(msg),
{
}

/// No action loses or reorders a waiting message: what would be handed
/// over before the action is the beginning of what would be handed over
/// after it.
pub proof fn lemma_action_keeps_messages(v: ProvingNodeView, action: ActionView)
    ensures
        v.handed_over().is_prefix_of(v.action(action).node.handed_over()),
        v.action(action).node.queue == v.queue,
        v.action(action).node.backlog == v.backlog,
{
    let after = v.action(action).node;
    assert(after.queue == v.queue && after.backlog == v.backlog) by {
        match action {
            ActionView::HandleTimeout(token) => {
                lemma_send_keeps_messages_on_resend(v, token);
            },
            _ => {},
        }
    }
}

/// Sending a routing message leaves the waiting messages alone.
pub proof fn lemma_send_keeps_messages(
    v: ProvingNodeView,
    msg: RoutingMessageView,
    ack: Ack,
    route: u8,
)
    ensures
        v.send_via_proxy(msg, ack, route).node.queue == v.queue,
        v.send_via_proxy(msg, ack, route).node.backlog == v.backlog,
        v.send_via_proxy(msg, ack, route).node.prover == v.prover,
        v.send_via_proxy(msg, ack, route).node.peers == v.peers,
{
}

/// Sending a message again leaves the waiting messages alone.
pub proof fn lemma_send_keeps_messages_on_resend(v: ProvingNodeView, token: TimerToken)
    ensures
        v.resend(token).node.queue == v.queue,
        v.resend(token).node.backlog == v.backlog,
        v.resend(token).node.prover == v.prover,
{
}

/// No transport event loses or reorders a waiting message: what would be
/// handed over before the event is the beginning of what would be handed
/// over after it. Whatever is put off goes to the end of the backlog.
pub proof fn lemma_crust_event_keeps_messages(
    v: ProvingNodeView,
    event: CrustEventView,
    payload: Option<Seq<u8>>,
)
    ensures
        v.crust_event(event, payload).node.queue == v.queue,
        v.backlog.is_prefix_of(v.crust_event(event, payload).node.backlog),
        v.handed_over().is_prefix_of(v.crust_event(event, payload).node.handed_over()),
{
    let after = v.crust_event(event, payload).node;
    match event {
        CrustEventView::NewMessage(from, _, MessageView::Hop(hop)) => {
            if is_authorised_peer(v.peers, from) {
                let filtered = v.filter_hop(hop);
                let noted = ProvingNodeView { filter: v.filter.insert(hop.digest), ..v };
                lemma_send_keeps_messages(
                    noted,
                    RoutingMessage::ack_from_spec(
                        hop.content,
                        Ack { m_hash: hop.digest },
                        hop.route,
                        hop.content.dst,
                    ),
                    Ack { m_hash: hop.digest },
                    hop.route,
                );
                assert(filtered.node.queue == v.queue && filtered.node.backlog == v.backlog);
                match filtered.result {
                    Ok(Some(msg)) => {
                        lemma_dispatch_acts_or_backlogs(filtered.node, msg);
                    },
                    _ => {},
                }
            }
        },
        _ => {},
    }
    assert(after.queue == v.queue);
    assert(v.backlog.is_prefix_of(after.backlog));
    assert(v.handed_over().is_prefix_of(after.handed_over()));
}

/// One input to the node: an action, or a transport event together with
/// what serialising the two identities gives while it is handled.
pub enum InputView {
    Action(ActionView),
    Crust(CrustEventView, Option<Seq<u8>>),
}

impl ProvingNodeView {
    /// The node after one input.
    pub open spec fn after_input(self, input: InputView) -> ProvingNodeView {
        match input {
            InputView::Action(action) => self.action(action).node,
            InputView::Crust(event, payload) => self.crust_event(event, payload).node,
        }
    }

    /// The node after a run of inputs, handled one after the other.
    pub open spec fn after_inputs(self, inputs: Seq<InputView>) -> ProvingNodeView
        decreases inputs.len(),
    {
        if inputs.len() == 0 {
            self
        } else {
            self.after_inputs(inputs.drop_last()).after_input(inputs.last())
        }
    }
}

/// Whatever comes in before the approval, in whatever order, no waiting
/// message is lost or overtaken: what would have been handed over at the
/// start is the beginning of what is handed over in the end, and what was
/// backlogged earlier stands before what was backlogged later.
pub proof fn lemma_inputs_keep_messages(v: ProvingNodeView, inputs: Seq<InputView>)
    ensures
        v.after_inputs(inputs).queue == v.queue,
        v.backlog.is_prefix_of(v.after_inputs(inputs).backlog),
        v.handed_over().is_prefix_of(v.after_inputs(inputs).handed_over()),
    decreases inputs.len(),
{
    if inputs.len() > 0 {
        let before = v.after_inputs(inputs.drop_last());
        lemma_inputs_keep_messages(v, inputs.drop_last());
        match inputs.last() {
            InputView::Action(action) => {
                lemma_action_keeps_messages(before, action);
            },
            InputView::Crust(event, payload) => {
                lemma_crust_event_keeps_messages(before, event, payload);
            },
        }
        let after = v.after_inputs(inputs);
        assert(after == before.after_input(inputs.last()));
        assert(v.backlog.is_prefix_of(after.backlog));
        assert(v.handed_over().is_prefix_of(after.handed_over()));
    }
}

/// Who may send direct messages: a message from a peer that is neither
/// connected nor the proxy is turned away and changes nothing, whatever it
/// says; a message from a peer that is either is never turned away.
pub proof fn lemma_direct_message_authorisation(
    v: ProvingNodeView,
    msg: DirectMessageView,
    from: PublicId,
)
    ensures
        !is_authorised_peer(v.peers, from) ==> v.direct_message(msg, from) == (Step {
            node: v,
            effects: Seq::<EffectView>::empty(),
            result: Err::<(), RoutingError>(RoutingError::InvalidStateForOperation),
        }),
        is_authorised_peer(v.peers, from) ==> v.direct_message(msg, from).result is Ok,
        is_authorised_peer(v.peers, from) <==> state_of(v.peers, from) == Some(
            PeerState::Connected,
        ) || state_of(v.peers, from) == Some(PeerState::Proxy),
{
}

/// The node becomes a member only on the section's approval, and only once
/// it is eligible: every member of the section it is joining has completed
/// its exchange as a challenger, or resource proofs are switched off. Until
/// then no transport event leads out of the proving state into membership.
pub proof fn lemma_approval_needs_completed_exchanges(
    v: ProvingNodeView,
    event: CrustEventView,
    payload: Option<Seq<u8>>,
)
    ensures
        v.crust_event(event, payload).result is IntoNode ==> {
            &&& v.prover.is_eligible()
            &&& event matches CrustEventView::NewMessage(from, _, MessageView::Hop(hop))
            &&& is_authorised_peer(v.peers, from)
            &&& !v.filter.contains(hop.digest)
            &&& v.in_authority(hop.content.dst)
            &&& hop.content.src is PrefixSection
            &&& hop.content.content matches MessageContentView::NodeApproval(info)
            &&& v.crust_event(event, payload).result == (TransitionView::IntoNode {
                gen_pfx_info: info,
            })
        },
{
    match event {
        CrustEventView::NewMessage(from, _, MessageView::Hop(hop)) => {
            if is_authorised_peer(v.peers, from) {
                let noted = ProvingNodeView { filter: v.filter.insert(hop.digest), ..v };
                lemma_send_keeps_messages(
                    noted,
                    RoutingMessage::ack_from_spec(
                        hop.content,
                        Ack { m_hash: hop.digest },
                        hop.route,
                        hop.content.dst,
                    ),
                    Ack { m_hash: hop.digest },
                    hop.route,
                );
            }
        },
        _ => {},
    }
}

/// The approval of an eligible node does make it a member: a new hop
/// message from an authorised peer that carries the approval from a section
/// to our client authority gives the transition, with the snapshots it
/// carries.
pub proof fn lemma_approval_of_eligible_node(
    v: ProvingNodeView,
    from: PublicId,
    user: CrustUser,
    hop: HopMessageView,
    payload: Option<Seq<u8>>,
)
    requires
        v.prover.is_eligible(),
        is_authorised_peer(v.peers, from),
        !v.filter.contains(hop.digest),
        v.in_authority(hop.content.dst),
        hop.content.src is PrefixSection,
        hop.content.content is NodeApproval,
    ensures
        v.crust_event(
            CrustEventView::NewMessage(from, user, MessageView::Hop(hop)),
            payload,
        ).result == (TransitionView::IntoNode {
            gen_pfx_info: hop.content.content->NodeApproval_0,
        }),
{
    let noted = ProvingNodeView { filter: v.filter.insert(hop.digest), ..v };
    lemma_send_keeps_messages(
        noted,
        RoutingMessage::ack_from_spec(
            hop.content,
            Ack { m_hash: hop.digest },
            hop.route,
            hop.content.dst,
        ),
        Ack { m_hash: hop.digest },
        hop.route,
    );
}

/// No action makes the node a member.
pub proof fn lemma_action_never_approves(v: ProvingNodeView, action: ActionView)
    ensures
        !(v.action(action).result is IntoNode),
{
}

/// Losing the proxy ends the attempt: the user is told that the node has
/// terminated, and the node stops. Losing any other peer changes nothing
/// but the tables: the node stays and nothing is asked of the surroundings.
pub proof fn lemma_lost_peer(v: ProvingNodeView, id: PublicId, payload: Option<Seq<u8>>)
    ensures
        is_proxy_spec(v.peers, id) ==> {
            &&& v.crust_event(CrustEventView::LostPeer(id), payload).result
                == TransitionView::Terminate
            &&& v.crust_event(CrustEventView::LostPeer(id), payload).effects == seq![
                EffectView::Event(Event::Terminated),
            ]
        },
        !is_proxy_spec(v.peers, id) ==> {
            &&& v.crust_event(CrustEventView::LostPeer(id), payload).result == TransitionView::Stay
            &&& v.crust_event(CrustEventView::LostPeer(id), payload).effects == Seq::<
                EffectView,
            >::empty()
        },
{
}

/// Selects the messages whose clock runs under a token for
/// acknowledgments.
pub open spec fn timed_for_resend() -> spec_fn(PendingAckView) -> bool {
    |p: PendingAckView| p.msg.timer_token.kind == TokenKind::AckResend
}

impl ProvingNodeView {
    /// The two kinds of clock are kept apart: the resource proof waits
    /// under tokens of its own kind only, and every unacknowledged message
    /// under a token of the other kind.
    pub open spec fn tokens_apart(self) -> bool {
        &&& self.prover.approval_token matches Some(t) ==> t.kind == TokenKind::ResourceProof
        &&& self.prover.progress_token matches Some(t) ==> t.kind == TokenKind::ResourceProof
        &&& all_entries(self.acks.pending, timed_for_resend())
    }
}

/// A node is made with its clocks apart.
pub proof fn lemma_initial_tokens_apart(
    prefix: Prefix,
    members: Seq<PublicId>,
    old_id: PublicId,
    id: PublicId,
    min_section_size: usize,
    proxy: PublicId,
    rate_limiter_disabled: bool,
    resource_proof_disabled: bool,
    first_token: u64,
)
    ensures
        ProvingNodeView::initial(
            prefix,
            members,
            old_id,
            id,
            min_section_size,
            proxy,
            rate_limiter_disabled,
            resource_proof_disabled,
            first_token,
        ).tokens_apart(),
{
}

/// Sending a routing message keeps the clocks apart.
pub proof fn lemma_send_keeps_tokens_apart(
    v: ProvingNodeView,
    msg: RoutingMessageView,
    ack: Ack,
    route: u8,
)
    requires
        v.tokens_apart(),
    ensures
        v.send_via_proxy(msg, ack, route).node.tokens_apart(),
{
    let token = TimerToken { kind: TokenKind::AckResend, serial: v.next_token };
    let entry = PendingAckView {
        ack,
        msg: UnacknowledgedMessageView { routing_msg: msg, route, timer_token: token },
    };
    lemma_all_entries_kept(v.acks.pending, awaits(ack), entry, timed_for_resend());
}

/// No input brings the clocks together.
pub proof fn lemma_tokens_stay_apart(v: ProvingNodeView, input: InputView)
    requires
        v.tokens_apart(),
    ensures
        v.after_input(input).tokens_apart(),
{
    let p = timed_for_resend();
    match input {
        InputView::Action(ActionView::HandleTimeout(token)) => {
            match first_match(v.acks.pending, timed_by(token)) {
                Some(entry) => {
                    lemma_all_entries_kept(v.acks.pending, timed_by(token), entry, p);
                    let node = ProvingNodeView { acks: v.acks.after_timeout(token), ..v };
                    lemma_send_keeps_tokens_apart(
                        node,
                        entry.msg.routing_msg,
                        entry.ack,
                        (entry.msg.route + 1) as u8,
                    );
                },
                None => {},
            }
        },
        InputView::Crust(CrustEventView::NewMessage(from, _, MessageView::Hop(hop)), _) => {
            if is_authorised_peer(v.peers, from) {
                let noted = ProvingNodeView { filter: v.filter.insert(hop.digest), ..v };
                let ack = Ack { m_hash: hop.digest };
                lemma_send_keeps_tokens_apart(
                    noted,
                    RoutingMessage::ack_from_spec(hop.content, ack, hop.route, hop.content.dst),
                    ack,
                    hop.route,
                );
                let filtered = v.filter_hop(hop);
                assert(filtered.node.tokens_apart());
                match filtered.result {
                    Ok(Some(msg)) => {
                        match msg.content {
                            MessageContentView::Ack(received, _) => {
                                let any = PendingAckView {
                                    ack: received,
                                    msg: UnacknowledgedMessageView {
                                        routing_msg: msg,
                                        route: 0,
                                        timer_token: TimerToken {
                                            kind: TokenKind::AckResend,
                                            serial: 0,
                                        },
                                    },
                                };
                                lemma_all_entries_kept(
                                    filtered.node.acks.pending,
                                    awaits(received),
                                    any,
                                    p,
                                );
                            },
                            _ => {},
                        }
                    },
                    _ => {},
                }
            }
        },
        _ => {},
    }
}

/// What keeping the clocks apart is for: a token for acknowledgments never
/// ends the attempt nor touches the resource proof, and a token of the
/// resource proof never sends a message again.
pub proof fn lemma_token_kinds_do_not_mix(v: ProvingNodeView, token: TimerToken)
    requires
        v.tokens_apart(),
    ensures
        token.kind == TokenKind::AckResend ==> {
            &&& v.timeout(token).result == TransitionView::Stay
            &&& v.timeout(token).node.prover == v.prover
        },
        token.kind == TokenKind::ResourceProof ==> {
            &&& v.timeout(token).node.acks == v.acks
            &&& v.resend(token).node == v
            &&& v.resend(token).effects == Seq::<EffectView>::empty()
        },
{
    lemma_send_keeps_messages_on_resend(v, token);
    if token.kind == TokenKind::ResourceProof {
        lemma_first_index_sound(v.acks.pending, timed_by(token));
        match first_index(v.acks.pending, timed_by(token)) {
            Some(i) => {
                assert(timed_for_resend()(v.acks.pending[i]));
            },
            None => {},
        }
    }
}

} // verus!
