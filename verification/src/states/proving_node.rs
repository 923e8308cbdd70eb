//! The state of a relocated node while the section it is to join vets it.

use crate::ack_manager::{AckManager, UnacknowledgedMessage, ACK_TIMEOUT_SECS};
use crate::action::{Action, CrustEvent};
use crate::authority::Authority;
use crate::chain::section_info::{clone_ids, GenesisPfxInfo};
use crate::error::{InterfaceError, RoutingError};
use crate::id::{FullId, PublicId};
use crate::id_set::IdSet;
use crate::messages::{
    routing_views, Ack, DirectMessage, HopMessage, Message, MessageContent,
    MessageId, RoutingMessage, RoutingMessageView,
};
use crate::outbox::{
    serial_after, Effect, EffectView, Event, Outbox, Timer, TimerToken, TokenKind,
};
use crate::peer_manager::{
    after_prepare, has_id, is_authorised_peer, Peer, PeerManager, PeerState,
};
use crate::resource_prover::{ResourceProver, ResourceProverView};
use crate::routing_message_filter::{FilteringResult, RoutingMessageFilter};
use crate::serialisation::{serialise_words, serialised_words};
use crate::state_machine::{Transition, TransitionView};
use crate::states::model::{connection_requests, prepare_all, ProvingNodeView};
use crate::states::node::{Node, NodeView};
use crate::table::{lemma_first_index_none, without_first};
use crate::xor_name::{Prefix, XorName};
use maidsafe_utilities::serialisation::SerialisationError;
use vstd::prelude::*;

verus! {

/// Switches for development and testing, set where the node is made.
#[derive(Clone, Copy, Debug, PartialEq, Eq, Structural)]
pub struct DevConfig {
    /// Exempt clients from rate limiting.
    pub disable_client_rate_limiter: bool,
    /// Do without resource proofs: the node may be approved unchallenged.
    pub disable_resource_proof: bool,
}

/// A relocated node that is proving its resources to the section it is to
/// join. It leaves this state through the section's approval, which makes
/// it a full member, or by stopping.
#[derive(Debug)]
pub struct ProvingNode {
    ack_mgr: AckManager,
    /// Identity from before relocating.
    old_full_id: FullId,
    full_id: FullId,
    /// The queue of routing messages to be processed by us.
    msg_queue: Vec<RoutingMessage>,
    /// Routing messages addressed to us that we cannot handle until we are
    /// approved.
    msg_backlog: Vec<RoutingMessage>,
    min_section_size: usize,
    peer_mgr: PeerManager,
    routing_msg_filter: RoutingMessageFilter,
    timer: Timer,
    resource_prover: ResourceProver,
    joining_prefix: Prefix,
    notified_nodes: IdSet,
}

impl View for ProvingNode {
    type V = ProvingNodeView;

    closed spec fn view(&self) -> ProvingNodeView {
        ProvingNodeView {
            acks: self.ack_mgr@,
            old_id: self.old_full_id.public_id,
            id: self.full_id.public_id,
            queue: routing_views(self.msg_queue@),
            backlog: routing_views(self.msg_backlog@),
            min_section_size: self.min_section_size,
            peers: self.peer_mgr@,
            rate_limiter_disabled: self.peer_mgr.rate_limiter_disabled(),
            filter: self.routing_msg_filter@,
            next_token: self.timer.next(),
            prover: self.resource_prover@,
            joining_prefix: self.joining_prefix,
            notified: self.notified_nodes@,
        }
    }
}

/// The state that follows the proving node.
#[derive(Debug)]
pub enum State {
    /// Still proving.
    ProvingNode(ProvingNode),
    /// A full member.
    Node(Node),
    /// Stopped.
    Terminated,
}

impl ProvingNode {
    /// Makes the proving node once the relocation is known: `our_section`
    /// is the prefix of the section to join and its members, in order. The
    /// proxy is recorded as our one connection, the clocks of the resource
    /// proof are started, and every member of the section is asked for its
    /// connection info.
    pub fn from_bootstrapping(
        our_section: (Prefix, Vec<PublicId>),
        old_full_id: FullId,
        new_full_id: FullId,
        min_section_size: usize,
        proxy_pub_id: PublicId,
        dev_config: DevConfig,
        timer: Timer,
        outbox: &mut Outbox,
    ) -> (node: ProvingNode)
        ensures
            node@ == ProvingNodeView::initial(
                our_section.0,
                our_section.1@,
                old_full_id.public_id,
                new_full_id.public_id,
                min_section_size,
                proxy_pub_id,
                dev_config.disable_client_rate_limiter,
                dev_config.disable_resource_proof,
                timer.next(),
            ),
            final(outbox)@ == old(outbox)@ + ProvingNodeView::initial_effects(
                our_section.1@,
                new_full_id.public_id,
                proxy_pub_id,
                dev_config.disable_resource_proof,
                timer.next(),
            ),
    {
        let public_id = *new_full_id.public_id();
        let mut peer_mgr = PeerManager::new(public_id, dev_config.disable_client_rate_limiter);
        proof {
            lemma_first_index_none(peer_mgr@, has_id(proxy_pub_id));
        }
        let _ = peer_mgr.insert_peer(Peer::new(proxy_pub_id, PeerState::Proxy));
        proof {
            assert(peer_mgr@ =~= seq![Peer { pub_id: proxy_pub_id, state: PeerState::Proxy }]);
        }
        let (joining_prefix, members) = our_section;
        let resource_prover = ResourceProver::new(clone_ids(&members));
        let mut node = ProvingNode {
            ack_mgr: AckManager::new(),
            old_full_id,
            full_id: new_full_id,
            msg_queue: Vec::new(),
            msg_backlog: Vec::new(),
            min_section_size,
            peer_mgr,
            routing_msg_filter: RoutingMessageFilter::new(),
            timer,
            resource_prover,
            joining_prefix,
            notified_nodes: IdSet::new(),
        };
        proof {
            assert(node@.queue =~= Seq::empty());
            assert(node@.backlog =~= Seq::empty());
        }
        node.start(&members, &proxy_pub_id, dev_config.disable_resource_proof, outbox);
        proof {
            assert(final(outbox)@ =~= old(outbox)@ + ProvingNodeView::initial_effects(
                members@,
                new_full_id.public_id,
                proxy_pub_id,
                dev_config.disable_resource_proof,
                timer.next(),
            ));
        }
        node
    }

    /// Called immediately after construction. Starts the clocks of the
    /// resource proof and sends a request for connection info to every
    /// member of `our_section`, to then start the approval process.
    pub fn start(
        &mut self,
        our_section: &Vec<PublicId>,
        proxy_pub_id: &PublicId,
        disable_resource_proof: bool,
        outbox: &mut Outbox,
    )
        ensures
            final(self)@ == (ProvingNodeView {
                peers: prepare_all(old(self)@.peers, our_section@),
                next_token: serial_after(serial_after(old(self)@.next_token)),
                prover: ResourceProverView {
                    disabled: disable_resource_proof,
                    approval_token: Some(
                        TimerToken {
                            kind: TokenKind::ResourceProof,
                            serial: old(self)@.next_token,
                        },
                    ),
                    progress_token: Some(
                        TimerToken {
                            kind: TokenKind::ResourceProof,
                            serial: serial_after(old(self)@.next_token),
                        },
                    ),
                    ..old(self)@.prover
                },
                ..old(self)@
            }),
            final(outbox)@ == old(outbox)@ + ProvingNodeView::initial_effects(
                our_section@,
                old(self)@.id,
                *proxy_pub_id,
                disable_resource_proof,
                old(self)@.next_token,
            ),
    {
        self.resource_prover.start(disable_resource_proof, &mut self.timer, outbox);
        let src = Authority::Client {
            client_id: *self.full_id.public_id(),
            proxy_node_name: *proxy_pub_id.name(),
        };
        let ghost mid = self@;
        let ghost base = outbox@;
        let mut i: usize = 0;
        proof {
            assert(our_section@.take(0) =~= Seq::<PublicId>::empty());
            assert(outbox@ =~= base + connection_requests(our_section@.take(0), src));
        }
        while i < our_section.len()
            invariant
                i <= our_section.len(),
                self@ == (ProvingNodeView {
                    peers: prepare_all(mid.peers, our_section@.take(i as int)),
                    ..mid
                }),
                outbox@ == base + connection_requests(our_section@.take(i as int), src),
            decreases our_section.len() - i,
        {
            let pub_id = our_section[i];
            let dst = Authority::ManagedNode(*pub_id.name());
            self.send_connection_info_request(pub_id, src, dst, outbox);
            proof {
                let next = our_section@.take(i as int + 1);
                assert(next.drop_last() =~= our_section@.take(i as int));
                assert(next.last() == pub_id);
                assert(connection_requests(next, src) =~= connection_requests(
                    our_section@.take(i as int),
                    src,
                ).push(EffectView::RequestConnectionInfo { peer: pub_id, src, dst }));
                assert(outbox@ =~= base + connection_requests(next, src));
            }
            i += 1;
        }
        proof {
            assert(our_section@.take(i as int) =~= our_section@);
            assert(base =~= old(outbox)@ + ProvingNodeView::initial_effects(
                Seq::empty(),
                old(self)@.id,
                *proxy_pub_id,
                disable_resource_proof,
                old(self)@.next_token,
            ));
            assert(outbox@ =~= old(outbox)@ + ProvingNodeView::initial_effects(
                our_section@,
                old(self)@.id,
                *proxy_pub_id,
                disable_resource_proof,
                old(self)@.next_token,
            ));
        }
    }

    /// Sets out to connect to a peer: the peer is recorded, if it was
    /// unknown, and the transport is asked to exchange connection info
    /// with it.
    pub fn send_connection_info_request(
        &mut self,
        their_public_id: PublicId,
        src: Authority,
        dst: Authority,
        outbox: &mut Outbox,
    )
        ensures
            final(self)@ == (ProvingNodeView {
                peers: after_prepare(old(self)@.peers, their_public_id),
                ..old(self)@
            }),
            final(outbox)@ == old(outbox)@.push(
                EffectView::RequestConnectionInfo { peer: their_public_id, src, dst },
            ),
    {
        let _ = self.peer_mgr.prepare_connection(&their_public_id);
        outbox.push(Effect::RequestConnectionInfo { peer: their_public_id, src, dst });
    }

    /// Whether `auth` is us: a client authority with our identity.
    pub fn in_authority(&self, auth: &Authority) -> (r: bool)
        ensures
            r == self@.in_authority(*auth),
    {
        match auth {
            Authority::Client { client_id, .. } => *client_id == self.full_id.public_id,
            _ => false,
        }
    }

    /// The identity of the proxy with the given address, provided that the
    /// connection to it is established.
    pub fn get_proxy_public_id(&self, proxy_name: &XorName) -> (r: Result<PublicId, RoutingError>)
        ensures
            match r {
                Ok(id) => self@.proxy_public_id(*proxy_name) == Some(id),
                Err(e) => e == RoutingError::ProxyConnectionNotFound && self@.proxy_public_id(
                    *proxy_name,
                ) is None,
            },
    {
        match self.peer_mgr.get_peer_by_name(proxy_name) {
            Some(peer) => {
                let pub_id = peer.pub_id;
                if self.peer_mgr.is_connected(&pub_id) {
                    Ok(pub_id)
                } else {
                    Err(RoutingError::ProxyConnectionNotFound)
                }
            },
            None => Err(RoutingError::ProxyConnectionNotFound),
        }
    }

    /// Drops a peer: its record and what was noted about it go. Returns
    /// `false` where the peer was the proxy, without which the node cannot
    /// go on.
    pub fn dropped_peer(&mut self, pub_id: &PublicId) -> (r: bool)
        ensures
            final(self)@ == old(self)@.dropped_peer(*pub_id).node,
            r == old(self)@.dropped_peer(*pub_id).result,
    {
        let was_proxy = self.peer_mgr.is_proxy(pub_id);
        let _ = self.peer_mgr.remove_peer(pub_id);
        let _ = self.notified_nodes.remove(pub_id);
        !was_proxy
    }

    /// Handles the loss of the connection to a peer. Losing the proxy ends
    /// the attempt: the user is told and the node stops. Losing any other
    /// peer only drops it.
    pub fn handle_lost_peer(&mut self, pub_id: PublicId, outbox: &mut Outbox) -> (r: Transition)
        ensures
            final(self)@ == old(self)@.lost_peer(pub_id).node,
            final(outbox)@ == old(outbox)@ + old(self)@.lost_peer(pub_id).effects,
            r@ == old(self)@.lost_peer(pub_id).result,
    {
        if self.dropped_peer(&pub_id) {
            proof {
                assert(outbox@ =~= old(outbox)@ + Seq::<EffectView>::empty());
            }
            Transition::Stay
        } else {
            outbox.send_event(Event::Terminated);
            proof {
                assert(outbox@ =~= old(outbox)@ + seq![EffectView::Event(Event::Terminated)]);
            }
            Transition::Terminate
        }
    }

    /// Handles a connection that could not be established: the peer is
    /// dropped.
    pub fn handle_connect_failure(&mut self, pub_id: PublicId)
        ensures
            final(self)@ == old(self)@.dropped_peer(pub_id).node,
    {
        let _ = self.dropped_peer(&pub_id);
    }

    /// Sends the handshake to a peer, given what serialising our two
    /// identities gave. Where that failed, or where no proxy is known, nothing
    /// is sent. Else the peer gets our candidate info: both identities, each
    /// signing for the pair, and the client authority under which we are
    /// reached.
    pub fn send_candidate_info(
        &self,
        pub_id: PublicId,
        serialised: Result<Vec<u8>, SerialisationError>,
        outbox: &mut Outbox,
    )
        ensures
            final(outbox)@ == old(outbox)@ + self@.candidate_effects(
                pub_id,
                match serialised {
                    Ok(bytes) => Some(bytes@),
                    Err(_) => None,
                },
            ),
    {
        let payload = match serialised {
            Ok(bytes) => bytes,
            Err(_) => {
                proof {
                    assert(outbox@ =~= old(outbox)@ + Seq::<EffectView>::empty());
                }
                return ;
            },
        };
        let proxy_node_name = match self.peer_mgr.get_proxy_name() {
            Some(name) => *name,
            None => {
                proof {
                    assert(outbox@ =~= old(outbox)@ + Seq::<EffectView>::empty());
                }
                return ;
            },
        };
        let new_client_auth = Authority::Client {
            client_id: *self.full_id.public_id(),
            proxy_node_name,
        };
        let effect = Effect::SendCandidateInfo {
            to: pub_id,
            old_public_id: *self.old_full_id.public_id(),
            new_public_id: *self.full_id.public_id(),
            payload,
            new_client_auth,
        };
        outbox.push(effect);
        proof {
            assert(outbox@ =~= old(outbox)@ + seq![effect@]);
        }
    }

    /// Identifies us to a peer we have connected to. We are not approved
    /// yet, so we present our old and our new identity: the pair is
    /// serialised, to be signed with the old key, and that signature, put
    /// behind the serialised pair, with the new one. The handshake goes out
    /// exactly where the codec serialises the pair and a proxy is known;
    /// where serialising fails, the handshake with this peer is given up.
    /// The node itself does not change.
    pub fn process_connection(&mut self, pub_id: PublicId, outbox: &mut Outbox)
        ensures
            final(self)@ == old(self)@,
            final(outbox)@ == old(outbox)@ + old(self)@.candidate_effects(
                pub_id,
                serialised_words(old(self)@.id_pair_words()),
            ),
    {
        let mut words: Vec<u64> = Vec::new();
        self.old_full_id.public_id().push_words(&mut words);
        self.full_id.public_id().push_words(&mut words);
        proof {
            assert(words@ =~= self@.id_pair_words());
        }
        let serialised = serialise_words(&words);
        self.send_candidate_info(pub_id, serialised, outbox);
    }

    /// Handles an established connection: the peer counts as connected
    /// and is sent the handshake.
    pub fn handle_connect_success(&mut self, pub_id: PublicId, outbox: &mut Outbox)
        ensures
            final(self)@ == old(self)@.connect_success(
                pub_id,
                serialised_words(old(self)@.id_pair_words()),
            ).node,
            final(outbox)@ == old(outbox)@ + old(self)@.connect_success(
                pub_id,
                serialised_words(old(self)@.id_pair_words()),
            ).effects,
    {
        self.peer_mgr.connected_to(&pub_id);
        self.process_connection(pub_id, outbox);
    }

    /// Backlogs the message, to be processed once we are approved.
    pub fn add_message_to_backlog(&mut self, msg: RoutingMessage)
        ensures
            final(self)@ == old(self)@.backlogged(msg@).node,
    {
        self.msg_backlog.push(msg);
        proof {
            assert(self@.backlog =~= old(self)@.backlog.push(msg@));
        }
    }

    /// Takes the section's approval: the resource proof is wound up and the
    /// node is to become a member.
    pub fn handle_node_approval(&mut self, gen_pfx_info: GenesisPfxInfo) -> (r: Transition)
        ensures
            final(self)@ == (ProvingNodeView {
                prover: old(self)@.prover.after_approval(),
                ..old(self)@
            }),
            r@ == (TransitionView::IntoNode { gen_pfx_info: gen_pfx_info@ }),
    {
        self.resource_prover.handle_approval();
        Transition::IntoNode { gen_pfx_info }
    }

    /// Takes in an acknowledgment.
    pub fn handle_ack_response(&mut self, ack: Ack)
        ensures
            final(self)@ == (ProvingNodeView {
                acks: old(self)@.acks.after_receive(ack),
                ..old(self)@
            }),
    {
        self.ack_mgr.receive(ack)
    }

    /// Sends a routing message on the given route. A proving node reaches
    /// the network through its proxy only. `ack` is the token that will
    /// acknowledge the message.
    pub fn send_routing_message_via_route(
        &mut self,
        routing_msg: RoutingMessage,
        ack: Ack,
        route: u8,
        outbox: &mut Outbox,
    ) -> (r: Result<(), RoutingError>)
        ensures
            final(self)@ == old(self)@.send_via_proxy(routing_msg@, ack, route).node,
            final(outbox)@ == old(outbox)@ + old(self)@.send_via_proxy(
                routing_msg@,
                ack,
                route,
            ).effects,
            r == old(self)@.send_via_proxy(routing_msg@, ack, route).result,
    {
        proof {
            assert(outbox@ =~= old(outbox)@ + Seq::<EffectView>::empty());
        }
        if routing_msg.dst.is_client() && self.in_authority(&routing_msg.dst) {
            return Ok(());
        }
        let proxy_pub_id = match routing_msg.src {
            Authority::Client { proxy_node_name, .. } => match self.get_proxy_public_id(
                &proxy_node_name,
            ) {
                Ok(id) => id,
                Err(e) => {
                    return Err(e);
                },
            },
            _ => {
                return Err(RoutingError::InvalidSource);
            },
        };
        let is_ack = match routing_msg.content {
            MessageContent::Ack(_, _) => true,
            _ => false,
        };
        if !is_ack {
            if self.ack_mgr.did_receive(ack) {
                return Ok(());
            }
            let token = self.timer.schedule(TokenKind::AckResend, ACK_TIMEOUT_SECS, outbox);
            let unacked_msg = UnacknowledgedMessage {
                routing_msg: routing_msg.clone(),
                route,
                timer_token: token,
            };
            let _ = self.ack_mgr.add_to_pending(ack, unacked_msg);
        }
        let effect = Effect::SendHop { to: proxy_pub_id, routing_msg, route };
        let ghost before = outbox@;
        outbox.push(effect);
        proof {
            assert(outbox@ =~= before + seq![effect@]);
            assert(outbox@ =~= old(outbox)@ + old(self)@.send_via_proxy(
                routing_msg@,
                ack,
                route,
            ).effects);
        }
        Ok(())
    }

    /// Sends again the message whose acknowledgment has not come in the
    /// time `token` stood for, on the next route; it is given up once every
    /// route has been tried.
    pub fn resend_unacknowledged_timed_out_msgs(&mut self, token: TimerToken, outbox: &mut Outbox)
        ensures
            final(self)@ == old(self)@.resend(token).node,
            final(outbox)@ == old(outbox)@ + old(self)@.resend(token).effects,
    {
        proof {
            assert(outbox@ =~= old(outbox)@ + Seq::<EffectView>::empty());
        }
        match self.ack_mgr.find_timed_out(token) {
            Some((unacked_msg, ack)) => {
                if unacked_msg.route as usize == self.min_section_size || unacked_msg.route
                    == u8::MAX {
                    return ;
                }
                let _ = self.send_routing_message_via_route(
                    unacked_msg.routing_msg,
                    ack,
                    unacked_msg.route + 1,
                    outbox,
                );
            },
            None => {},
        }
    }

    /// Handles a timer token: first as one of the resource proof's, then
    /// as one of an unacknowledged message.
    pub fn handle_timeout(&mut self, token: TimerToken, outbox: &mut Outbox) -> (r: Transition)
        ensures
            final(self)@ == old(self)@.timeout(token).node,
            final(outbox)@ == old(outbox)@ + old(self)@.timeout(token).effects,
            r@ == old(self)@.timeout(token).result,
    {
        match self.resource_prover.handle_timeout(token, &mut self.timer, outbox) {
            Some(transition) => {
                proof {
                    let step = old(self)@.timeout(token);
                    assert(outbox@ =~= old(outbox)@ + step.effects);
                }
                transition
            },
            None => {
                self.resend_unacknowledged_timed_out_msgs(token, outbox);
                Transition::Stay
            },
        }
    }

    /// Sends a direct message to a peer.
    pub fn send_direct_message(&self, pub_id: PublicId, msg: DirectMessage, outbox: &mut Outbox)
        ensures
            final(outbox)@ == old(outbox)@.push(EffectView::SendDirect { to: pub_id, msg: msg@ }),
    {
        outbox.push(Effect::SendDirect { to: pub_id, msg });
    }

    /// Handles an action from the node's own side.
    pub fn handle_action(&mut self, action: Action, outbox: &mut Outbox) -> (r: Transition)
        ensures
            final(self)@ == old(self)@.action(action@).node,
            final(outbox)@ == old(outbox)@ + old(self)@.action(action@).effects,
            r@ == old(self)@.action(action@).result,
    {
        let ghost step = old(self)@.action(action@);
        match action {
            Action::ClientSendRequest { request } => {
                outbox.push(Effect::Reject { request, error: InterfaceError::InvalidState });
                proof {
                    assert(outbox@ =~= old(outbox)@ + step.effects);
                }
            },
            Action::NodeSendMessage { request } => {
                outbox.push(Effect::Reject { request, error: InterfaceError::InvalidState });
                proof {
                    assert(outbox@ =~= old(outbox)@ + step.effects);
                }
            },
            Action::GetId { request } => {
                outbox.push(Effect::ReplyId { request, id: *self.full_id.public_id() });
                proof {
                    assert(outbox@ =~= old(outbox)@ + step.effects);
                }
            },
            Action::HandleTimeout(token) => {
                return self.handle_timeout(token, outbox);
            },
            Action::TakeResourceProofResult(pub_id, messages) => {
                match self.resource_prover.handle_action_res_proof(pub_id, messages) {
                    Some(msg) => {
                        self.send_direct_message(pub_id, msg, outbox);
                    },
                    None => {},
                }
                proof {
                    assert(outbox@ =~= old(outbox)@ + step.effects);
                }
            },
            Action::Terminate => {
                proof {
                    assert(outbox@ =~= old(outbox)@ + step.effects);
                }
                return Transition::Terminate;
            },
        }
        Transition::Stay
    }

    /// Returns `Ok` if the peer's state allows it to send us direct
    /// messages: it is connected, or it is our proxy.
    pub fn check_direct_message_sender(&self, msg: &DirectMessage, pub_id: &PublicId) -> (r:
        Result<(), RoutingError>)
        ensures
            r is Ok <==> is_authorised_peer(self@.peers, *pub_id),
            r is Err ==> r == Err::<(), RoutingError>(RoutingError::InvalidStateForOperation),
    {
        match self.peer_mgr.get_peer(pub_id) {
            Some(peer) => {
                if peer.state.is_authorised() {
                    Ok(())
                } else {
                    Err(RoutingError::InvalidStateForOperation)
                }
            },
            None => Err(RoutingError::InvalidStateForOperation),
        }
    }

    /// Handles a direct message from a peer.
    pub fn handle_direct_message(
        &mut self,
        msg: DirectMessage,
        pub_id: PublicId,
        outbox: &mut Outbox,
    ) -> (r: Result<(), RoutingError>)
        ensures
            final(self)@ == old(self)@.direct_message(msg@, pub_id).node,
            final(outbox)@ == old(outbox)@ + old(self)@.direct_message(msg@, pub_id).effects,
            r == old(self)@.direct_message(msg@, pub_id).result,
    {
        let ghost step = old(self)@.direct_message(msg@, pub_id);
        proof {
            assert(outbox@ =~= old(outbox)@ + Seq::<EffectView>::empty());
        }
        match self.check_direct_message_sender(&msg, &pub_id) {
            Ok(_) => {},
            Err(e) => {
                return Err(e);
            },
        }
        match msg {
            DirectMessage::ResourceProof { seed, target_size, difficulty } => {
                self.resource_prover.handle_request(pub_id, seed, target_size, difficulty, outbox);
                proof {
                    assert(outbox@ =~= old(outbox)@ + step.effects);
                }
            },
            DirectMessage::ResourceProofResponseReceipt => {
                match self.resource_prover.handle_receipt(pub_id) {
                    Some(part) => {
                        self.send_direct_message(pub_id, part, outbox);
                    },
                    None => {},
                }
                proof {
                    assert(outbox@ =~= old(outbox)@ + step.effects);
                }
            },
            _ => {},
        }
        Ok(())
    }

    /// Sends the acknowledgment of a routing message back to its source.
    pub fn send_ack(
        &mut self,
        routing_msg: &RoutingMessage,
        ack: Ack,
        route: u8,
        outbox: &mut Outbox,
    )
        ensures
            final(self)@ == old(self)@.send_ack(routing_msg@, ack, route).node,
            final(outbox)@ == old(outbox)@ + old(self)@.send_ack(routing_msg@, ack, route).effects,
    {
        let is_ack = match routing_msg.content {
            MessageContent::Ack(_, _) => true,
            _ => false,
        };
        if is_ack {
            proof {
                assert(outbox@ =~= old(outbox)@ + Seq::<EffectView>::empty());
            }
            return ;
        }
        let response = RoutingMessage::ack_from(routing_msg, ack, route, routing_msg.dst);
        let _ = self.send_routing_message_via_route(response, ack, route, outbox);
    }

    /// Filters a hop message: one seen before is absorbed, one that is
    /// not for us is let go, one that is for us is acknowledged and
    /// returned.
    pub fn filter_hop_message(&mut self, hop_msg: HopMessage, outbox: &mut Outbox) -> (r: Result<
        Option<RoutingMessage>,
        RoutingError,
    >)
        ensures
            final(self)@ == old(self)@.filter_hop(hop_msg@).node,
            final(outbox)@ == old(outbox)@ + old(self)@.filter_hop(hop_msg@).effects,
            match r {
                Ok(Some(msg)) => old(self)@.filter_hop(hop_msg@).result == Ok::<
                    Option<RoutingMessageView>,
                    RoutingError,
                >(Some(msg@)),
                Ok(None) => old(self)@.filter_hop(hop_msg@).result == Ok::<
                    Option<RoutingMessageView>,
                    RoutingError,
                >(None),
                Err(e) => old(self)@.filter_hop(hop_msg@).result == Err::<
                    Option<RoutingMessageView>,
                    RoutingError,
                >(e),
            },
    {
        proof {
            assert(outbox@ =~= old(outbox)@ + Seq::<EffectView>::empty());
        }
        let HopMessage { content: routing_msg, route, digest } = hop_msg;
        let in_authority = self.in_authority(&routing_msg.dst);
        match self.routing_msg_filter.filter_incoming(digest) {
            FilteringResult::KnownMessage => {
                return Err(RoutingError::FilterCheckFailed);
            },
            FilteringResult::NewMessage => {},
        }
        if !in_authority {
            return Ok(None);
        }
        self.send_ack(&routing_msg, Ack { m_hash: digest }, route, outbox);
        Ok(Some(routing_msg))
    }

    /// Takes up a peer's connection-info request.
    pub fn handle_connection_info_request(
        &mut self,
        encrypted_conn_info: Vec<u8>,
        pub_id: PublicId,
        msg_id: MessageId,
        src: Authority,
        dst: Authority,
        outbox: &mut Outbox,
    )
        ensures
            final(self)@ == (ProvingNodeView {
                peers: after_prepare(old(self)@.peers, pub_id),
                ..old(self)@
            }),
            final(outbox)@ == old(outbox)@.push(
                EffectView::AcceptConnectionInfoRequest {
                    peer: pub_id,
                    encrypted_conn_info: encrypted_conn_info@,
                    msg_id,
                    src,
                    dst,
                },
            ),
    {
        let _ = self.peer_mgr.prepare_connection(&pub_id);
        outbox.push(
            Effect::AcceptConnectionInfoRequest {
                peer: pub_id,
                encrypted_conn_info,
                msg_id,
                src,
                dst,
            },
        );
    }

    /// Takes up a peer's connection-info response.
    pub fn handle_connection_info_response(
        &mut self,
        encrypted_conn_info: Vec<u8>,
        pub_id: PublicId,
        msg_id: MessageId,
        src: Authority,
        dst: Authority,
        outbox: &mut Outbox,
    )
        ensures
            final(self)@ == old(self)@,
            final(outbox)@ == old(outbox)@.push(
                EffectView::AcceptConnectionInfoResponse {
                    peer: pub_id,
                    encrypted_conn_info: encrypted_conn_info@,
                    msg_id,
                    src,
                    dst,
                },
            ),
    {
        outbox.push(
            Effect::AcceptConnectionInfoResponse {
                peer: pub_id,
                encrypted_conn_info,
                msg_id,
                src,
                dst,
            },
        );
    }

    /// Acts on a routing message addressed to us, or backlogs it until we
    /// are approved. The section's approval is the one message that makes
    /// the node a member, and it does so only once every challenger has
    /// completed its exchange.
    pub fn dispatch_routing_message(&mut self, msg: RoutingMessage, outbox: &mut Outbox) -> (r:
        Result<Transition, RoutingError>)
        ensures
            final(self)@ == old(self)@.dispatch(msg@).node,
            final(outbox)@ == old(outbox)@ + old(self)@.dispatch(msg@).effects,
            r matches Ok(t) && t@ == old(self)@.dispatch(msg@).result,
    {
        let ghost step = old(self)@.dispatch(msg@);
        proof {
            assert(outbox@ =~= old(outbox)@ + Seq::<EffectView>::empty());
        }
        match msg {
            RoutingMessage {
                content: MessageContent::ConnectionInfoRequest {
                    encrypted_conn_info,
                    pub_id,
                    msg_id,
                },
                src: Authority::ManagedNode(src_name),
                dst: Authority::ManagedNode(dst_name),
            } => {
                if self.joining_prefix.matches(&src_name) {
                    self.handle_connection_info_request(
                        encrypted_conn_info,
                        pub_id,
                        msg_id,
                        Authority::ManagedNode(src_name),
                        Authority::ManagedNode(dst_name),
                        outbox,
                    );
                    proof {
                        assert(outbox@ =~= old(outbox)@ + step.effects);
                    }
                } else {
                    self.add_message_to_backlog(
                        RoutingMessage {
                            content: MessageContent::ConnectionInfoRequest {
                                encrypted_conn_info,
                                pub_id,
                                msg_id,
                            },
                            src: Authority::ManagedNode(src_name),
                            dst: Authority::ManagedNode(dst_name),
                        },
                    );
                }
            },
            RoutingMessage {
                content: MessageContent::ConnectionInfoResponse {
                    encrypted_conn_info,
                    pub_id,
                    msg_id,
                },
                src: Authority::ManagedNode(src_name),
                dst: Authority::Client { client_id, proxy_node_name },
            } => {
                self.handle_connection_info_response(
                    encrypted_conn_info,
                    pub_id,
                    msg_id,
                    Authority::ManagedNode(src_name),
                    Authority::Client { client_id, proxy_node_name },
                    outbox,
                );
                proof {
                    assert(outbox@ =~= old(outbox)@ + step.effects);
                }
            },
            RoutingMessage {
                content: MessageContent::NodeApproval(gen_info),
                src: Authority::PrefixSection(prefix),
                dst: Authority::Client { client_id, proxy_node_name },
            } => {
                if self.resource_prover.is_eligible() {
                    return Ok(self.handle_node_approval(gen_info));
                } else {
                    self.add_message_to_backlog(
                        RoutingMessage {
                            content: MessageContent::NodeApproval(gen_info),
                            src: Authority::PrefixSection(prefix),
                            dst: Authority::Client { client_id, proxy_node_name },
                        },
                    );
                }
            },
            RoutingMessage { content: MessageContent::Ack(ack, _), .. } => {
                self.handle_ack_response(ack);
            },
            other => {
                self.add_message_to_backlog(other);
            },
        }
        Ok(Transition::Stay)
    }

    /// Handles a hop message from a peer: it is listened to only if the
    /// peer is connected or is our proxy, then filtered, then dispatched.
    pub fn handle_hop_message(
        &mut self,
        hop_msg: HopMessage,
        pub_id: PublicId,
        outbox: &mut Outbox,
    ) -> (r: Result<Transition, RoutingError>)
        ensures
            final(self)@ == old(self)@.hop_message(hop_msg@, pub_id).node,
            final(outbox)@ == old(outbox)@ + old(self)@.hop_message(hop_msg@, pub_id).effects,
            match r {
                Ok(t) => old(self)@.hop_message(hop_msg@, pub_id).result == Ok::<
                    TransitionView,
                    RoutingError,
                >(t@),
                Err(e) => old(self)@.hop_message(hop_msg@, pub_id).result == Err::<
                    TransitionView,
                    RoutingError,
                >(e),
            },
    {
        let ghost step = old(self)@.hop_message(hop_msg@, pub_id);
        let authorised = match self.peer_mgr.get_peer(&pub_id) {
            Some(peer) => peer.state.is_authorised(),
            None => false,
        };
        if !authorised {
            proof {
                assert(outbox@ =~= old(outbox)@ + Seq::<EffectView>::empty());
            }
            return Err(RoutingError::UnknownConnection(pub_id));
        }
        match self.filter_hop_message(hop_msg, outbox) {
            Ok(Some(routing_msg)) => {
                let r = self.dispatch_routing_message(routing_msg, outbox);
                proof {
                    assert(outbox@ =~= old(outbox)@ + step.effects);
                }
                r
            },
            Ok(None) => Ok(Transition::Stay),
            Err(e) => Err(e),
        }
    }

    /// Handles a decoded message from a peer.
    pub fn handle_new_message(&mut self, pub_id: PublicId, msg: Message, outbox: &mut Outbox) -> (r:
        Result<Transition, RoutingError>)
        ensures
            final(self)@ == old(self)@.new_message(pub_id, msg@).node,
            final(outbox)@ == old(outbox)@ + old(self)@.new_message(pub_id, msg@).effects,
            match r {
                Ok(t) => old(self)@.new_message(pub_id, msg@).result == Ok::<
                    TransitionView,
                    RoutingError,
                >(t@),
                Err(e) => old(self)@.new_message(pub_id, msg@).result == Err::<
                    TransitionView,
                    RoutingError,
                >(e),
            },
    {
        match msg {
            Message::Direct(direct) => {
                match self.handle_direct_message(direct, pub_id, outbox) {
                    Ok(_) => Ok(Transition::Stay),
                    Err(e) => Err(e),
                }
            },
            Message::Hop(hop) => self.handle_hop_message(hop, pub_id, outbox),
        }
    }

    /// Handles an event from the transport. A message that is turned away
    /// or absorbed leaves the node in this state.
    pub fn handle_crust_event(&mut self, event: CrustEvent, outbox: &mut Outbox) -> (r: Transition)
        ensures
            final(self)@ == old(self)@.crust_event(
                event@,
                serialised_words(old(self)@.id_pair_words()),
            ).node,
            final(outbox)@ == old(outbox)@ + old(self)@.crust_event(
                event@,
                serialised_words(old(self)@.id_pair_words()),
            ).effects,
            r@ == old(self)@.crust_event(
                event@,
                serialised_words(old(self)@.id_pair_words()),
            ).result,
    {
        let ghost step = old(self)@.crust_event(
            event@,
            serialised_words(old(self)@.id_pair_words()),
        );
        match event {
            CrustEvent::ConnectSuccess(pub_id) => {
                self.handle_connect_success(pub_id, outbox);
            },
            CrustEvent::ConnectFailure(pub_id) => {
                self.handle_connect_failure(pub_id);
                proof {
                    assert(outbox@ =~= old(outbox)@ + step.effects);
                }
            },
            CrustEvent::LostPeer(pub_id) => {
                return self.handle_lost_peer(pub_id, outbox);
            },
            CrustEvent::ConnectionInfoPrepared(result) => {
                outbox.push(
                    Effect::ConnectionInfoPrepared {
                        result_token: result.result_token,
                        succeeded: result.succeeded,
                    },
                );
                proof {
                    assert(outbox@ =~= old(outbox)@ + step.effects);
                }
            },
            CrustEvent::NewMessage(pub_id, _peer_kind, msg) => {
                match self.handle_new_message(pub_id, msg, outbox) {
                    Ok(transition) => {
                        return transition;
                    },
                    Err(_) => {},
                }
            },
            _ => {
                proof {
                    assert(outbox@ =~= old(outbox)@ + step.effects);
                }
            },
        }
        Transition::Stay
    }

    /// Turns the proving node into a full member, given the genesis
    /// snapshots the section agreed on. The member takes over the peers,
    /// the acknowledgments, the filter and the timer, and finds in its queue
    /// every routing message that waited: first those that waited to be
    /// processed, then those that were backlogged, each in the order in
    /// which they came.
    pub fn into_node(self, gen_pfx_info: GenesisPfxInfo) -> (r: State)
        ensures
            r matches State::Node(node) && node@ == (NodeView {
                acks: self@.acks,
                id: self@.id,
                gen_pfx_info: gen_pfx_info@,
                min_section_size: self@.min_section_size,
                queue: self@.handed_over(),
                notified: self@.notified,
                peers: self@.peers,
                rate_limiter_disabled: self@.rate_limiter_disabled,
                filter: self@.filter,
                next_token: self@.next_token,
            }),
    {
        let mut msg_queue = self.msg_queue;
        let mut msg_backlog = self.msg_backlog;
        msg_queue.append(&mut msg_backlog);
        proof {
            assert(routing_views(msg_queue@) =~= self@.handed_over());
        }
        let node = Node::from_proving_node(
            self.ack_mgr,
            self.full_id,
            gen_pfx_info,
            self.min_section_size,
            msg_queue,
            self.notified_nodes,
            self.peer_mgr,
            self.routing_msg_filter,
            self.timer,
        );
        State::Node(node)
    }

    /// Whether a peer may stay connected: while proving, every peer may.
    pub fn is_peer_valid(&self, pub_id: &PublicId) -> (r: bool)
        ensures
            r,
    {
        true
    }

    /// Notes that a peer has been added to the routing table; a proving
    /// node has none, so nothing changes.
    pub fn add_to_routing_table_success(&mut self, pub_id: &PublicId)
        ensures
            final(self)@ == old(self)@,
    {
    }

    /// Gives up a peer that could not be added to the routing table: it
    /// is disconnected and forgotten.
    pub fn add_to_routing_table_failure(&mut self, pub_id: &PublicId, outbox: &mut Outbox)
        ensures
            final(self)@ == (ProvingNodeView {
                peers: without_first(old(self)@.peers, has_id(*pub_id)),
                ..old(self)@
            }),
            final(outbox)@ == old(outbox)@.push(EffectView::Disconnect(*pub_id)),
    {
        outbox.push(Effect::Disconnect(*pub_id));
        let _ = self.peer_mgr.remove_peer(pub_id);
    }

    /// Notes that the user has been told about a peer. Returns whether
    /// that is news.
    pub fn add_to_notified_nodes(&mut self, pub_id: PublicId) -> (r: bool)
        ensures
            final(self)@ == (ProvingNodeView {
                notified: old(self)@.notified.insert(pub_id),
                ..old(self)@
            }),
            r == !old(self)@.notified.contains(pub_id),
    {
        self.notified_nodes.insert(pub_id)
    }

    /// Our identity in the section we are joining.
    pub fn full_id(&self) -> (r: &FullId)
        ensures
            r.public_id == self@.id,
    {
        &self.full_id
    }

    /// Our identity from before the relocation.
    pub fn old_full_id(&self) -> (r: &FullId)
        ensures
            r.public_id == self@.old_id,
    {
        &self.old_full_id
    }

    /// The smallest size a section may have.
    pub fn min_section_size(&self) -> (r: usize)
        ensures
            r == self@.min_section_size,
    {
        self.min_section_size
    }

    /// The acknowledgments still awaited.
    pub fn ack_mgr(&self) -> (r: &AckManager)
        ensures
            r@ == self@.acks,
    {
        &self.ack_mgr
    }

    /// The acknowledgments still awaited, to be changed.
    pub fn ack_mgr_mut(&mut self) -> (r: &mut AckManager)
        ensures
            r@ == old(self)@.acks,
            final(self)@ == (ProvingNodeView { acks: final(r)@, ..old(self)@ }),
    {
        &mut self.ack_mgr
    }

    /// The filter for incoming routing messages.
    pub fn routing_msg_filter(&mut self) -> (r: &mut RoutingMessageFilter)
        ensures
            r@ == old(self)@.filter,
            final(self)@ == (ProvingNodeView { filter: final(r)@, ..old(self)@ }),
    {
        &mut self.routing_msg_filter
    }

    /// The timer.
    pub fn timer(&mut self) -> (r: &mut Timer)
        ensures
            r.next() == old(self)@.next_token,
            final(self)@ == (ProvingNodeView { next_token: final(r).next(), ..old(self)@ }),
    {
        &mut self.timer
    }

    /// The table of peers.
    pub fn peer_mgr(&mut self) -> (r: &mut PeerManager)
        ensures
            r@ == old(self)@.peers,
            r.rate_limiter_disabled() == old(self)@.rate_limiter_disabled,
            final(self)@ == (ProvingNodeView {
                peers: final(r)@,
                rate_limiter_disabled: final(r).rate_limiter_disabled(),
                ..old(self)@
            }),
    {
        &mut self.peer_mgr
    }

    /// The resource-proof exchanges.
    pub fn resource_prover(&self) -> (r: &ResourceProver)
        ensures
            r@ == self@.prover,
    {
        &self.resource_prover
    }

    /// Number of routing messages backlogged until the approval.
    pub fn backlog_len(&self) -> (r: usize)
        ensures
            r == self@.backlog.len(),
    {
        self.msg_backlog.len()
    }
}

} // verus!
