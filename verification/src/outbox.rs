//! What a state machine asks of its surroundings while it handles an event:
//! messages to send, timers to set, work to start, events to raise.

use crate::authority::Authority;
use crate::error::InterfaceError;
use crate::id::PublicId;
use crate::messages::{
    DirectMessage, DirectMessageView, MessageId, RoutingMessage, RoutingMessageView,
};
use vstd::prelude::*;

verus! {

/// An event raised to the user of the node.
#[derive(Clone, Copy, Debug, PartialEq, Eq, Structural)]
pub enum Event {
    /// The node has stopped for good.
    Terminated,
    /// The node could not join and has to start over.
    RestartRequired,
}

/// Which of the node's clocks a timer token belongs to. Tokens of
/// different kinds never match one another.
#[derive(Clone, Copy, Debug, PartialEq, Eq, Structural)]
pub enum TokenKind {
    /// Waiting for the section's approval.
    ResourceProof,
    /// Waiting for the acknowledgment of a routing message.
    AckResend,
}

/// An opaque token the timer service hands back when the time is up.
#[derive(Clone, Copy, Debug, PartialEq, Eq, Structural)]
pub struct TimerToken {
    pub kind: TokenKind,
    pub serial: u64,
}

/// One request to the node's surroundings.
#[derive(Debug, PartialEq, Eq)]
pub enum Effect {
    /// Raise an event to the user.
    Event(Event),
    /// Send a direct message to a connected peer.
    SendDirect { to: PublicId, msg: DirectMessage },
    /// Sign `payload` with the old identity, append that signature and sign
    /// the whole with the new identity, then send both signatures with the
    /// two identities to the peer as its candidate info.
    SendCandidateInfo {
        to: PublicId,
        old_public_id: PublicId,
        new_public_id: PublicId,
        payload: Vec<u8>,
        new_client_auth: Authority,
    },
    /// Sign a routing message and send it to a peer on the given route.
    SendHop { to: PublicId, routing_msg: RoutingMessage, route: u8 },
    /// Prepare our connection info and send it to the peer as a request.
    RequestConnectionInfo { peer: PublicId, src: Authority, dst: Authority },
    /// Take up a peer's connection-info request.
    AcceptConnectionInfoRequest {
        peer: PublicId,
        encrypted_conn_info: Vec<u8>,
        msg_id: MessageId,
        src: Authority,
        dst: Authority,
    },
    /// Take up a peer's connection-info response.
    AcceptConnectionInfoResponse {
        peer: PublicId,
        encrypted_conn_info: Vec<u8>,
        msg_id: MessageId,
        src: Authority,
        dst: Authority,
    },
    /// Go on with the connection for which our own info is now prepared.
    ConnectionInfoPrepared { result_token: u32, succeeded: bool },
    /// Drop the connection to a peer.
    Disconnect(PublicId),
    /// Hand `token` back after `secs` seconds.
    Schedule { token: TimerToken, secs: u64 },
    /// Compute a resource proof in the background and deliver the result as
    /// an action. Supersedes a computation still running for the same
    /// challenger.
    StartProof { challenger: PublicId, seed: Vec<u8>, target_size: usize, difficulty: u8 },
    /// Turn down the request with the given number.
    Reject { request: u64, error: InterfaceError },
    /// Answer the request with the given number with our identity.
    ReplyId { request: u64, id: PublicId },
}

/// What an effect is.
pub enum EffectView {
    Event(Event),
    SendDirect { to: PublicId, msg: DirectMessageView },
    SendCandidateInfo {
        to: PublicId,
        old_public_id: PublicId,
        new_public_id: PublicId,
        payload: Seq<u8>,
        new_client_auth: Authority,
    },
    SendHop { to: PublicId, routing_msg: RoutingMessageView, route: u8 },
    RequestConnectionInfo { peer: PublicId, src: Authority, dst: Authority },
    AcceptConnectionInfoRequest {
        peer: PublicId,
        encrypted_conn_info: Seq<u8>,
        msg_id: MessageId,
        src: Authority,
        dst: Authority,
    },
    AcceptConnectionInfoResponse {
        peer: PublicId,
        encrypted_conn_info: Seq<u8>,
        msg_id: MessageId,
        src: Authority,
        dst: Authority,
    },
    ConnectionInfoPrepared { result_token: u32, succeeded: bool },
    Disconnect(PublicId),
    Schedule { token: TimerToken, secs: u64 },
    StartProof { challenger: PublicId, seed: Seq<u8>, target_size: usize, difficulty: u8 },
    Reject { request: u64, error: InterfaceError },
    ReplyId { request: u64, id: PublicId },
}

impl View for Effect {
    type V = EffectView;

    open spec fn view(&self) -> EffectView {
        match self {
            Effect::Event(e) => EffectView::Event(*e),
            Effect::SendDirect { to, msg } => EffectView::SendDirect { to: *to, msg: msg@ },
            Effect::SendCandidateInfo {
                to,
                old_public_id,
                new_public_id,
                payload,
                new_client_auth,
            } => EffectView::SendCandidateInfo {
                to: *to,
                old_public_id: *old_public_id,
                new_public_id: *new_public_id,
                payload: payload@,
                new_client_auth: *new_client_auth,
            },
            Effect::SendHop { to, routing_msg, route } => EffectView::SendHop {
                to: *to,
                routing_msg: routing_msg@,
                route: *route,
            },
            Effect::RequestConnectionInfo { peer, src, dst } => EffectView::RequestConnectionInfo {
                peer: *peer,
                src: *src,
                dst: *dst,
            },
            Effect::AcceptConnectionInfoRequest {
                peer,
                encrypted_conn_info,
                msg_id,
                src,
                dst,
            } => EffectView::AcceptConnectionInfoRequest {
                peer: *peer,
                encrypted_conn_info: encrypted_conn_info@,
                msg_id: *msg_id,
                src: *src,
                dst: *dst,
            },
            Effect::AcceptConnectionInfoResponse {
                peer,
                encrypted_conn_info,
                msg_id,
                src,
                dst,
            } => EffectView::AcceptConnectionInfoResponse {
                peer: *peer,
                encrypted_conn_info: encrypted_conn_info@,
                msg_id: *msg_id,
                src: *src,
                dst: *dst,
            },
            Effect::ConnectionInfoPrepared {
                result_token,
                succeeded,
            } => EffectView::ConnectionInfoPrepared {
                result_token: *result_token,
                succeeded: *succeeded,
            },
            Effect::Disconnect(id) => EffectView::Disconnect(*id),
            Effect::Schedule { token, secs } => EffectView::Schedule { token: *token, secs: *secs },
            Effect::StartProof {
                challenger,
                seed,
                target_size,
                difficulty,
            } => EffectView::StartProof {
                challenger: *challenger,
                seed: seed@,
                target_size: *target_size,
                difficulty: *difficulty,
            },
            Effect::Reject { request, error } => EffectView::Reject {
                request: *request,
                error: *error,
            },
            Effect::ReplyId { request, id } => EffectView::ReplyId { request: *request, id: *id },
        }
    }
}

/// The views of a list of effects, in order.
pub open spec fn effect_views(s: Seq<Effect>) -> Seq<EffectView> {
    s.map_values(|e: Effect| e@)
}

/// Collects, in order, the effects of handling events.
#[derive(Debug)]
pub struct Outbox {
    effects: Vec<Effect>,
}

impl View for Outbox {
    type V = Seq<EffectView>;

    closed spec fn view(&self) -> Seq<EffectView> {
        effect_views(self.effects@)
    }
}

impl Outbox {
    /// An empty outbox.
    pub fn new() -> (r: Outbox)
        ensures
            r@ == Seq::<EffectView>::empty(),
    {
        let r = Outbox { effects: Vec::new() };
        proof {
            assert(r@ =~= Seq::<EffectView>::empty());
        }
        r
    }

    /// Appends an effect.
    pub fn push(&mut self, effect: Effect)
        ensures
            final(self)@ == old(self)@.push(effect@),
    {
        self.effects.push(effect);
        proof {
            assert(self@ =~= old(self)@.push(effect@));
        }
    }

    /// Raises an event to the user.
    pub fn send_event(&mut self, event: Event)
        ensures
            final(self)@ == old(self)@.push(EffectView::Event(event)),
    {
        self.push(Effect::Event(event));
    }

    /// Number of effects collected.
    pub fn len(&self) -> (r: usize)
        ensures
            r == self@.len(),
    {
        self.effects.len()
    }

    /// The effects collected so far, oldest first.
    pub fn effects(&self) -> (r: &Vec<Effect>)
        ensures
            effect_views(r@) == self@,
    {
        &self.effects
    }

    /// Hands out the effects collected so far, oldest first.
    pub fn into_effects(self) -> (r: Vec<Effect>)
        ensures
            effect_views(r@) == self@,
    {
        self.effects
    }
}

/// Hands out timer tokens. Each token carries the kind of wait it was made
/// for and a serial number.
#[derive(Debug)]
pub struct Timer {
    next_serial: u64,
}

/// The serial number after `serial`; the numbers wrap round.
pub open spec fn serial_after(serial: u64) -> u64 {
    if serial == u64::MAX {
        0
    } else {
        (serial + 1) as u64
    }
}

impl Timer {
    /// The serial number of the next token.
    pub closed spec fn next(&self) -> u64 {
        self.next_serial
    }

    /// A timer whose first token has serial number 0.
    pub fn new() -> (r: Timer)
        ensures
            r.next() == 0,
    {
        Timer { next_serial: 0 }
    }

    /// Makes a token of the given kind and asks the timer service to hand
    /// it back after `secs` seconds.
    pub fn schedule(&mut self, kind: TokenKind, secs: u64, outbox: &mut Outbox) -> (token:
        TimerToken)
        ensures
            token == (TimerToken { kind, serial: old(self).next() }),
            final(self).next() == serial_after(old(self).next()),
            final(outbox)@ == old(outbox)@.push(EffectView::Schedule { token, secs }),
    {
        let token = TimerToken { kind, serial: self.next_serial };
        self.next_serial = if self.next_serial == u64::MAX {
            0
        } else {
            self.next_serial + 1
        };
        outbox.push(Effect::Schedule { token, secs });
        token
    }
}

} // verus!
