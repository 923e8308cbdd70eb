//! Keeps track of the routing messages that still await an acknowledgment.

use crate::messages::{Ack, RoutingMessage, RoutingMessageView};
use crate::outbox::TimerToken;
use crate::table::{
    distinct_by, first_index, first_match, is_first, lemma_first_index_found,
    lemma_first_index_none, lemma_first_index_sound, lemma_with_entry, lemma_without_first,
    selects, with_entry, without_first,
};
use vstd::prelude::*;

verus! {

/// Seconds to wait for an acknowledgment before the message is sent again.
pub const ACK_TIMEOUT_SECS: u64 = 20;

/// A routing message that has been sent and not yet acknowledged.
#[derive(Debug, PartialEq, Eq)]
pub struct UnacknowledgedMessage {
    pub routing_msg: RoutingMessage,
    pub route: u8,
    pub timer_token: TimerToken,
}

/// What an unacknowledged message is.
pub struct UnacknowledgedMessageView {
    pub routing_msg: RoutingMessageView,
    pub route: u8,
    pub timer_token: TimerToken,
}

impl View for UnacknowledgedMessage {
    type V = UnacknowledgedMessageView;

    open spec fn view(&self) -> UnacknowledgedMessageView {
        UnacknowledgedMessageView {
            routing_msg: self.routing_msg@,
            route: self.route,
            timer_token: self.timer_token,
        }
    }
}

/// An entry of the table of pending acknowledgments.
#[derive(Debug)]
struct PendingAck {
    ack: Ack,
    msg: UnacknowledgedMessage,
}

/// An entry of the table of pending acknowledgments: the token awaited and
/// the message it will acknowledge.
pub struct PendingAckView {
    pub ack: Ack,
    pub msg: UnacknowledgedMessageView,
}

impl View for PendingAck {
    type V = PendingAckView;

    closed spec fn view(&self) -> PendingAckView {
        PendingAckView { ack: self.ack, msg: self.msg@ }
    }
}

/// Selects the entry that awaits `ack`.
pub open spec fn awaits(ack: Ack) -> spec_fn(PendingAckView) -> bool {
    |p: PendingAckView| p.ack == ack
}

/// The acknowledgment an entry awaits, as a function.
pub open spec fn awaited() -> spec_fn(PendingAckView) -> Ack {
    |p: PendingAckView| p.ack
}

/// Selects the entries whose timer runs under `token`.
pub open spec fn timed_by(token: TimerToken) -> spec_fn(PendingAckView) -> bool {
    |p: PendingAckView| p.msg.timer_token == token
}

/// What the acknowledgment manager holds: the messages that await an
/// acknowledgment, oldest first, and the acknowledgments that came before
/// anything awaited them.
pub struct AckManagerView {
    pub pending: Seq<PendingAckView>,
    pub received: Set<Ack>,
}

impl AckManagerView {
    /// No two messages await the same acknowledgment.
    pub open spec fn wf(self) -> bool {
        distinct_by(self.pending, awaited())
    }

    /// Whether a message awaits `ack`.
    pub open spec fn is_pending(self, ack: Ack) -> bool {
        first_index(self.pending, awaits(ack)) is Some
    }

    /// The state after `ack` has come in: the message that awaited it no
    /// longer does; if none did, the acknowledgment is remembered.
    pub open spec fn after_receive(self, ack: Ack) -> AckManagerView {
        if first_index(self.pending, awaits(ack)) is Some {
            AckManagerView { pending: without_first(self.pending, awaits(ack)), ..self }
        } else {
            AckManagerView { received: self.received.insert(ack), ..self }
        }
    }

    /// The state after a message was sent that `ack` will acknowledge.
    pub open spec fn after_pending(
        self,
        ack: Ack,
        msg: UnacknowledgedMessageView,
    ) -> AckManagerView {
        AckManagerView {
            pending: with_entry(self.pending, awaits(ack), PendingAckView { ack, msg }),
            ..self
        }
    }

    /// The state after the timer under `token` has run out: the first
    /// message that waited under it is taken out.
    pub open spec fn after_timeout(self, token: TimerToken) -> AckManagerView {
        AckManagerView { pending: without_first(self.pending, timed_by(token)), ..self }
    }
}

/// What the steps do to the table of pending acknowledgments. Once an
/// acknowledgment has come in, nothing awaits it; a message that was sent
/// awaits its acknowledgment; and neither step touches what awaits any other
/// acknowledgment.
pub proof fn lemma_pending_steps(
    v: AckManagerView,
    ack: Ack,
    other: Ack,
    msg: UnacknowledgedMessageView,
)
    requires
        v.wf(),
    ensures
        v.after_receive(ack).wf(),
        v.after_pending(ack, msg).wf(),
        !v.after_receive(ack).is_pending(ack),
        first_match(v.after_pending(ack, msg).pending, awaits(ack)) == Some(
            PendingAckView { ack, msg },
        ),
        other != ack ==> {
            &&& first_match(v.after_receive(ack).pending, awaits(other)) == first_match(
                v.pending,
                awaits(other),
            )
            &&& first_match(v.after_pending(ack, msg).pending, awaits(other)) == first_match(
                v.pending,
                awaits(other),
            )
        },
{
    let key = awaited();
    assert(selects(awaits(ack), key, ack));
    assert(selects(awaits(other), key, other));
    lemma_first_index_sound(v.pending, awaits(ack));
    lemma_without_first(v.pending, key, awaits(ack), ack, awaits(other), other);
    lemma_with_entry(
        v.pending,
        key,
        awaits(ack),
        ack,
        PendingAckView { ack, msg },
        awaits(other),
        other,
    );
}

/// Taking out the message whose clock has run out leaves no two messages
/// awaiting the same acknowledgment.
pub proof fn lemma_timeout_keeps_wf(v: AckManagerView, token: TimerToken)
    requires
        v.wf(),
    ensures
        v.after_timeout(token).wf(),
{
    let s = v.pending;
    let t = without_first(s, timed_by(token));
    match first_index(s, timed_by(token)) {
        Some(i) => {
            lemma_first_index_sound(s, timed_by(token));
            assert forall|a: int, b: int| 0 <= a < b < t.len() implies awaited()(#[trigger] t[a])
                != awaited()(#[trigger] t[b]) by {
                let a0 = if a < i {
                    a
                } else {
                    a + 1
                };
                let b0 = if b < i {
                    b
                } else {
                    b + 1
                };
                assert(t[a] == s[a0] && t[b] == s[b0]);
            }
        },
        None => {},
    }
}

/// Tracks outstanding acknowledgments.
#[derive(Debug)]
pub struct AckManager {
    pending: Vec<PendingAck>,
    received: Vec<Ack>,
}

impl View for AckManager {
    type V = AckManagerView;

    closed spec fn view(&self) -> AckManagerView {
        AckManagerView {
            pending: self.pending@.map_values(|p: PendingAck| p@),
            received: self.received@.to_set(),
        }
    }
}

impl AckManager {
    #[verifier::type_invariant]
    closed spec fn inv(self) -> bool {
        self@.wf()
    }

    /// A manager with nothing pending and nothing received.
    pub fn new() -> (r: AckManager)
        ensures
            r@.pending == Seq::<PendingAckView>::empty(),
            r@.received == Set::<Ack>::empty(),
    {
        let r = AckManager { pending: Vec::new(), received: Vec::new() };
        proof {
            assert(r@.pending =~= Seq::<PendingAckView>::empty());
            assert(r@.received =~= Set::<Ack>::empty());
        }
        r
    }

    /// Position of the entry that awaits `ack`.
    fn position(&self, ack: Ack) -> (r: Option<usize>)
        ensures
            self@.wf(),
            match r {
                Some(i) => first_index(self@.pending, awaits(ack)) == Some(i as int) && i
                    < self.pending@.len(),
                None => first_index(self@.pending, awaits(ack)) is None,
            },
    {
        proof {
            use_type_invariant(self);
        }
        let ghost views = self@.pending;
        let mut i: usize = 0;
        while i < self.pending.len()
            invariant
                i <= self.pending.len(),
                self@.wf(),
                views == self@.pending,
                views.len() == self.pending@.len(),
                forall|j: int| 0 <= j < i ==> !awaits(ack)(#[trigger] views[j]),
            decreases self.pending.len() - i,
        {
            if self.pending[i].ack == ack {
                proof {
                    assert(views[i as int] == self.pending@[i as int]@);
                    assert(is_first(views, awaits(ack), i as int));
                    lemma_first_index_found(views, awaits(ack), i as int);
                }
                return Some(i);
            }
            proof {
                assert(views[i as int] == self.pending@[i as int]@);
            }
            i += 1;
        }
        proof {
            lemma_first_index_none(views, awaits(ack));
        }
        None
    }

    /// Position of the first entry whose timer runs under `token`.
    fn position_of_token(&self, token: TimerToken) -> (r: Option<usize>)
        ensures
            self@.wf(),
            match r {
                Some(i) => first_index(self@.pending, timed_by(token)) == Some(i as int) && i
                    < self.pending@.len(),
                None => first_index(self@.pending, timed_by(token)) is None,
            },
    {
        proof {
            use_type_invariant(self);
        }
        let ghost views = self@.pending;
        let mut i: usize = 0;
        while i < self.pending.len()
            invariant
                i <= self.pending.len(),
                self@.wf(),
                views == self@.pending,
                views.len() == self.pending@.len(),
                forall|j: int| 0 <= j < i ==> !timed_by(token)(#[trigger] views[j]),
            decreases self.pending.len() - i,
        {
            if self.pending[i].msg.timer_token == token {
                proof {
                    assert(views[i as int] == self.pending@[i as int]@);
                    assert(is_first(views, timed_by(token), i as int));
                    lemma_first_index_found(views, timed_by(token), i as int);
                }
                return Some(i);
            }
            proof {
                assert(views[i as int] == self.pending@[i as int]@);
            }
            i += 1;
        }
        proof {
            lemma_first_index_none(views, timed_by(token));
        }
        None
    }

    /// Number of messages that await an acknowledgment.
    pub fn pending_len(&self) -> (r: usize)
        ensures
            r == self@.pending.len(),
    {
        self.pending.len()
    }

    /// Whether a message awaits `ack`.
    pub fn is_pending(&self, ack: Ack) -> (r: bool)
        ensures
            r == self@.is_pending(ack),
            self@.wf(),
    {
        self.position(ack).is_some()
    }

    /// Whether `ack` came in before any message awaited it.
    pub fn did_receive(&self, ack: Ack) -> (r: bool)
        ensures
            r == self@.received.contains(ack),
    {
        let mut i: usize = 0;
        while i < self.received.len()
            invariant
                i <= self.received.len(),
                forall|j: int| 0 <= j < i ==> self.received@[j] != ack,
            decreases self.received.len() - i,
        {
            if self.received[i] == ack {
                return true;
            }
            i += 1;
        }
        false
    }

    /// Takes in an acknowledgment: the message that awaited it is done
    /// with; if none did, the acknowledgment is remembered.
    pub fn receive(&mut self, ack: Ack)
        ensures
            final(self)@ == old(self)@.after_receive(ack),
    {
        let ghost before = self@;
        match self.position(ack) {
            Some(i) => {
                proof {
                    lemma_pending_steps(before, ack, ack, before.pending[0].msg);
                }
                let mut pending: Vec<PendingAck> = Vec::new();
                std::mem::swap(&mut self.pending, &mut pending);
                let _ = pending.remove(i);
                proof {
                    assert(pending@.map_values(|p: PendingAck| p@) =~= before.pending.remove(
                        i as int,
                    ));
                }
                self.pending = pending;
            },
            None => {
                let mut received: Vec<Ack> = Vec::new();
                std::mem::swap(&mut self.received, &mut received);
                received.push(ack);
                proof {
                    old(self).received@.lemma_push_to_set_commute(ack);
                }
                self.received = received;
            },
        }
    }

    /// Records a message that was sent and that `ack` will acknowledge.
    /// Returns the message that awaited the same acknowledgment until now.
    pub fn add_to_pending(&mut self, ack: Ack, unacked_msg: UnacknowledgedMessage) -> (r: Option<
        UnacknowledgedMessage,
    >)
        ensures
            final(self)@ == old(self)@.after_pending(ack, unacked_msg@),
            match r {
                Some(ejected) => first_match(old(self)@.pending, awaits(ack)) matches Some(p)
                    && p.msg == ejected@,
                None => first_match(old(self)@.pending, awaits(ack)) is None,
            },
    {
        let entry = PendingAck { ack, msg: unacked_msg };
        let ghost before = self@;
        let position = self.position(ack);
        proof {
            lemma_pending_steps(before, ack, ack, unacked_msg@);
        }
        let mut pending: Vec<PendingAck> = Vec::new();
        std::mem::swap(&mut self.pending, &mut pending);
        match position {
            Some(i) => {
                let ejected = pending.remove(i);
                pending.insert(i, entry);
                proof {
                    assert(pending@.map_values(|p: PendingAck| p@) =~= before.pending.update(
                        i as int,
                        entry@,
                    ));
                }
                self.pending = pending;
                Some(ejected.msg)
            },
            None => {
                pending.push(entry);
                proof {
                    assert(pending@.map_values(|p: PendingAck| p@) =~= before.pending.push(
                        entry@,
                    ));
                }
                self.pending = pending;
                None
            },
        }
    }

    /// Takes out the first message whose timer runs under `token`.
    pub fn find_timed_out(&mut self, token: TimerToken) -> (r: Option<
        (UnacknowledgedMessage, Ack),
    >)
        ensures
            final(self)@ == old(self)@.after_timeout(token),
            match r {
                Some((msg, ack)) => first_match(old(self)@.pending, timed_by(token)) == Some(
                    PendingAckView { ack, msg: msg@ },
                ),
                None => first_match(old(self)@.pending, timed_by(token)) is None,
            },
    {
        let ghost before = self@;
        match self.position_of_token(token) {
            Some(i) => {
                proof {
                    lemma_timeout_keeps_wf(before, token);
                }
                let mut pending: Vec<PendingAck> = Vec::new();
                std::mem::swap(&mut self.pending, &mut pending);
                let entry = pending.remove(i);
                proof {
                    assert(pending@.map_values(|p: PendingAck| p@) =~= before.pending.remove(
                        i as int,
                    ));
                }
                self.pending = pending;
                Some((entry.msg, entry.ack))
            },
            None => None,
        }
    }
}

} // verus!
