//! The table of peers and the state of the connection to each.

use crate::id::PublicId;
use crate::table::{
    distinct_by, first_index, first_match, is_first, lemma_first_index_found,
    lemma_first_index_none, lemma_with_entry, lemma_without_first, selects, with_entry,
    without_first,
};
use crate::xor_name::XorName;
use vstd::prelude::*;

verus! {

/// How far the connection to a peer has come, and what the peer is to us.
#[derive(Clone, Copy, Debug, PartialEq, Eq, Structural)]
pub enum PeerState {
    /// Our connection info for the peer is being prepared.
    ConnectionInfoPreparing,
    /// Our connection info is ready; we wait for the peer's.
    ConnectionInfoReady,
    /// The transport is connecting.
    CrustConnecting,
    /// Connected, with no further role yet.
    Connected,
    /// A peer that bootstraps off us.
    Bootstrapper,
    /// A node that joins through us.
    JoiningNode,
    /// The node through which we reach the network.
    Proxy,
    /// A client of ours.
    Client,
    /// A candidate for our section.
    Candidate,
    /// A member of our routing table.
    Routing,
}

impl PeerState {
    /// Whether a peer in this state may send us direct messages and hop
    /// messages: it is connected, or it is our proxy.
    pub open spec fn is_authorised_spec(self) -> bool {
        self == PeerState::Connected || self == PeerState::Proxy
    }

    /// Whether the connection is established: every state but the three in
    /// which it is still being set up.
    pub open spec fn is_connected_spec(self) -> bool {
        self != PeerState::ConnectionInfoPreparing && self != PeerState::ConnectionInfoReady
            && self != PeerState::CrustConnecting
    }

    /// Whether a peer in this state may send us direct messages and hop
    /// messages.
    pub fn is_authorised(&self) -> (r: bool)
        ensures
            r == self.is_authorised_spec(),
    {
        match self {
            PeerState::Connected | PeerState::Proxy => true,
            _ => false,
        }
    }

    /// Whether the connection is established.
    pub fn is_connected(&self) -> (r: bool)
        ensures
            r == self.is_connected_spec(),
    {
        match self {
            PeerState::ConnectionInfoPreparing
            | PeerState::ConnectionInfoReady
            | PeerState::CrustConnecting => false,
            _ => true,
        }
    }
}

/// A peer: who it is and the state of our connection to it.
#[derive(Clone, Copy, Debug, PartialEq, Eq, Structural)]
pub struct Peer {
    pub pub_id: PublicId,
    pub state: PeerState,
}

impl Peer {
    /// A peer in the given state.
    pub fn new(pub_id: PublicId, state: PeerState) -> (r: Peer)
        ensures
            r == (Peer { pub_id, state }),
    {
        Peer { pub_id, state }
    }

    /// The peer's identity.
    pub fn pub_id(&self) -> (r: &PublicId)
        ensures
            *r == self.pub_id,
    {
        &self.pub_id
    }

    /// The peer's address.
    pub fn name(&self) -> (r: &XorName)
        ensures
            *r == self.pub_id.name,
    {
        &self.pub_id.name
    }

    /// The state of our connection to the peer.
    pub fn state(&self) -> (r: &PeerState)
        ensures
            *r == self.state,
    {
        &self.state
    }
}

/// Selects the peer with the given identity.
pub open spec fn has_id(id: PublicId) -> spec_fn(Peer) -> bool {
    |p: Peer| p.pub_id == id
}

/// Selects the peers with the given address.
pub open spec fn has_name(name: XorName) -> spec_fn(Peer) -> bool {
    |p: Peer| p.pub_id.name == name
}

/// Selects the proxy.
pub open spec fn is_proxy_peer() -> spec_fn(Peer) -> bool {
    |p: Peer| p.state == PeerState::Proxy
}

/// The identity of a peer, as a function.
pub open spec fn id_of() -> spec_fn(Peer) -> PublicId {
    |p: Peer| p.pub_id
}

/// No two entries of the table are for the same identity.
pub open spec fn unique_ids(peers: Seq<Peer>) -> bool {
    distinct_by(peers, id_of())
}

/// The state recorded for `id`, if the peer is known.
pub open spec fn state_of(peers: Seq<Peer>, id: PublicId) -> Option<PeerState> {
    match first_match(peers, has_id(id)) {
        Some(p) => Some(p.state),
        None => None,
    }
}

/// Whether `id` is recorded as our proxy.
pub open spec fn is_proxy_spec(peers: Seq<Peer>, id: PublicId) -> bool {
    state_of(peers, id) == Some(PeerState::Proxy)
}

/// Whether `id` may send us direct messages and hop messages.
pub open spec fn is_authorised_peer(peers: Seq<Peer>, id: PublicId) -> bool {
    match state_of(peers, id) {
        Some(state) => state.is_authorised_spec(),
        None => false,
    }
}

/// Whether the connection to `id` is established.
pub open spec fn is_connected_peer(peers: Seq<Peer>, id: PublicId) -> bool {
    match state_of(peers, id) {
        Some(state) => state.is_connected_spec(),
        None => false,
    }
}

/// The table after a connection to `id` has been established: a proxy
/// stays the proxy, any other peer is now `Connected`, and an unknown peer
/// is added as `Connected`.
pub open spec fn after_connect(peers: Seq<Peer>, id: PublicId) -> Seq<Peer> {
    if is_proxy_spec(peers, id) {
        peers
    } else {
        with_entry(peers, has_id(id), Peer { pub_id: id, state: PeerState::Connected })
    }
}

/// The table after we set out to connect to `id`: an unknown peer is added
/// as `ConnectionInfoPreparing`, a known one is left as it is.
pub open spec fn after_prepare(peers: Seq<Peer>, id: PublicId) -> Seq<Peer> {
    if state_of(peers, id) is None {
        peers.push(Peer { pub_id: id, state: PeerState::ConnectionInfoPreparing })
    } else {
        peers
    }
}

/// After the entry for `id` is taken out of a table without duplicates,
/// `id` is unknown and every other peer is in the state it was in.
pub proof fn lemma_without_peer(peers: Seq<Peer>, id: PublicId, other: PublicId)
    requires
        unique_ids(peers),
    ensures
        unique_ids(without_first(peers, has_id(id))),
        state_of(without_first(peers, has_id(id)), id) is None,
        other != id ==> state_of(without_first(peers, has_id(id)), other) == state_of(peers, other),
{
    assert(selects(has_id(id), id_of(), id));
    assert(selects(has_id(other), id_of(), other));
    lemma_without_first(peers, id_of(), has_id(id), id, has_id(other), other);
}

/// After `peer` is recorded in a table without duplicates, it is in the
/// state it was recorded in and every other peer is in the state it was
/// in.
pub proof fn lemma_with_peer(peers: Seq<Peer>, peer: Peer, other: PublicId)
    requires
        unique_ids(peers),
    ensures
        unique_ids(with_entry(peers, has_id(peer.pub_id), peer)),
        state_of(with_entry(peers, has_id(peer.pub_id), peer), peer.pub_id) == Some(peer.state),
        other != peer.pub_id ==> state_of(with_entry(peers, has_id(peer.pub_id), peer), other)
            == state_of(peers, other),
{
    assert(selects(has_id(peer.pub_id), id_of(), peer.pub_id));
    assert(selects(has_id(other), id_of(), other));
    lemma_with_entry(
        peers,
        id_of(),
        has_id(peer.pub_id),
        peer.pub_id,
        peer,
        has_id(other),
        other,
    );
}

/// The peers we know, each with the state of our connection to it.
#[derive(Debug)]
pub struct PeerManager {
    our_public_id: PublicId,
    disable_client_rate_limiter: bool,
    peers: Vec<Peer>,
}

impl View for PeerManager {
    type V = Seq<Peer>;

    closed spec fn view(&self) -> Seq<Peer> {
        self.peers@
    }
}

impl PeerManager {
    #[verifier::type_invariant]
    closed spec fn inv(self) -> bool {
        unique_ids(self.peers@)
    }

    /// Our own identity.
    pub closed spec fn our_id(&self) -> PublicId {
        self.our_public_id
    }

    /// Whether clients are exempt from rate limiting.
    pub closed spec fn rate_limiter_disabled(&self) -> bool {
        self.disable_client_rate_limiter
    }

    /// An empty table.
    pub fn new(our_public_id: PublicId, disable_client_rate_limiter: bool) -> (r: PeerManager)
        ensures
            r@ == Seq::<Peer>::empty(),
            r.our_id() == our_public_id,
            r.rate_limiter_disabled() == disable_client_rate_limiter,
    {
        PeerManager { our_public_id, disable_client_rate_limiter, peers: Vec::new() }
    }

    /// Position of the entry for `id`.
    fn position(&self, id: &PublicId) -> (r: Option<usize>)
        ensures
            unique_ids(self@),
            match r {
                Some(i) => first_index(self@, has_id(*id)) == Some(i as int) && i < self@.len(),
                None => first_index(self@, has_id(*id)) is None,
            },
    {
        proof {
            use_type_invariant(self);
        }
        let mut i: usize = 0;
        while i < self.peers.len()
            invariant
                i <= self.peers.len(),
                unique_ids(self.peers@),
                forall|j: int| 0 <= j < i ==> !has_id(*id)(#[trigger] self.peers@[j]),
            decreases self.peers.len() - i,
        {
            if self.peers[i].pub_id == *id {
                proof {
                    assert(is_first(self.peers@, has_id(*id), i as int));
                    lemma_first_index_found(self.peers@, has_id(*id), i as int);
                }
                return Some(i);
            }
            i += 1;
        }
        proof {
            lemma_first_index_none(self.peers@, has_id(*id));
        }
        None
    }

    /// Our own identity.
    pub fn our_public_id(&self) -> (r: &PublicId)
        ensures
            *r == self.our_id(),
    {
        &self.our_public_id
    }

    /// Number of peers in the table.
    pub fn len(&self) -> (r: usize)
        ensures
            r == self@.len(),
            unique_ids(self@),
    {
        proof {
            use_type_invariant(self);
        }
        self.peers.len()
    }

    /// Records `peer`, in place of an entry for the same identity if there
    /// is one. Returns the entry it replaced.
    pub fn insert_peer(&mut self, peer: Peer) -> (r: Option<Peer>)
        ensures
            final(self)@ == with_entry(old(self)@, has_id(peer.pub_id), peer),
            r == first_match(old(self)@, has_id(peer.pub_id)),
            final(self).our_id() == old(self).our_id(),
            final(self).rate_limiter_disabled() == old(self).rate_limiter_disabled(),
            state_of(final(self)@, peer.pub_id) == Some(peer.state),
    {
        let ghost before = self.peers@;
        let position = self.position(&peer.pub_id);
        proof {
            lemma_with_peer(before, peer, peer.pub_id);
        }
        let mut peers: Vec<Peer> = Vec::new();
        std::mem::swap(&mut self.peers, &mut peers);
        match position {
            Some(i) => {
                let old_peer = peers[i];
                peers.remove(i);
                peers.insert(i, peer);
                proof {
                    assert(peers@ =~= before.update(i as int, peer));
                }
                self.peers = peers;
                Some(old_peer)
            },
            None => {
                peers.push(peer);
                self.peers = peers;
                None
            },
        }
    }

    /// The entry for `id`, if the peer is known.
    pub fn get_peer(&self, id: &PublicId) -> (r: Option<&Peer>)
        ensures
            match r {
                Some(p) => first_match(self@, has_id(*id)) == Some(*p),
                None => first_match(self@, has_id(*id)) is None,
            },
    {
        match self.position(id) {
            Some(i) => Some(&self.peers[i]),
            None => None,
        }
    }

    /// The first entry with the given address, if there is one.
    pub fn get_peer_by_name(&self, name: &XorName) -> (r: Option<&Peer>)
        ensures
            match r {
                Some(p) => first_match(self@, has_name(*name)) == Some(*p),
                None => first_match(self@, has_name(*name)) is None,
            },
    {
        let mut i: usize = 0;
        while i < self.peers.len()
            invariant
                i <= self.peers.len(),
                forall|j: int| 0 <= j < i ==> !has_name(*name)(#[trigger] self.peers@[j]),
            decreases self.peers.len() - i,
        {
            if self.peers[i].pub_id.name == *name {
                proof {
                    assert(is_first(self.peers@, has_name(*name), i as int));
                    lemma_first_index_found(self.peers@, has_name(*name), i as int);
                }
                return Some(&self.peers[i]);
            }
            i += 1;
        }
        proof {
            lemma_first_index_none(self.peers@, has_name(*name));
        }
        None
    }

    /// The address of the proxy, if one is recorded.
    pub fn get_proxy_name(&self) -> (r: Option<&XorName>)
        ensures
            match r {
                Some(name) => first_match(self@, is_proxy_peer()) matches Some(p) && p.pub_id.name
                    == *name,
                None => first_match(self@, is_proxy_peer()) is None,
            },
    {
        let mut i: usize = 0;
        while i < self.peers.len()
            invariant
                i <= self.peers.len(),
                forall|j: int| 0 <= j < i ==> !is_proxy_peer()(#[trigger] self.peers@[j]),
            decreases self.peers.len() - i,
        {
            if self.peers[i].state == PeerState::Proxy {
                proof {
                    assert(is_first(self.peers@, is_proxy_peer(), i as int));
                    lemma_first_index_found(self.peers@, is_proxy_peer(), i as int);
                }
                return Some(&self.peers[i].pub_id.name);
            }
            i += 1;
        }
        proof {
            lemma_first_index_none(self.peers@, is_proxy_peer());
        }
        None
    }

    /// Whether `id` is recorded as our proxy.
    pub fn is_proxy(&self, id: &PublicId) -> (r: bool)
        ensures
            r == is_proxy_spec(self@, *id),
    {
        match self.get_peer(id) {
            Some(p) => p.state == PeerState::Proxy,
            None => false,
        }
    }

    /// Whether the connection to `id` is established.
    pub fn is_connected(&self, id: &PublicId) -> (r: bool)
        ensures
            r == is_connected_peer(self@, *id),
    {
        match self.get_peer(id) {
            Some(p) => p.state.is_connected(),
            None => false,
        }
    }

    /// Forgets `id`. Returns whether the peer was known.
    pub fn remove_peer(&mut self, id: &PublicId) -> (r: bool)
        ensures
            final(self)@ == without_first(old(self)@, has_id(*id)),
            r == (state_of(old(self)@, *id) is Some),
            state_of(final(self)@, *id) is None,
            final(self).our_id() == old(self).our_id(),
            final(self).rate_limiter_disabled() == old(self).rate_limiter_disabled(),
    {
        proof {
            use_type_invariant(&*self);
            lemma_without_peer(self@, *id, *id);
        }
        match self.position(id) {
            Some(i) => {
                let mut peers: Vec<Peer> = Vec::new();
                std::mem::swap(&mut self.peers, &mut peers);
                peers.remove(i);
                self.peers = peers;
                true
            },
            None => false,
        }
    }

    /// Records that the connection to `id` is established.
    pub fn connected_to(&mut self, id: &PublicId)
        ensures
            final(self)@ == after_connect(old(self)@, *id),
            final(self).our_id() == old(self).our_id(),
            final(self).rate_limiter_disabled() == old(self).rate_limiter_disabled(),
            is_authorised_peer(final(self)@, *id),
    {
        if !self.is_proxy(id) {
            let _ = self.insert_peer(Peer::new(*id, PeerState::Connected));
        }
    }

    /// Records that we set out to connect to `id`. Returns whether the
    /// peer was unknown until now.
    pub fn prepare_connection(&mut self, id: &PublicId) -> (r: bool)
        ensures
            final(self)@ == after_prepare(old(self)@, *id),
            r == (state_of(old(self)@, *id) is None),
            final(self).our_id() == old(self).our_id(),
            final(self).rate_limiter_disabled() == old(self).rate_limiter_disabled(),
    {
        match self.position(id) {
            Some(_) => false,
            None => {
                let _ = self.insert_peer(Peer::new(*id, PeerState::ConnectionInfoPreparing));
                true
            },
        }
    }
}

} // verus!
