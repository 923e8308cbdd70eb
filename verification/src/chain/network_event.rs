//! The facts about membership that sections agree on.

use crate::authority::Authority;
use crate::chain::section_info::{Proof, ProofSet, SectionInfo, SectionInfoView};
use crate::error::RoutingError;
use crate::id::PublicId;
use crate::order::{
    compare_u64, flip, key_order, lemma_key_order_equal, lemma_key_order_flip,
    lemma_key_order_transitive, lemma_seq_key_injective, lemma_seq_key_step,
    lemma_strictly_increasing_unique, list1, list2, seq_key, strictly_increasing, Key, Order,
};
use crate::serialisation::{serialise_words, serialised_words};
use crate::xor_name::{Digest256, XorName};
use maidsafe_utilities::serialisation::SerialisationError;
use vstd::prelude::*;

verus! {

/// A snapshot of a neighbouring section together with the endorsements that
/// prove it.
#[derive(Debug, PartialEq, Eq, PartialOrd, Ord, Hash)]
pub struct ProvingSection {
    pub sec_info: SectionInfo,
    pub proofs: ProofSet,
}

/// What a proving section is: the snapshot and its endorsements.
pub struct ProvingSectionView {
    pub sec_info: SectionInfoView,
    pub proofs: Seq<Proof>,
}

impl ProvingSectionView {
    /// Structural content: snapshot, then endorsements.
    pub open spec fn key(self) -> Key {
        list2(self.sec_info.key(), ProofSet::key_of(self.proofs))
    }

    /// Two proving sections with the same key are the same.
    pub proof fn lemma_key_injective(a: ProvingSectionView, b: ProvingSectionView)
        requires
            a.key() == b.key(),
        ensures
            a == b,
    {
        SectionInfoView::lemma_key_injective(a.sec_info, b.sec_info);
        ProofSet::lemma_key_injective(a.proofs, b.proofs);
    }
}

impl View for ProvingSection {
    type V = ProvingSectionView;

    open spec fn view(&self) -> ProvingSectionView {
        ProvingSectionView { sec_info: self.sec_info@, proofs: self.proofs@ }
    }
}

impl Clone for ProvingSection {
    fn clone(&self) -> (r: ProvingSection)
        ensures
            r@ == self@,
    {
        ProvingSection { sec_info: self.sec_info.clone(), proofs: self.proofs.clone() }
    }
}

impl ProvingSection {
    /// Orders two proving sections by snapshot, then by endorsements.
    pub fn compare(&self, other: &ProvingSection) -> (r: Order)
        ensures
            r == key_order(self@.key(), other@.key()),
    {
        proof {
            reveal_with_fuel(key_order, 3);
        }
        let c = self.sec_info.compare(&other.sec_info);
        if c != Order::Equal {
            return c;
        }
        self.proofs.compare(&other.proofs)
    }
}

/// The key of a proving section, as a function.
pub open spec fn proving_key() -> spec_fn(ProvingSectionView) -> Key {
    |p: ProvingSectionView| p.key()
}

/// The views of a list of proving sections, in order.
pub open spec fn proving_views(s: Seq<ProvingSection>) -> Seq<ProvingSectionView> {
    s.map_values(|p: ProvingSection| p@)
}

/// Orders two lists of proving sections element by element.
pub fn compare_proving_sections(a: &Vec<ProvingSection>, b: &Vec<ProvingSection>) -> (r: Order)
    ensures
        r == key_order(
            seq_key(proving_views(a@), proving_key()),
            seq_key(proving_views(b@), proving_key()),
        ),
{
    let ghost f = proving_key();
    let ghost va = proving_views(a@);
    let ghost vb = proving_views(b@);
    let mut i: usize = 0;
    proof {
        assert(va.skip(0) =~= va);
        assert(vb.skip(0) =~= vb);
    }
    while i < a.len() && i < b.len()
        invariant
            i <= a.len(),
            i <= b.len(),
            f == proving_key(),
            va == proving_views(a@),
            vb == proving_views(b@),
            key_order(seq_key(va, f), seq_key(vb, f)) == key_order(
                seq_key(va.skip(i as int), f),
                seq_key(vb.skip(i as int), f),
            ),
        decreases a.len() - i,
    {
        proof {
            lemma_seq_key_step(va, f, i as int);
            lemma_seq_key_step(vb, f, i as int);
        }
        let c = a[i].compare(&b[i]);
        if c != Order::Equal {
            return c;
        }
        i += 1;
    }
    proof {
        if i < a.len() {
            lemma_seq_key_step(va, f, i as int);
        }
        if i < b.len() {
            lemma_seq_key_step(vb, f, i as int);
        }
    }
    if a.len() == b.len() {
        Order::Equal
    } else if i == a.len() {
        Order::Less
    } else {
        Order::Greater
    }
}

/// A fact about the network's membership, fed into consensus.
#[derive(Debug, PartialEq, Eq, PartialOrd, Ord, Hash)]
pub enum NetworkEvent {
    /// A node has come online under the given authority.
    Online(PublicId, Authority),
    /// A node has gone offline.
    Offline(PublicId),
    /// Our section is merging.
    OurMerge,
    /// A neighbouring section with the given digest is merging.
    NeighbourMerge(Digest256),
    /// A new snapshot of a section's membership.
    SectionInfo(SectionInfo),
    /// A chain of proofs for a neighbouring section, starting from the
    /// current section, and the snapshot it leads to.
    ProvingSections(Vec<ProvingSection>, SectionInfo),
}

/// What a network event is.
pub enum NetworkEventView {
    Online(PublicId, Authority),
    Offline(PublicId),
    OurMerge,
    NeighbourMerge(Digest256),
    SectionInfo(SectionInfoView),
    ProvingSections(Seq<ProvingSectionView>, SectionInfoView),
}

impl NetworkEventView {
    /// Position of the variant in the declaration.
    pub open spec fn rank(self) -> u64 {
        match self {
            NetworkEventView::Online(_, _) => 0,
            NetworkEventView::Offline(_) => 1,
            NetworkEventView::OurMerge => 2,
            NetworkEventView::NeighbourMerge(_) => 3,
            NetworkEventView::SectionInfo(_) => 4,
            NetworkEventView::ProvingSections(_, _) => 5,
        }
    }

    /// Structural content of the variant's fields.
    pub open spec fn fields_key(self) -> Key {
        match self {
            NetworkEventView::Online(id, auth) => list2(id.key(), auth.key()),
            NetworkEventView::Offline(id) => list1(id.key()),
            NetworkEventView::OurMerge => Key::Nil,
            NetworkEventView::NeighbourMerge(d) => list1(d.key()),
            NetworkEventView::SectionInfo(si) => list1(si.key()),
            NetworkEventView::ProvingSections(ps, si) => list2(
                seq_key(ps, proving_key()),
                si.key(),
            ),
        }
    }

    /// Structural content: the variant's rank, then its fields.
    pub open spec fn key(self) -> Key {
        list2(Key::Num(self.rank() as int), self.fields_key())
    }

    /// Whether this event proves `their` to be a valid successor, given
    /// `proofs`: it carries a snapshot, a quorum of that snapshot's section has
    /// signed, and `their` chains from the snapshot.
    pub open spec fn proves_successor_info(
        self,
        their: SectionInfoView,
        proofs: Seq<Proof>,
    ) -> bool {
        match self {
            NetworkEventView::SectionInfo(si) => si.proves_successor(their, proofs),
            _ => false,
        }
    }

    /// Two events with the same key are the same event.
    pub proof fn lemma_key_injective(a: NetworkEventView, b: NetworkEventView)
        requires
            a.key() == b.key(),
        ensures
            a == b,
    {
        match (a, b) {
            (NetworkEventView::Online(x, p), NetworkEventView::Online(y, q)) => {
                PublicId::lemma_key_injective(x, y);
                Authority::lemma_key_injective(p, q);
            },
            (NetworkEventView::Offline(x), NetworkEventView::Offline(y)) => {
                PublicId::lemma_key_injective(x, y);
            },
            (NetworkEventView::NeighbourMerge(x), NetworkEventView::NeighbourMerge(y)) => {
                XorName::lemma_key_injective(x, y);
            },
            (NetworkEventView::SectionInfo(x), NetworkEventView::SectionInfo(y)) => {
                SectionInfoView::lemma_key_injective(x, y);
            },
            (NetworkEventView::ProvingSections(p, x), NetworkEventView::ProvingSections(q, y)) => {
                SectionInfoView::lemma_key_injective(x, y);
                let f = proving_key();
                assert forall|u: ProvingSectionView, v: ProvingSectionView| #[trigger]
                    f(u) == #[trigger] f(v) implies u == v by {
                    ProvingSectionView::lemma_key_injective(u, v);
                }
                lemma_seq_key_injective(p, q, f);
            },
            _ => {},
        }
    }
}

/// The key of an event, as a function.
pub open spec fn event_key() -> spec_fn(NetworkEventView) -> Key {
    |e: NetworkEventView| e.key()
}

/// The total order on events: by variant, then field by field.
pub open spec fn event_order(a: NetworkEventView, b: NetworkEventView) -> Order {
    key_order(a.key(), b.key())
}

/// Whether `s` lists its events in strictly increasing order, which is the
/// order in which validators serialise an agreed set of events.
pub open spec fn in_agreement_order(s: Seq<NetworkEventView>) -> bool {
    strictly_increasing(s, event_key())
}

/// Two events compare `Equal` exactly when they are the same event.
pub proof fn lemma_event_order_equal(a: NetworkEventView, b: NetworkEventView)
    ensures
        event_order(a, b) == Order::Equal <==> a == b,
{
    lemma_key_order_equal(a.key(), b.key());
    if a.key() == b.key() {
        NetworkEventView::lemma_key_injective(a, b);
    }
}

/// Comparing two events the other way round gives the opposite result, so
/// of two different events exactly one comes first.
pub proof fn lemma_event_order_flip(a: NetworkEventView, b: NetworkEventView)
    ensures
        event_order(b, a) == flip(event_order(a, b)),
{
    lemma_key_order_flip(a.key(), b.key());
}

/// The order on events is transitive.
pub proof fn lemma_event_order_transitive(
    a: NetworkEventView,
    b: NetworkEventView,
    c: NetworkEventView,
)
    requires
        event_order(a, b) != Order::Greater,
        event_order(b, c) != Order::Greater,
    ensures
        event_order(a, c) != Order::Greater,
        event_order(a, b) == Order::Less || event_order(b, c) == Order::Less ==> event_order(a, c)
            == Order::Less,
{
    lemma_key_order_transitive(a.key(), b.key(), c.key());
}

/// Equal sets of events have the same agreement order: whoever arranges
/// the same events in increasing order arrives at the same sequence. The
/// order depends on the events' content alone.
pub proof fn lemma_agreement_order_unique(s1: Seq<NetworkEventView>, s2: Seq<NetworkEventView>)
    requires
        in_agreement_order(s1),
        in_agreement_order(s2),
        s1.to_set() == s2.to_set(),
    ensures
        s1 == s2,
{
    lemma_strictly_increasing_unique(s1, s2, event_key());
}

impl View for NetworkEvent {
    type V = NetworkEventView;

    open spec fn view(&self) -> NetworkEventView {
        match self {
            NetworkEvent::Online(id, auth) => NetworkEventView::Online(*id, *auth),
            NetworkEvent::Offline(id) => NetworkEventView::Offline(*id),
            NetworkEvent::OurMerge => NetworkEventView::OurMerge,
            NetworkEvent::NeighbourMerge(d) => NetworkEventView::NeighbourMerge(*d),
            NetworkEvent::SectionInfo(si) => NetworkEventView::SectionInfo(si@),
            NetworkEvent::ProvingSections(ps, si) => NetworkEventView::ProvingSections(
                proving_views(ps@),
                si@,
            ),
        }
    }
}

/// A copy of a list of proving sections.
pub fn clone_proving_sections(sections: &Vec<ProvingSection>) -> (r: Vec<ProvingSection>)
    ensures
        proving_views(r@) == proving_views(sections@),
{
    let mut out: Vec<ProvingSection> = Vec::new();
    let mut i: usize = 0;
    while i < sections.len()
        invariant
            i <= sections.len(),
            proving_views(out@) == proving_views(sections@).take(i as int),
        decreases sections.len() - i,
    {
        let ghost before = proving_views(out@);
        let section = sections[i].clone();
        out.push(section);
        proof {
            assert(proving_views(out@) =~= before.push(section@));
            assert(proving_views(sections@)[i as int] == sections@[i as int]@);
            assert(proving_views(out@) =~= proving_views(sections@).take(i as int + 1));
        }
        i += 1;
    }
    proof {
        assert(proving_views(sections@).take(i as int) =~= proving_views(sections@));
    }
    out
}

impl Clone for NetworkEvent {
    fn clone(&self) -> (r: NetworkEvent)
        ensures
            r@ == self@,
    {
        match self {
            NetworkEvent::Online(id, auth) => NetworkEvent::Online(*id, *auth),
            NetworkEvent::Offline(id) => NetworkEvent::Offline(*id),
            NetworkEvent::OurMerge => NetworkEvent::OurMerge,
            NetworkEvent::NeighbourMerge(d) => NetworkEvent::NeighbourMerge(*d),
            NetworkEvent::SectionInfo(si) => NetworkEvent::SectionInfo(si.clone()),
            NetworkEvent::ProvingSections(ps, si) => NetworkEvent::ProvingSections(
                clone_proving_sections(ps),
                si.clone(),
            ),
        }
    }
}

/// What is handed to the consensus engine for agreement.
#[derive(Debug, PartialEq, Eq)]
pub enum Observation {
    /// Vote to add a member; `related_info` is the serialised authority
    /// under which it came online.
    Add { peer_id: PublicId, related_info: Vec<u8> },
    /// Vote to remove a member.
    Remove { peer_id: PublicId, related_info: Vec<u8> },
    /// An event the consensus engine carries without looking into it.
    OpaquePayload(NetworkEvent),
}

/// The observation for a node that came online, given what serialising its
/// authority gave: a vote to add it that carries the serialised authority, or
/// the serialisation error.
pub fn online_observation(
    peer_id: PublicId,
    serialised: Result<Vec<u8>, SerialisationError>,
) -> (r: Result<Observation, RoutingError>)
    ensures
        match serialised {
            Ok(bytes) => r matches Ok(Observation::Add { peer_id: p, related_info })
                && p == peer_id && related_info == bytes,
            Err(_) => r == Err::<Observation, RoutingError>(RoutingError::Serialisation),
        },
{
    match serialised {
        Ok(bytes) => Ok(Observation::Add { peer_id, related_info: bytes }),
        Err(_) => Err(RoutingError::Serialisation),
    }
}

impl NetworkEvent {
    /// Position of the variant in the declaration.
    pub fn rank(&self) -> (r: u64)
        ensures
            r == self@.rank(),
    {
        match self {
            NetworkEvent::Online(_, _) => 0,
            NetworkEvent::Offline(_) => 1,
            NetworkEvent::OurMerge => 2,
            NetworkEvent::NeighbourMerge(_) => 3,
            NetworkEvent::SectionInfo(_) => 4,
            NetworkEvent::ProvingSections(_, _) => 5,
        }
    }

    /// Checks if the given snapshot is a valid successor of the one this
    /// event carries. Never fails: an event without a snapshot, a missing
    /// quorum or a broken chain all give `false`.
    pub fn proves_successor_info(&self, their_si: &SectionInfo, proofs: &ProofSet) -> (r: bool)
        ensures
            r == self@.proves_successor_info(their_si@, proofs@),
            r ==> self is SectionInfo,
    {
        match self {
            NetworkEvent::SectionInfo(self_si) => self_si.proves_successor(their_si, proofs),
            _ => false,
        }
    }

    /// Returns the snapshot if this is a `SectionInfo` event.
    pub fn section_info(&self) -> (r: Option<&SectionInfo>)
        ensures
            match self {
                NetworkEvent::SectionInfo(si) => r == Some(si),
                _ => r is None,
            },
    {
        match self {
            NetworkEvent::SectionInfo(self_si) => Some(self_si),
            _ => None,
        }
    }

    /// Converts the event into an observation for the consensus engine. A
    /// node coming online becomes a vote to add it, with its authority
    /// serialised alongside; a node going offline becomes a vote to remove
    /// it; every other event travels as an opaque payload. It fails exactly
    /// where serialising the authority does.
    pub fn into_obs(self) -> (r: Result<Observation, RoutingError>)
        ensures
            match self {
                NetworkEvent::Online(id, auth) => match serialised_words(auth.words()) {
                    Some(bytes) => r matches Ok(Observation::Add { peer_id, related_info })
                        && peer_id == id && related_info@ == bytes,
                    None => r == Err::<Observation, RoutingError>(RoutingError::Serialisation),
                },
                NetworkEvent::Offline(id) => r matches Ok(
                    Observation::Remove { peer_id, related_info },
                ) && peer_id == id && related_info@.len() == 0,
                _ => r matches Ok(Observation::OpaquePayload(event)) && event == self,
            },
    {
        match self {
            NetworkEvent::Online(id, auth) => {
                let words = auth.to_words();
                online_observation(id, serialise_words(&words))
            },
            NetworkEvent::Offline(id) => Ok(
                Observation::Remove { peer_id: id, related_info: Vec::new() },
            ),
            event => Ok(Observation::OpaquePayload(event)),
        }
    }

    /// Orders two events by variant, then field by field.
    pub fn compare(&self, other: &NetworkEvent) -> (r: Order)
        ensures
            r == key_order(self@.key(), other@.key()),
    {
        proof {
            reveal_with_fuel(key_order, 4);
        }
        let c = compare_u64(self.rank(), other.rank());
        if c != Order::Equal {
            return c;
        }
        match (self, other) {
            (NetworkEvent::Online(a, p), NetworkEvent::Online(b, q)) => {
                let c = a.compare(b);
                if c != Order::Equal {
                    c
                } else {
                    p.compare(q)
                }
            },
            (NetworkEvent::Offline(a), NetworkEvent::Offline(b)) => a.compare(b),
            (NetworkEvent::NeighbourMerge(a), NetworkEvent::NeighbourMerge(b)) => a.compare(b),
            (NetworkEvent::SectionInfo(a), NetworkEvent::SectionInfo(b)) => a.compare(b),
            (NetworkEvent::ProvingSections(p, a), NetworkEvent::ProvingSections(q, b)) => {
                let c = compare_proving_sections(p, q);
                if c != Order::Equal {
                    c
                } else {
                    a.compare(b)
                }
            },
            _ => Order::Equal,
        }
    }
}

/// The views of a list of events, in order.
pub open spec fn event_views(s: Seq<NetworkEvent>) -> Seq<NetworkEventView> {
    s.map_values(|e: NetworkEvent| e@)
}

/// What a sequence holds once `x` has been put in at position `i`: what it
/// held, and `x`.
proof fn lemma_contains_insert<T>(s: Seq<T>, i: int, x: T, v: T)
    requires
        0 <= i <= s.len(),
    ensures
        s.insert(i, x).contains(v) <==> s.contains(v) || v == x,
{
    let t = s.insert(i, x);
    if t.contains(v) {
        let k = choose|k: int| 0 <= k < t.len() && t[k] == v;
        if k < i {
            assert(s[k] == v);
        } else if k > i {
            assert(s[k - 1] == v);
        }
    }
    if s.contains(v) {
        let k = choose|k: int| 0 <= k < s.len() && s[k] == v;
        if k < i {
            assert(t[k] == v);
        } else {
            assert(t[k + 1] == v);
        }
    }
    if v == x {
        assert(t[i] == v);
    }
}

/// What a sequence held before its last element was taken off: what it
/// holds now, and that element.
proof fn lemma_contains_drop_last<T>(s: Seq<T>, v: T)
    requires
        s.len() > 0,
    ensures
        s.contains(v) <==> s.drop_last().contains(v) || v == s.last(),
{
    let t = s.drop_last();
    if s.contains(v) {
        let k = choose|k: int| 0 <= k < s.len() && s[k] == v;
        if k < t.len() {
            assert(t[k] == v);
        }
    }
    if t.contains(v) {
        let k = choose|k: int| 0 <= k < t.len() && t[k] == v;
        assert(s[k] == v);
    }
    if v == s.last() {
        assert(s[s.len() - 1] == v);
    }
}

/// Puts a set of events into its agreement order: each event once, in
/// strictly increasing order. Whoever holds the same events, in whatever
/// order and however often, gets the same sequence.
pub fn agreement_order(events: Vec<NetworkEvent>) -> (r: Vec<NetworkEvent>)
    ensures
        in_agreement_order(event_views(r@)),
        event_views(r@).to_set() == event_views(events@).to_set(),
{
    let ghost all = event_views(events@);
    let ghost f = event_key();
    let mut events = events;
    let mut out: Vec<NetworkEvent> = Vec::new();
    while events.len() > 0
        invariant
            f == event_key(),
            in_agreement_order(event_views(out@)),
            forall|v: NetworkEventView|
                all.contains(v) <==> event_views(out@).contains(v) || event_views(
                    events@,
                ).contains(v),
        decreases events.len(),
    {
        let ghost rest_before = event_views(events@);
        let ghost out_before = event_views(out@);
        let e = events.pop().unwrap();
        proof {
            assert(event_views(events@) =~= rest_before.drop_last());
            assert(rest_before.last() == e@);
        }
        let mut pos: usize = 0;
        let mut duplicate = false;
        let mut found = false;
        while pos < out.len() && !found
            invariant
                pos <= out.len(),
                out_before == event_views(out@),
                duplicate ==> found,
                found ==> pos < out.len() && event_order(out_before[pos as int], e@)
                    == if duplicate {
                    Order::Equal
                } else {
                    Order::Greater
                },
                forall|j: int| 0 <= j < pos ==> event_order(out_before[j], e@) == Order::Less,
            decreases out.len() - pos + if found { 0int } else { 1int },
        {
            let c = out[pos].compare(&e);
            proof {
                assert(out_before[pos as int] == out@[pos as int]@);
            }
            match c {
                Order::Less => {
                    pos += 1;
                },
                Order::Equal => {
                    duplicate = true;
                    found = true;
                },
                Order::Greater => {
                    found = true;
                },
            }
        }
        if duplicate {
            proof {
                lemma_event_order_equal(out_before[pos as int], e@);
                assert(out_before.contains(e@));
                assert forall|v: NetworkEventView|
                    all.contains(v) <==> event_views(out@).contains(v) || event_views(
                        events@,
                    ).contains(v) by {
                    lemma_contains_drop_last(rest_before, v);
                }
            }
        } else {
            out.insert(pos, e);
            proof {
                let out_after = event_views(out@);
                assert(out_after =~= out_before.insert(pos as int, e@));
                assert forall|a: int, b: int| 0 <= a < b < out_after.len() implies key_order(
                    f(#[trigger] out_after[a]),
                    f(#[trigger] out_after[b]),
                ) == Order::Less by {
                    let p = pos as int;
                    if b < p {
                        assert(out_after[a] == out_before[a] && out_after[b] == out_before[b]);
                    } else if b == p {
                        assert(out_after[a] == out_before[a]);
                        assert(event_order(out_before[a], e@) == Order::Less);
                    } else if a == p {
                        assert(out_after[b] == out_before[b - 1]);
                        lemma_event_order_flip(out_before[p], e@);
                        assert(event_order(e@, out_before[p]) == Order::Less);
                        if b - 1 > p {
                            assert(key_order(f(out_before[p]), f(out_before[b - 1]))
                                == Order::Less);
                            lemma_key_order_transitive(
                                e@.key(),
                                out_before[p].key(),
                                out_before[b - 1].key(),
                            );
                        }
                    } else if a < p {
                        assert(out_after[a] == out_before[a] && out_after[b] == out_before[b - 1]);
                    } else {
                        assert(out_after[a] == out_before[a - 1] && out_after[b] == out_before[b
                            - 1]);
                    }
                }
                assert forall|v: NetworkEventView|
                    all.contains(v) <==> out_after.contains(v) || event_views(events@).contains(
                        v,
                    ) by {
                    lemma_contains_drop_last(rest_before, v);
                    lemma_contains_insert(out_before, pos as int, e@, v);
                }
            }
        }
    }
    proof {
        assert(event_views(events@) =~= Seq::<NetworkEventView>::empty());
        assert forall|v: NetworkEventView| all.contains(v) <==> event_views(out@).contains(v) by {
            if event_views(events@).contains(v) {
                let k = choose|k: int|
                    0 <= k < event_views(events@).len() && event_views(events@)[k] == v;
            }
        }
        assert(event_views(out@).to_set() =~= all.to_set());
    }
    out
}

} // verus!
