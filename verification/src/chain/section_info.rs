//! Section-membership snapshots and the signatures that endorse them.

use crate::id::{PublicId, Signature};
use crate::order::{
    compare_u64, key_order, lemma_key_order_equal, lemma_key_order_transitive,
    lemma_seq_key_injective,
    lemma_seq_key_step, list2, list5, seq_key, strictly_increasing, Key, Order,
};
use crate::xor_name::{Digest256, Prefix, XorName};
use vstd::prelude::*;

verus! {

/// Numerator of the share of members whose endorsement makes a quorum.
pub const QUORUM_NUMERATOR: usize = 2;

/// Denominator of the share of members whose endorsement makes a quorum.
pub const QUORUM_DENOMINATOR: usize = 3;

/// The key of an identity, as a function.
pub open spec fn id_key() -> spec_fn(PublicId) -> Key {
    |id: PublicId| id.key()
}

/// The key of a digest, as a function.
pub open spec fn digest_key() -> spec_fn(Digest256) -> Key {
    |d: Digest256| d.key()
}

/// One member's endorsement: who signed, and the signature.
#[derive(Clone, Copy, Debug, PartialEq, Eq, PartialOrd, Ord, Hash, Structural)]
pub struct Proof {
    pub pub_id: PublicId,
    pub sig: Signature,
}

impl Proof {
    /// Structural content: signer, then signature.
    pub open spec fn key(self) -> Key {
        list2(self.pub_id.key(), self.sig.key())
    }

    /// Orders two endorsements by signer, then by signature.
    pub fn compare(&self, other: &Proof) -> (r: Order)
        ensures
            r == key_order(self.key(), other.key()),
    {
        proof {
            reveal_with_fuel(key_order, 3);
        }
        let c = self.pub_id.compare(&other.pub_id);
        if c != Order::Equal {
            return c;
        }
        self.sig.compare(&other.sig)
    }

    /// Two endorsements with the same key are the same endorsement.
    pub proof fn lemma_key_injective(a: Proof, b: Proof)
        requires
            a.key() == b.key(),
        ensures
            a == b,
    {
        PublicId::lemma_key_injective(a.pub_id, b.pub_id);
        Signature::lemma_key_injective(a.sig, b.sig);
    }
}

/// The key of an endorsement, as a function.
pub open spec fn proof_key() -> spec_fn(Proof) -> Key {
    |p: Proof| p.key()
}

/// The key of an endorsement's signer, as a function.
pub open spec fn signer_key() -> spec_fn(Proof) -> Key {
    |p: Proof| p.pub_id.key()
}

/// The signers of a list of endorsements, in order.
pub open spec fn signers(sigs: Seq<Proof>) -> Seq<PublicId> {
    sigs.map_values(|p: Proof| p.pub_id)
}

/// How many of `signers` are among `members`.
pub open spec fn endorsements(signers: Seq<PublicId>, members: Seq<PublicId>) -> nat
    decreases signers.len(),
{
    if signers.len() == 0 {
        0
    } else {
        endorsements(signers.drop_last(), members) + if members.contains(signers.last()) {
            1nat
        } else {
            0nat
        }
    }
}

/// Where no signer occurs twice, the endorsements are the signers that are
/// members, counted as a set.
pub proof fn lemma_endorsements_as_set(signers: Seq<PublicId>, members: Seq<PublicId>)
    requires
        signers.no_duplicates(),
    ensures
        endorsements(signers, members) == signers.to_set().intersect(members.to_set()).len(),
    decreases signers.len(),
{
    let both = signers.to_set().intersect(members.to_set());
    if signers.len() == 0 {
        assert(both =~= Set::<PublicId>::empty());
    } else {
        let init = signers.drop_last();
        let x = signers.last();
        assert forall|i: int, j: int| 0 <= i < init.len() && 0 <= j < init.len() && i != j implies
            init[i] != init[j] by {
            assert(init[i] == signers[i] && init[j] == signers[j]);
        }
        lemma_endorsements_as_set(init, members);
        let before = init.to_set().intersect(members.to_set());
        vstd::seq_lib::seq_to_set_is_finite(init);
        vstd::set::axiom_set_intersect_finite(init.to_set(), members.to_set());
        assert(!init.contains(x)) by {
            if init.contains(x) {
                let k = choose|k: int| 0 <= k < init.len() && init[k] == x;
                assert(signers[k] == signers[signers.len() - 1]);
            }
        }
        assert forall|y: PublicId| signers.contains(y) <==> (init.contains(y) || y == x) by {
            if signers.contains(y) {
                let k = choose|k: int| 0 <= k < signers.len() && signers[k] == y;
                if k < init.len() {
                    assert(init[k] == y);
                }
            }
            if init.contains(y) {
                let k = choose|k: int| 0 <= k < init.len() && init[k] == y;
                assert(signers[k] == y);
            }
            if y == x {
                assert(signers[signers.len() - 1] == y);
            }
        }
        if members.contains(x) {
            assert(both =~= before.insert(x));
            vstd::set::axiom_set_insert_len(before, x);
        } else {
            assert(both =~= before);
        }
    }
}

/// Whether `id` occurs in `ids`.
pub fn contains_id(ids: &Vec<PublicId>, id: &PublicId) -> (r: bool)
    ensures
        r == ids@.contains(*id),
{
    let mut i: usize = 0;
    while i < ids.len()
        invariant
            i <= ids.len(),
            forall|j: int| 0 <= j < i ==> ids@[j] != *id,
        decreases ids.len() - i,
    {
        if ids[i] == *id {
            return true;
        }
        i += 1;
    }
    false
}

/// Whether `digest` occurs in `digests`.
pub fn contains_digest(digests: &Vec<Digest256>, digest: &Digest256) -> (r: bool)
    ensures
        r == digests@.contains(*digest),
{
    let mut i: usize = 0;
    while i < digests.len()
        invariant
            i <= digests.len(),
            forall|j: int| 0 <= j < i ==> digests@[j] != *digest,
        decreases digests.len() - i,
    {
        if digests[i] == *digest {
            return true;
        }
        i += 1;
    }
    false
}

/// Whether the identities are in strictly increasing order.
pub fn ids_strictly_increasing(ids: &Vec<PublicId>) -> (r: bool)
    ensures
        r == strictly_increasing(ids@, id_key()),
{
    if ids.len() < 2 {
        return true;
    }
    let mut i: usize = 1;
    while i < ids.len()
        invariant
            1 <= i <= ids.len(),
            strictly_increasing(ids@.take(i as int), id_key()),
        decreases ids.len() - i,
    {
        let c = ids[i - 1].compare(&ids[i]);
        if c != Order::Less {
            return false;
        }
        proof {
            let f = id_key();
            let s = ids@.take(i as int + 1);
            assert forall|a: int, b: int| 0 <= a < b < s.len() implies key_order(
                f(#[trigger] s[a]),
                f(#[trigger] s[b]),
            ) == Order::Less by {
                let t = ids@.take(i as int);
                if b < i {
                    assert(t[a] == s[a] && t[b] == s[b]);
                } else if a < i - 1 {
                    assert(t[a] == s[a] && t[i - 1] == s[i - 1]);
                    lemma_key_order_transitive(f(s[a]), f(s[i - 1]), f(s[b]));
                }
            }
        }
        i += 1;
    }
    proof {
        assert(ids@.take(i as int) =~= ids@);
    }
    true
}

/// Whether the digests are in strictly increasing order.
pub fn digests_strictly_increasing(digests: &Vec<Digest256>) -> (r: bool)
    ensures
        r == strictly_increasing(digests@, digest_key()),
{
    if digests.len() < 2 {
        return true;
    }
    let mut i: usize = 1;
    while i < digests.len()
        invariant
            1 <= i <= digests.len(),
            strictly_increasing(digests@.take(i as int), digest_key()),
        decreases digests.len() - i,
    {
        let c = digests[i - 1].compare(&digests[i]);
        if c != Order::Less {
            return false;
        }
        proof {
            let f = digest_key();
            let s = digests@.take(i as int + 1);
            assert forall|a: int, b: int| 0 <= a < b < s.len() implies key_order(
                f(#[trigger] s[a]),
                f(#[trigger] s[b]),
            ) == Order::Less by {
                let t = digests@.take(i as int);
                if b < i {
                    assert(t[a] == s[a] && t[b] == s[b]);
                } else if a < i - 1 {
                    assert(t[a] == s[a] && t[i - 1] == s[i - 1]);
                    lemma_key_order_transitive(f(s[a]), f(s[i - 1]), f(s[b]));
                }
            }
        }
        i += 1;
    }
    proof {
        assert(digests@.take(i as int) =~= digests@);
    }
    true
}

/// Whether the endorsements are in strictly increasing order of signer.
pub fn signers_strictly_increasing(sigs: &Vec<Proof>) -> (r: bool)
    ensures
        r == strictly_increasing(sigs@, signer_key()),
{
    if sigs.len() < 2 {
        return true;
    }
    let mut i: usize = 1;
    while i < sigs.len()
        invariant
            1 <= i <= sigs.len(),
            strictly_increasing(sigs@.take(i as int), signer_key()),
        decreases sigs.len() - i,
    {
        let c = sigs[i - 1].pub_id.compare(&sigs[i].pub_id);
        if c != Order::Less {
            return false;
        }
        proof {
            let f = signer_key();
            let s = sigs@.take(i as int + 1);
            assert forall|a: int, b: int| 0 <= a < b < s.len() implies key_order(
                f(#[trigger] s[a]),
                f(#[trigger] s[b]),
            ) == Order::Less by {
                let t = sigs@.take(i as int);
                if b < i {
                    assert(t[a] == s[a] && t[b] == s[b]);
                } else if a < i - 1 {
                    assert(t[a] == s[a] && t[i - 1] == s[i - 1]);
                    lemma_key_order_transitive(f(s[a]), f(s[i - 1]), f(s[b]));
                }
            }
        }
        i += 1;
    }
    proof {
        assert(sigs@.take(i as int) =~= sigs@);
    }
    true
}

/// Orders two lists of identities element by element.
pub fn compare_ids(a: &Vec<PublicId>, b: &Vec<PublicId>) -> (r: Order)
    ensures
        r == key_order(seq_key(a@, id_key()), seq_key(b@, id_key())),
{
    let ghost f = id_key();
    let mut i: usize = 0;
    proof {
        assert(a@.skip(0) =~= a@);
        assert(b@.skip(0) =~= b@);
    }
    while i < a.len() && i < b.len()
        invariant
            i <= a.len(),
            i <= b.len(),
            f == id_key(),
            key_order(seq_key(a@, f), seq_key(b@, f)) == key_order(
                seq_key(a@.skip(i as int), f),
                seq_key(b@.skip(i as int), f),
            ),
        decreases a.len() - i,
    {
        proof {
            lemma_seq_key_step(a@, f, i as int);
            lemma_seq_key_step(b@, f, i as int);
        }
        let c = a[i].compare(&b[i]);
        if c != Order::Equal {
            return c;
        }
        i += 1;
    }
    proof {
        if i < a.len() {
            lemma_seq_key_step(a@, f, i as int);
        }
        if i < b.len() {
            lemma_seq_key_step(b@, f, i as int);
        }
    }
    if a.len() == b.len() {
        Order::Equal
    } else if i == a.len() {
        Order::Less
    } else {
        Order::Greater
    }
}

/// Orders two lists of digests element by element.
pub fn compare_digests(a: &Vec<Digest256>, b: &Vec<Digest256>) -> (r: Order)
    ensures
        r == key_order(seq_key(a@, digest_key()), seq_key(b@, digest_key())),
{
    let ghost f = digest_key();
    let mut i: usize = 0;
    proof {
        assert(a@.skip(0) =~= a@);
        assert(b@.skip(0) =~= b@);
    }
    while i < a.len() && i < b.len()
        invariant
            i <= a.len(),
            i <= b.len(),
            f == digest_key(),
            key_order(seq_key(a@, f), seq_key(b@, f)) == key_order(
                seq_key(a@.skip(i as int), f),
                seq_key(b@.skip(i as int), f),
            ),
        decreases a.len() - i,
    {
        proof {
            lemma_seq_key_step(a@, f, i as int);
            lemma_seq_key_step(b@, f, i as int);
        }
        let c = a[i].compare(&b[i]);
        if c != Order::Equal {
            return c;
        }
        i += 1;
    }
    proof {
        if i < a.len() {
            lemma_seq_key_step(a@, f, i as int);
        }
        if i < b.len() {
            lemma_seq_key_step(b@, f, i as int);
        }
    }
    if a.len() == b.len() {
        Order::Equal
    } else if i == a.len() {
        Order::Less
    } else {
        Order::Greater
    }
}

/// Orders two lists of endorsements element by element.
pub fn compare_proofs(a: &Vec<Proof>, b: &Vec<Proof>) -> (r: Order)
    ensures
        r == key_order(seq_key(a@, proof_key()), seq_key(b@, proof_key())),
{
    let ghost f = proof_key();
    let mut i: usize = 0;
    proof {
        assert(a@.skip(0) =~= a@);
        assert(b@.skip(0) =~= b@);
    }
    while i < a.len() && i < b.len()
        invariant
            i <= a.len(),
            i <= b.len(),
            f == proof_key(),
            key_order(seq_key(a@, f), seq_key(b@, f)) == key_order(
                seq_key(a@.skip(i as int), f),
                seq_key(b@.skip(i as int), f),
            ),
        decreases a.len() - i,
    {
        proof {
            lemma_seq_key_step(a@, f, i as int);
            lemma_seq_key_step(b@, f, i as int);
        }
        let c = a[i].compare(&b[i]);
        if c != Order::Equal {
            return c;
        }
        i += 1;
    }
    proof {
        if i < a.len() {
            lemma_seq_key_step(a@, f, i as int);
        }
        if i < b.len() {
            lemma_seq_key_step(b@, f, i as int);
        }
    }
    if a.len() == b.len() {
        Order::Equal
    } else if i == a.len() {
        Order::Less
    } else {
        Order::Greater
    }
}

/// A copy of a list of identities.
pub fn clone_ids(ids: &Vec<PublicId>) -> (r: Vec<PublicId>)
    ensures
        r@ == ids@,
{
    let mut out: Vec<PublicId> = Vec::new();
    let mut i: usize = 0;
    while i < ids.len()
        invariant
            i <= ids.len(),
            out@ == ids@.take(i as int),
        decreases ids.len() - i,
    {
        out.push(ids[i]);
        proof {
            assert(out@ =~= ids@.take(i as int + 1));
        }
        i += 1;
    }
    proof {
        assert(ids@.take(i as int) =~= ids@);
    }
    out
}

/// A copy of a list of digests.
pub fn clone_digests(digests: &Vec<Digest256>) -> (r: Vec<Digest256>)
    ensures
        r@ == digests@,
{
    let mut out: Vec<Digest256> = Vec::new();
    let mut i: usize = 0;
    while i < digests.len()
        invariant
            i <= digests.len(),
            out@ == digests@.take(i as int),
        decreases digests.len() - i,
    {
        out.push(digests[i]);
        proof {
            assert(out@ =~= digests@.take(i as int + 1));
        }
        i += 1;
    }
    proof {
        assert(digests@.take(i as int) =~= digests@);
    }
    out
}

/// A copy of a list of endorsements.
pub fn clone_proofs(sigs: &Vec<Proof>) -> (r: Vec<Proof>)
    ensures
        r@ == sigs@,
{
    let mut out: Vec<Proof> = Vec::new();
    let mut i: usize = 0;
    while i < sigs.len()
        invariant
            i <= sigs.len(),
            out@ == sigs@.take(i as int),
        decreases sigs.len() - i,
    {
        out.push(sigs[i]);
        proof {
            assert(out@ =~= sigs@.take(i as int + 1));
        }
        i += 1;
    }
    proof {
        assert(sigs@.take(i as int) =~= sigs@);
    }
    out
}

/// A set of endorsements, at most one per signer, kept in order of signer.
#[derive(Debug, PartialEq, Eq, PartialOrd, Ord, Hash)]
pub struct ProofSet {
    sigs: Vec<Proof>,
}

impl View for ProofSet {
    type V = Seq<Proof>;

    closed spec fn view(&self) -> Seq<Proof> {
        self.sigs@
    }
}

impl Clone for ProofSet {
    fn clone(&self) -> (r: ProofSet)
        ensures
            r@ == self@,
    {
        proof {
            use_type_invariant(self);
        }
        ProofSet { sigs: clone_proofs(&self.sigs) }
    }
}

impl ProofSet {
    #[verifier::type_invariant]
    closed spec fn inv(self) -> bool {
        strictly_increasing(self.sigs@, signer_key())
    }

    /// Structural content of a set of endorsements.
    pub open spec fn key_of(sigs: Seq<Proof>) -> Key {
        seq_key(sigs, proof_key())
    }

    /// The empty set.
    pub fn new() -> (r: ProofSet)
        ensures
            r@ == Seq::<Proof>::empty(),
    {
        ProofSet { sigs: Vec::new() }
    }

    /// The set that holds `sigs`, which must come in strictly increasing
    /// order of signer; `None` otherwise.
    pub fn from_proofs(sigs: Vec<Proof>) -> (r: Option<ProofSet>)
        ensures
            r is Some <==> strictly_increasing(sigs@, signer_key()),
            r matches Some(set) ==> set@ == sigs@,
    {
        if signers_strictly_increasing(&sigs) {
            Some(ProofSet { sigs })
        } else {
            None
        }
    }

    /// The endorsements, in order of signer.
    pub fn proofs(&self) -> (r: &Vec<Proof>)
        ensures
            r@ == self@,
            strictly_increasing(self@, signer_key()),
    {
        proof {
            use_type_invariant(self);
        }
        &self.sigs
    }

    /// Orders two sets by their endorsements, in order of signer.
    pub fn compare(&self, other: &ProofSet) -> (r: Order)
        ensures
            r == key_order(ProofSet::key_of(self@), ProofSet::key_of(other@)),
    {
        compare_proofs(&self.sigs, &other.sigs)
    }

    /// Two sets with the same key hold the same endorsements.
    pub proof fn lemma_key_injective(a: Seq<Proof>, b: Seq<Proof>)
        requires
            ProofSet::key_of(a) == ProofSet::key_of(b),
        ensures
            a == b,
    {
        let f = proof_key();
        assert forall|x: Proof, y: Proof| #[trigger] f(x) == #[trigger] f(y) implies x == y by {
            Proof::lemma_key_injective(x, y);
        }
        lemma_seq_key_injective(a, b, f);
    }
}

/// What a membership snapshot is: who belongs to the section, the
/// snapshot's generation, the section's prefix, the digests of the snapshots
/// it succeeds, and its own digest.
pub struct SectionInfoView {
    pub members: Seq<PublicId>,
    pub version: u64,
    pub prefix: Prefix,
    pub prev_hash: Seq<Digest256>,
    pub hash: Digest256,
}

impl SectionInfoView {
    /// Structural content: the five fields in order.
    pub open spec fn key(self) -> Key {
        list5(
            seq_key(self.members, id_key()),
            Key::Num(self.version as int),
            self.prefix.key(),
            seq_key(self.prev_hash, digest_key()),
            self.hash.key(),
        )
    }

    /// Members and predecessor digests are sets, held in increasing order.
    pub open spec fn wf(self) -> bool {
        &&& strictly_increasing(self.members, id_key())
        &&& strictly_increasing(self.prev_hash, digest_key())
    }

    /// Whether the signers of `proofs` that are members of this section are
    /// more than two thirds of its members.
    pub open spec fn is_quorum(self, proofs: Seq<Proof>) -> bool {
        endorsements(signers(proofs), self.members) * QUORUM_DENOMINATOR > self.members.len()
            * QUORUM_NUMERATOR
    }

    /// Whether this snapshot chains from `other`: it is of a later
    /// generation, and its predecessor digests include the digest of
    /// `other`.
    pub open spec fn is_successor_of(self, other: SectionInfoView) -> bool {
        self.version > other.version && self.prev_hash.contains(other.hash)
    }

    /// Whether `proofs` show `their` to be a valid successor of this
    /// snapshot: a quorum of this section has signed, and `their` chains from
    /// this snapshot.
    pub open spec fn proves_successor(self, their: SectionInfoView, proofs: Seq<Proof>) -> bool {
        self.is_quorum(proofs) && their.is_successor_of(self)
    }

    /// Two snapshots with the same key are the same snapshot.
    pub proof fn lemma_key_injective(a: SectionInfoView, b: SectionInfoView)
        requires
            a.key() == b.key(),
        ensures
            a == b,
    {
        let f = id_key();
        assert forall|x: PublicId, y: PublicId| #[trigger] f(x) == #[trigger] f(y) implies x
            == y by {
            PublicId::lemma_key_injective(x, y);
        }
        lemma_seq_key_injective(a.members, b.members, f);
        let g = digest_key();
        assert forall|x: Digest256, y: Digest256| #[trigger] g(x) == #[trigger] g(y) implies x
            == y by {
            XorName::lemma_key_injective(x, y);
        }
        lemma_seq_key_injective(a.prev_hash, b.prev_hash, g);
        Prefix::lemma_key_injective(a.prefix, b.prefix);
        XorName::lemma_key_injective(a.hash, b.hash);
    }
}

/// A quorum, told in sets: of the members of the section, more than two
/// thirds are among the signers.
pub proof fn lemma_quorum_as_sets(si: SectionInfoView, proofs: Seq<Proof>)
    requires
        si.wf(),
        strictly_increasing(proofs, signer_key()),
    ensures
        si.is_quorum(proofs) <==> signers(proofs).to_set().intersect(si.members.to_set()).len()
            * 3 > si.members.to_set().len() * 2,
{
    let ids = signers(proofs);
    assert forall|i: int, j: int| 0 <= i < ids.len() && 0 <= j < ids.len() && i != j implies ids[i]
        != ids[j] by {
        lemma_key_order_equal(ids[i].key(), ids[j].key());
        if i < j {
            assert(key_order(signer_key()(proofs[i]), signer_key()(proofs[j])) == Order::Less);
        } else {
            assert(key_order(signer_key()(proofs[j]), signer_key()(proofs[i])) == Order::Less);
        }
    }
    lemma_endorsements_as_set(ids, si.members);
    let members = si.members;
    assert forall|i: int, j: int|
        0 <= i < members.len() && 0 <= j < members.len() && i != j implies members[i]
        != members[j] by {
        lemma_key_order_equal(members[i].key(), members[j].key());
        if i < j {
            assert(key_order(id_key()(members[i]), id_key()(members[j])) == Order::Less);
        } else {
            assert(key_order(id_key()(members[j]), id_key()(members[i])) == Order::Less);
        }
    }
    members.unique_seq_to_set();
}

/// An agreed snapshot of a section's membership. Immutable once made.
#[derive(Debug, PartialEq, Eq, PartialOrd, Ord, Hash)]
pub struct SectionInfo {
    members: Vec<PublicId>,
    version: u64,
    prefix: Prefix,
    prev_hash: Vec<Digest256>,
    hash: Digest256,
}

impl View for SectionInfo {
    type V = SectionInfoView;

    closed spec fn view(&self) -> SectionInfoView {
        SectionInfoView {
            members: self.members@,
            version: self.version,
            prefix: self.prefix,
            prev_hash: self.prev_hash@,
            hash: self.hash,
        }
    }
}

impl Clone for SectionInfo {
    fn clone(&self) -> (r: SectionInfo)
        ensures
            r@ == self@,
    {
        proof {
            use_type_invariant(self);
        }
        SectionInfo {
            members: clone_ids(&self.members),
            version: self.version,
            prefix: self.prefix,
            prev_hash: clone_digests(&self.prev_hash),
            hash: self.hash,
        }
    }
}

impl SectionInfo {
    #[verifier::type_invariant]
    closed spec fn inv(self) -> bool {
        self@.wf()
    }

    /// The snapshot with the given content. Members and predecessor
    /// digests must each come in strictly increasing order; `None` otherwise.
    pub fn new(
        members: Vec<PublicId>,
        version: u64,
        prefix: Prefix,
        prev_hash: Vec<Digest256>,
        hash: Digest256,
    ) -> (r: Option<SectionInfo>)
        ensures
            r is Some <==> strictly_increasing(members@, id_key()) && strictly_increasing(
                prev_hash@,
                digest_key(),
            ),
            r matches Some(si) ==> si@ == (SectionInfoView {
                members: members@,
                version,
                prefix,
                prev_hash: prev_hash@,
                hash,
            }),
    {
        if ids_strictly_increasing(&members) && digests_strictly_increasing(&prev_hash) {
            Some(SectionInfo { members, version, prefix, prev_hash, hash })
        } else {
            None
        }
    }

    /// The members, in increasing order.
    pub fn members(&self) -> (r: &Vec<PublicId>)
        ensures
            r@ == self@.members,
            self@.wf(),
    {
        proof {
            use_type_invariant(self);
        }
        &self.members
    }

    /// The generation of this snapshot.
    pub fn version(&self) -> (r: u64)
        ensures
            r == self@.version,
    {
        self.version
    }

    /// The section's prefix.
    pub fn prefix(&self) -> (r: &Prefix)
        ensures
            *r == self@.prefix,
    {
        &self.prefix
    }

    /// The digests of the snapshots this one succeeds, in increasing order.
    pub fn prev_hash(&self) -> (r: &Vec<Digest256>)
        ensures
            r@ == self@.prev_hash,
    {
        &self.prev_hash
    }

    /// The digest of this snapshot.
    pub fn hash(&self) -> (r: &Digest256)
        ensures
            *r == self@.hash,
    {
        &self.hash
    }

    /// Whether the signers of `proofs` make a quorum of this section.
    pub fn is_quorum(&self, proofs: &ProofSet) -> (r: bool)
        ensures
            r == self@.is_quorum(proofs@),
    {
        let sigs = proofs.proofs();
        let ghost ids = signers(sigs@);
        let mut count: usize = 0;
        let mut i: usize = 0;
        while i < sigs.len()
            invariant
                i <= sigs.len(),
                ids == signers(sigs@),
                sigs@ == proofs@,
                count <= i,
                count == endorsements(ids.take(i as int), self@.members),
            decreases sigs.len() - i,
        {
            proof {
                assert(ids.take(i as int + 1).drop_last() =~= ids.take(i as int));
                assert(ids.take(i as int + 1).last() == sigs@[i as int].pub_id);
            }
            if contains_id(&self.members, &sigs[i].pub_id) {
                count += 1;
            }
            i += 1;
        }
        proof {
            assert(ids.take(i as int) =~= ids);
        }
        (count as u128) * (QUORUM_DENOMINATOR as u128) > (self.members.len() as u128) * (
        QUORUM_NUMERATOR as u128)
    }

    /// Whether this snapshot chains from `other`.
    pub fn is_successor_of(&self, other: &SectionInfo) -> (r: bool)
        ensures
            r == self@.is_successor_of(other@),
    {
        self.version > other.version && contains_digest(&self.prev_hash, &other.hash)
    }

    /// Whether `proofs` show `their_si` to be a valid successor of this
    /// snapshot.
    pub fn proves_successor(&self, their_si: &SectionInfo, proofs: &ProofSet) -> (r: bool)
        ensures
            r == self@.proves_successor(their_si@, proofs@),
    {
        self.is_quorum(proofs) && their_si.is_successor_of(self)
    }

    /// Orders two snapshots field by field.
    pub fn compare(&self, other: &SectionInfo) -> (r: Order)
        ensures
            r == key_order(self@.key(), other@.key()),
    {
        proof {
            reveal_with_fuel(key_order, 6);
        }
        let c0 = compare_ids(&self.members, &other.members);
        if c0 != Order::Equal {
            return c0;
        }
        let c1 = compare_u64(self.version, other.version);
        if c1 != Order::Equal {
            return c1;
        }
        let c2 = self.prefix.compare(&other.prefix);
        if c2 != Order::Equal {
            return c2;
        }
        let c3 = compare_digests(&self.prev_hash, &other.prev_hash);
        if c3 != Order::Equal {
            return c3;
        }
        self.hash.compare(&other.hash)
    }
}

/// The snapshots a newly approved node starts from: the section's first
/// snapshot and its latest.
#[derive(Debug, PartialEq, Eq)]
pub struct GenesisPfxInfo {
    pub first_info: SectionInfo,
    pub latest_info: SectionInfo,
}

/// What a genesis record is.
pub struct GenesisPfxInfoView {
    pub first_info: SectionInfoView,
    pub latest_info: SectionInfoView,
}

impl View for GenesisPfxInfo {
    type V = GenesisPfxInfoView;

    open spec fn view(&self) -> GenesisPfxInfoView {
        GenesisPfxInfoView { first_info: self.first_info@, latest_info: self.latest_info@ }
    }
}

impl Clone for GenesisPfxInfo {
    fn clone(&self) -> (r: GenesisPfxInfo)
        ensures
            r@ == self@,
    {
        GenesisPfxInfo {
            first_info: self.first_info.clone(),
            latest_info: self.latest_info.clone(),
        }
    }
}

} // verus!
