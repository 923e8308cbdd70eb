//! Network identities and the signatures made with them.

use crate::order::{key_order, list2, list3, Key, Order};
use crate::xor_name::XorName;
use vstd::prelude::*;

verus! {

/// The public half of an identity: its address and its two public keys.
#[derive(Clone, Copy, Debug, PartialEq, Eq, PartialOrd, Ord, Hash, Structural)]
pub struct PublicId {
    pub name: XorName,
    pub sign_key: XorName,
    pub encrypt_key: XorName,
}

impl PublicId {
    /// Structural content: name, signing key, encryption key.
    pub open spec fn key(self) -> Key {
        list3(self.name.key(), self.sign_key.key(), self.encrypt_key.key())
    }

    /// The identity as twelve words: name, signing key, encryption key.
    pub open spec fn words(self) -> Seq<u64> {
        self.name.words() + self.sign_key.words() + self.encrypt_key.words()
    }

    /// The address of this identity.
    pub fn name(&self) -> (r: &XorName)
        ensures
            *r == self.name,
    {
        &self.name
    }

    /// Appends the twelve words to `out`.
    pub fn push_words(&self, out: &mut Vec<u64>)
        ensures
            final(out)@ == old(out)@ + self.words(),
    {
        self.name.push_words(out);
        self.sign_key.push_words(out);
        self.encrypt_key.push_words(out);
        proof {
            assert(out@ =~= old(out)@ + self.words());
        }
    }

    /// Orders two identities by name, then signing key, then encryption key.
    pub fn compare(&self, other: &PublicId) -> (r: Order)
        ensures
            r == key_order(self.key(), other.key()),
    {
        proof {
            reveal_with_fuel(key_order, 4);
        }
        let c0 = self.name.compare(&other.name);
        if c0 != Order::Equal {
            return c0;
        }
        let c1 = self.sign_key.compare(&other.sign_key);
        if c1 != Order::Equal {
            return c1;
        }
        self.encrypt_key.compare(&other.encrypt_key)
    }

    /// Two identities with the same key are the same identity.
    pub proof fn lemma_key_injective(a: PublicId, b: PublicId)
        requires
            a.key() == b.key(),
        ensures
            a == b,
    {
        XorName::lemma_key_injective(a.name, b.name);
        XorName::lemma_key_injective(a.sign_key, b.sign_key);
        XorName::lemma_key_injective(a.encrypt_key, b.encrypt_key);
    }
}

/// An identity this node owns. Its secret keys stay with the signing
/// service; the state machines only ever need the public half.
#[derive(Clone, Copy, Debug, PartialEq, Eq, Structural)]
pub struct FullId {
    pub public_id: PublicId,
}

impl FullId {
    /// The identity whose public half is `public_id`.
    pub fn new(public_id: PublicId) -> (r: FullId)
        ensures
            r.public_id == public_id,
    {
        FullId { public_id }
    }

    /// The public half.
    pub fn public_id(&self) -> (r: &PublicId)
        ensures
            *r == self.public_id,
    {
        &self.public_id
    }
}

/// A detached 512-bit signature, as two 256-bit halves.
#[derive(Clone, Copy, Debug, PartialEq, Eq, PartialOrd, Ord, Hash, Structural)]
pub struct Signature {
    pub r: XorName,
    pub s: XorName,
}

impl Signature {
    /// Structural content: the two halves.
    pub open spec fn key(self) -> Key {
        list2(self.r.key(), self.s.key())
    }

    /// The signature as 64 bytes.
    pub open spec fn bytes(self) -> Seq<u8> {
        self.r.bytes() + self.s.bytes()
    }

    /// The signature as 64 bytes.
    pub fn to_bytes(&self) -> (r: Vec<u8>)
        ensures
            r@ == self.bytes(),
    {
        let mut out: Vec<u8> = Vec::new();
        self.r.push_bytes(&mut out);
        self.s.push_bytes(&mut out);
        proof {
            assert(out@ =~= self.bytes());
        }
        out
    }

    /// Orders two signatures half by half.
    pub fn compare(&self, other: &Signature) -> (r: Order)
        ensures
            r == key_order(self.key(), other.key()),
    {
        proof {
            reveal_with_fuel(key_order, 3);
        }
        let c = self.r.compare(&other.r);
        if c != Order::Equal {
            return c;
        }
        self.s.compare(&other.s)
    }

    /// Two signatures with the same key are the same signature.
    pub proof fn lemma_key_injective(a: Signature, b: Signature)
        requires
            a.key() == b.key(),
        ensures
            a == b,
    {
        XorName::lemma_key_injective(a.r, b.r);
        XorName::lemma_key_injective(a.s, b.s);
    }
}

/// What the new identity signs in the handshake of a relocated node: the
/// serialised pair of identities, followed by the signature that the old
/// identity made over that pair.
pub fn layered_payload(payload: &Vec<u8>, signature_using_old: &Signature) -> (r: Vec<u8>)
    ensures
        r@ == payload@ + signature_using_old.bytes(),
{
    let mut out: Vec<u8> = Vec::new();
    let mut i: usize = 0;
    while i < payload.len()
        invariant
            i <= payload.len(),
            out@ == payload@.take(i as int),
        decreases payload.len() - i,
    {
        out.push(payload[i]);
        proof {
            assert(out@ =~= payload@.take(i as int + 1));
        }
        i += 1;
    }
    proof {
        assert(payload@.take(i as int) =~= payload@);
    }
    signature_using_old.r.push_bytes(&mut out);
    signature_using_old.s.push_bytes(&mut out);
    proof {
        assert(out@ =~= payload@ + signature_using_old.bytes());
    }
    out
}

} // verus!
