//! Authorities: the abstract sources and destinations of routing messages.

use crate::id::PublicId;
use crate::order::{compare_u64, key_order, list2, Key, Order};
use crate::xor_name::{Prefix, XorName};
use vstd::prelude::*;

verus! {

/// A routing target: a group of nodes close to a name, a whole section, a
/// single node, or a single client behind its proxy.
#[derive(Clone, Copy, Debug, PartialEq, Eq, PartialOrd, Ord, Hash, Structural)]
pub enum Authority {
    /// Manager of a client, close to the client's name.
    ClientManager(XorName),
    /// Manager of network-addressable data, close to the data's name.
    NaeManager(XorName),
    /// Manager of a node, close to the node's name.
    NodeManager(XorName),
    /// The section that holds the name.
    Section(XorName),
    /// Every section whose prefix is compatible with the given one.
    PrefixSection(Prefix),
    /// A single node.
    ManagedNode(XorName),
    /// A single client, reached through its proxy node.
    Client { client_id: PublicId, proxy_node_name: XorName },
}

impl Authority {
    /// Position of the variant in the declaration.
    pub open spec fn rank_spec(self) -> u64 {
        match self {
            Authority::ClientManager(_) => 0,
            Authority::NaeManager(_) => 1,
            Authority::NodeManager(_) => 2,
            Authority::Section(_) => 3,
            Authority::PrefixSection(_) => 4,
            Authority::ManagedNode(_) => 5,
            Authority::Client { .. } => 6,
        }
    }

    /// Structural content of the variant's fields.
    pub open spec fn fields_key(self) -> Key {
        match self {
            Authority::ClientManager(n) => n.key(),
            Authority::NaeManager(n) => n.key(),
            Authority::NodeManager(n) => n.key(),
            Authority::Section(n) => n.key(),
            Authority::PrefixSection(p) => p.key(),
            Authority::ManagedNode(n) => n.key(),
            Authority::Client { client_id, proxy_node_name } => list2(
                client_id.key(),
                proxy_node_name.key(),
            ),
        }
    }

    /// Structural content: the variant's rank, then its fields.
    pub open spec fn key(self) -> Key {
        list2(Key::Num(self.rank_spec() as int), self.fields_key())
    }

    /// Whether this is a single client.
    pub open spec fn is_client_spec(self) -> bool {
        self is Client
    }

    /// The authority as words: the variant's rank, then its fields in order.
    pub open spec fn words(self) -> Seq<u64> {
        match self {
            Authority::ClientManager(n) => seq![0u64] + n.words(),
            Authority::NaeManager(n) => seq![1u64] + n.words(),
            Authority::NodeManager(n) => seq![2u64] + n.words(),
            Authority::Section(n) => seq![3u64] + n.words(),
            Authority::PrefixSection(p) => seq![4u64, p.bit_count as u64] + p.name.words(),
            Authority::ManagedNode(n) => seq![5u64] + n.words(),
            Authority::Client { client_id, proxy_node_name } => seq![6u64] + client_id.words()
                + proxy_node_name.words(),
        }
    }

    /// Position of the variant in the declaration.
    pub fn rank(&self) -> (r: u64)
        ensures
            r == self.rank_spec(),
    {
        match self {
            Authority::ClientManager(_) => 0,
            Authority::NaeManager(_) => 1,
            Authority::NodeManager(_) => 2,
            Authority::Section(_) => 3,
            Authority::PrefixSection(_) => 4,
            Authority::ManagedNode(_) => 5,
            Authority::Client { .. } => 6,
        }
    }

    /// Whether this is a single client.
    pub fn is_client(&self) -> (r: bool)
        ensures
            r == self.is_client_spec(),
    {
        match self {
            Authority::Client { .. } => true,
            _ => false,
        }
    }

    /// The authority as words: the variant's rank, then its fields in order.
    pub fn to_words(&self) -> (r: Vec<u64>)
        ensures
            r@ == self.words(),
    {
        let mut out: Vec<u64> = Vec::new();
        out.push(self.rank());
        match self {
            Authority::ClientManager(n) => n.push_words(&mut out),
            Authority::NaeManager(n) => n.push_words(&mut out),
            Authority::NodeManager(n) => n.push_words(&mut out),
            Authority::Section(n) => n.push_words(&mut out),
            Authority::PrefixSection(p) => {
                out.push(p.bit_count as u64);
                p.name.push_words(&mut out);
            },
            Authority::ManagedNode(n) => n.push_words(&mut out),
            Authority::Client { client_id, proxy_node_name } => {
                client_id.push_words(&mut out);
                proxy_node_name.push_words(&mut out);
            },
        }
        proof {
            assert(out@ =~= self.words());
        }
        out
    }

    /// Orders two authorities by variant, then by their fields.
    pub fn compare(&self, other: &Authority) -> (r: Order)
        ensures
            r == key_order(self.key(), other.key()),
    {
        proof {
            reveal_with_fuel(key_order, 4);
        }
        let c = compare_u64(self.rank(), other.rank());
        if c != Order::Equal {
            return c;
        }
        match (self, other) {
            (Authority::ClientManager(a), Authority::ClientManager(b)) => a.compare(b),
            (Authority::NaeManager(a), Authority::NaeManager(b)) => a.compare(b),
            (Authority::NodeManager(a), Authority::NodeManager(b)) => a.compare(b),
            (Authority::Section(a), Authority::Section(b)) => a.compare(b),
            (Authority::PrefixSection(a), Authority::PrefixSection(b)) => a.compare(b),
            (Authority::ManagedNode(a), Authority::ManagedNode(b)) => a.compare(b),
            (
                Authority::Client { client_id: a, proxy_node_name: p },
                Authority::Client { client_id: b, proxy_node_name: q },
            ) => {
                let c = a.compare(b);
                if c != Order::Equal {
                    c
                } else {
                    p.compare(q)
                }
            },
            _ => Order::Equal,
        }
    }

    /// Two authorities with the same key are the same authority.
    pub proof fn lemma_key_injective(a: Authority, b: Authority)
        requires
            a.key() == b.key(),
        ensures
            a == b,
    {
        match (a, b) {
            (Authority::ClientManager(x), Authority::ClientManager(y)) => {
                XorName::lemma_key_injective(x, y);
            },
            (Authority::NaeManager(x), Authority::NaeManager(y)) => {
                XorName::lemma_key_injective(x, y);
            },
            (Authority::NodeManager(x), Authority::NodeManager(y)) => {
                XorName::lemma_key_injective(x, y);
            },
            (Authority::Section(x), Authority::Section(y)) => {
                XorName::lemma_key_injective(x, y);
            },
            (Authority::PrefixSection(x), Authority::PrefixSection(y)) => {
                Prefix::lemma_key_injective(x, y);
            },
            (Authority::ManagedNode(x), Authority::ManagedNode(y)) => {
                XorName::lemma_key_injective(x, y);
            },
            (
                Authority::Client { client_id: x, proxy_node_name: p },
                Authority::Client { client_id: y, proxy_node_name: q },
            ) => {
                PublicId::lemma_key_injective(x, y);
                XorName::lemma_key_injective(p, q);
            },
            _ => {},
        }
    }
}

} // verus!
