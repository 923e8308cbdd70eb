//! Recognises routing messages that have come in before.

use vstd::prelude::*;

verus! {

/// What the filter knows of a message.
#[derive(Clone, Copy, Debug, PartialEq, Eq, Structural)]
pub enum FilteringResult {
    /// The message has not come in before.
    NewMessage,
    /// The message has come in before.
    KnownMessage,
}

/// Remembers the digest of every routing message that has come in.
#[derive(Debug)]
pub struct RoutingMessageFilter {
    incoming: Vec<u64>,
}

impl View for RoutingMessageFilter {
    type V = Set<u64>;

    closed spec fn view(&self) -> Set<u64> {
        self.incoming@.to_set()
    }
}

impl RoutingMessageFilter {
    /// A filter that has seen nothing.
    pub fn new() -> (r: RoutingMessageFilter)
        ensures
            r@ == Set::<u64>::empty(),
    {
        let r = RoutingMessageFilter { incoming: Vec::new() };
        proof {
            assert(r@ =~= Set::<u64>::empty());
        }
        r
    }

    /// Whether a message with this digest has come in before.
    pub fn contains(&self, digest: u64) -> (r: bool)
        ensures
            r == self@.contains(digest),
    {
        let mut i: usize = 0;
        while i < self.incoming.len()
            invariant
                i <= self.incoming.len(),
                forall|j: int| 0 <= j < i ==> self.incoming@[j] != digest,
            decreases self.incoming.len() - i,
        {
            if self.incoming[i] == digest {
                return true;
            }
            i += 1;
        }
        false
    }

    /// Records that a message with this digest has come in, and tells
    /// whether one had come in before.
    pub fn filter_incoming(&mut self, digest: u64) -> (r: FilteringResult)
        ensures
            r == if old(self)@.contains(digest) {
                FilteringResult::KnownMessage
            } else {
                FilteringResult::NewMessage
            },
            final(self)@ == old(self)@.insert(digest),
    {
        if self.contains(digest) {
            proof {
                assert(self@ =~= self@.insert(digest));
            }
            FilteringResult::KnownMessage
        } else {
            self.incoming.push(digest);
            proof {
                old(self).incoming@.lemma_push_to_set_commute(digest);
            }
            FilteringResult::NewMessage
        }
    }
}

} // verus!
