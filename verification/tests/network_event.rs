use maidsafe_utilities::serialisation::SerialisationError;
use proving_node::authority::Authority;
use proving_node::chain::network_event::{
    agreement_order, online_observation, NetworkEvent, Observation, ProvingSection,
};
use std::collections::BTreeSet;
use proving_node::chain::section_info::{Proof, ProofSet, SectionInfo};
use proving_node::error::RoutingError;
use proving_node::id::{PublicId, Signature};
use proving_node::order::Order;
use proving_node::xor_name::{Prefix, XorName};

fn name(n: u64) -> XorName {
    XorName { w0: 0, w1: 0, w2: 0, w3: n }
}

fn id(n: u64) -> PublicId {
    PublicId { name: name(n), sign_key: name(n + 1000), encrypt_key: name(n + 2000) }
}

fn sig(n: u64) -> Signature {
    Signature { r: name(n), s: name(n + 1) }
}

fn proofs(signers: &[u64]) -> ProofSet {
    let list = signers.iter().map(|n| Proof { pub_id: id(*n), sig: sig(*n) }).collect();
    ProofSet::from_proofs(list).unwrap()
}

fn section(members: &[u64], version: u64, prev: &[u64], hash: u64) -> SectionInfo {
    SectionInfo::new(
        members.iter().map(|n| id(*n)).collect(),
        version,
        Prefix::new(0, name(0)),
        prev.iter().map(|n| name(*n)).collect(),
        name(hash),
    )
    .unwrap()
}

fn all_variants() -> Vec<NetworkEvent> {
    vec![
        NetworkEvent::Online(id(1), Authority::ManagedNode(name(1))),
        NetworkEvent::Offline(id(1)),
        NetworkEvent::OurMerge,
        NetworkEvent::NeighbourMerge(name(7)),
        NetworkEvent::SectionInfo(section(&[1, 2, 3], 1, &[], 10)),
        NetworkEvent::ProvingSections(
            vec![ProvingSection { sec_info: section(&[1, 2, 3], 1, &[], 10), proofs: proofs(&[1]) }],
            section(&[1, 2, 3], 2, &[10], 11),
        ),
    ]
}

#[test]
fn our_merge_equals_itself() {
    assert_eq!(NetworkEvent::OurMerge.compare(&NetworkEvent::OurMerge), Order::Equal);
}

#[test]
fn variants_are_ordered_by_rank() {
    let events = all_variants();
    for i in 0..events.len() {
        for j in 0..events.len() {
            let expected = if i < j {
                Order::Less
            } else if i == j {
                Order::Equal
            } else {
                Order::Greater
            };
            assert_eq!(events[i].compare(&events[j]), expected);
        }
    }
}

#[test]
fn same_variant_is_ordered_field_by_field() {
    let a = NetworkEvent::Online(id(1), Authority::ManagedNode(name(9)));
    let b = NetworkEvent::Online(id(2), Authority::ClientManager(name(1)));
    assert_eq!(a.compare(&b), Order::Less);
    assert_eq!(b.compare(&a), Order::Greater);
    let c = NetworkEvent::Online(id(1), Authority::Section(name(9)));
    assert_eq!(c.compare(&a), Order::Less);
    let d = NetworkEvent::NeighbourMerge(XorName { w0: 1, w1: 0, w2: 0, w3: 0 });
    let e = NetworkEvent::NeighbourMerge(XorName { w0: 0, w1: u64::MAX, w2: 0, w3: 0 });
    assert_eq!(d.compare(&e), Order::Greater);
}

#[test]
fn shorter_member_list_comes_first_when_it_is_a_prefix() {
    let a = NetworkEvent::SectionInfo(section(&[1, 2], 5, &[], 10));
    let b = NetworkEvent::SectionInfo(section(&[1, 2, 3], 0, &[], 0));
    assert_eq!(a.compare(&b), Order::Less);
    let c = NetworkEvent::SectionInfo(section(&[1, 3], 0, &[], 0));
    assert_eq!(c.compare(&b), Order::Greater);
}

fn as_std(order: Order) -> std::cmp::Ordering {
    match order {
        Order::Less => std::cmp::Ordering::Less,
        Order::Equal => std::cmp::Ordering::Equal,
        Order::Greater => std::cmp::Ordering::Greater,
    }
}

#[test]
fn compare_agrees_with_the_derived_order() {
    let mut events = all_variants();
    events.push(NetworkEvent::Online(id(2), Authority::ClientManager(name(1))));
    events.push(NetworkEvent::Online(id(1), Authority::Client { client_id: id(1), proxy_node_name: name(3) }));
    events.push(NetworkEvent::Online(id(1), Authority::PrefixSection(Prefix::new(3, name(1)))));
    events.push(NetworkEvent::Offline(id(0)));
    events.push(NetworkEvent::NeighbourMerge(XorName { w0: 1, w1: 0, w2: 0, w3: 0 }));
    events.push(NetworkEvent::SectionInfo(section(&[1, 2], 5, &[], 10)));
    events.push(NetworkEvent::SectionInfo(section(&[1, 2, 3], 1, &[4, 5], 10)));
    events.push(NetworkEvent::SectionInfo(section(&[1, 2, 3], 1, &[], 9)));
    events.push(NetworkEvent::ProvingSections(vec![], section(&[1, 2, 3], 2, &[10], 11)));
    events.push(NetworkEvent::ProvingSections(
        vec![ProvingSection { sec_info: section(&[1, 2, 3], 1, &[], 10), proofs: proofs(&[1, 2]) }],
        section(&[1, 2, 3], 2, &[10], 11),
    ));
    for a in &events {
        for b in &events {
            assert_eq!(as_std(a.compare(b)), a.cmp(b));
            assert_eq!(a.compare(b) == Order::Equal, a == b);
        }
        assert_eq!(&a.clone(), a);
    }
    let set: BTreeSet<NetworkEvent> = events.iter().cloned().collect();
    let in_order: Vec<NetworkEvent> = set.into_iter().collect();
    assert_eq!(agreement_order(events), in_order);
}

fn sorted(mut events: Vec<NetworkEvent>) -> Vec<NetworkEvent> {
    let mut out: Vec<NetworkEvent> = Vec::new();
    while let Some(e) = events.pop() {
        let mut pos = 0;
        let mut duplicate = false;
        while pos < out.len() {
            match out[pos].compare(&e) {
                Order::Less => pos += 1,
                Order::Equal => {
                    duplicate = true;
                    break;
                }
                Order::Greater => break,
            }
        }
        if !duplicate {
            out.insert(pos, e);
        }
    }
    out
}

#[test]
fn equal_sets_give_the_same_agreement_order() {
    let forwards = all_variants();
    let mut backwards = all_variants();
    backwards.reverse();
    let mut shuffled = all_variants();
    shuffled.swap(0, 3);
    shuffled.swap(1, 5);
    shuffled.push(NetworkEvent::OurMerge);
    assert_eq!(sorted(all_variants()), all_variants());
    let a = agreement_order(forwards);
    let b = agreement_order(backwards);
    let c = agreement_order(shuffled);
    assert_eq!(a, all_variants());
    assert_eq!(a, b);
    assert_eq!(a, c);
}

#[test]
fn proves_successor_table() {
    let current = section(&[1, 2, 3], 1, &[], 10);
    let chained = section(&[1, 2, 3, 4], 2, &[10], 11);
    let unchained = section(&[1, 2, 3, 4], 2, &[9, 12], 11);
    let quorum = proofs(&[1, 2, 3]);
    let short = proofs(&[1, 2]);
    let strangers = proofs(&[4, 5, 6, 7]);
    let event = NetworkEvent::SectionInfo(section(&[1, 2, 3], 1, &[], 10));
    assert!(event.proves_successor_info(&chained, &quorum));
    assert!(!event.proves_successor_info(&chained, &short));
    assert!(!event.proves_successor_info(&chained, &strangers));
    assert!(!event.proves_successor_info(&chained, &ProofSet::new()));
    assert!(!event.proves_successor_info(&unchained, &quorum));
    assert!(!event.proves_successor_info(&unchained, &short));
    assert!(!event.proves_successor_info(&current, &quorum));
    let same_generation = section(&[1, 2, 3, 4], 1, &[10], 11);
    let older = section(&[1, 2, 3, 4], 0, &[10], 11);
    let much_later = section(&[1, 2, 3, 4], 9, &[10], 11);
    assert!(!event.proves_successor_info(&same_generation, &quorum));
    assert!(!event.proves_successor_info(&older, &quorum));
    assert!(event.proves_successor_info(&much_later, &quorum));
    assert!(!event.proves_successor_info(&much_later, &short));
    for other in all_variants() {
        if let NetworkEvent::SectionInfo(_) = other {
            continue;
        }
        for candidate in [&chained, &unchained] {
            for set in [&quorum, &short, &strangers] {
                assert!(!other.proves_successor_info(candidate, set));
            }
        }
    }
}

#[test]
fn quorum_is_more_than_two_thirds() {
    let three = section(&[1, 2, 3], 1, &[], 10);
    assert!(!three.is_quorum(&proofs(&[1, 2])));
    assert!(three.is_quorum(&proofs(&[1, 2, 3])));
    let four = section(&[1, 2, 3, 4], 1, &[], 10);
    assert!(!four.is_quorum(&proofs(&[1, 2])));
    assert!(four.is_quorum(&proofs(&[1, 2, 4])));
    assert!(four.is_quorum(&proofs(&[1, 2, 4, 9])));
    assert!(!four.is_quorum(&proofs(&[1, 2, 8, 9])));
    let six = section(&[1, 2, 3, 4, 5, 6], 1, &[], 10);
    assert!(!six.is_quorum(&proofs(&[1, 2, 3, 4])));
    assert!(six.is_quorum(&proofs(&[1, 2, 3, 4, 5])));
    let empty = section(&[], 1, &[], 10);
    assert!(!empty.is_quorum(&proofs(&[1])));
}

#[test]
fn successor_chains_through_predecessor_digests() {
    let current = section(&[1], 1, &[], 10);
    assert!(section(&[1], 2, &[10], 11).is_successor_of(&current));
    assert!(section(&[1], 2, &[3, 10, 12], 11).is_successor_of(&current));
    assert!(!section(&[1], 2, &[], 11).is_successor_of(&current));
    assert!(!section(&[1], 2, &[11], 10).is_successor_of(&current));
    assert!(!section(&[1], 1, &[10], 11).is_successor_of(&current));
    assert!(!section(&[1], 0, &[10], 11).is_successor_of(&current));
}

#[test]
fn snapshots_must_hold_sets() {
    let p = Prefix::new(0, name(0));
    assert!(SectionInfo::new(vec![id(2), id(1)], 0, p, vec![], name(0)).is_none());
    assert!(SectionInfo::new(vec![id(1), id(1)], 0, p, vec![], name(0)).is_none());
    assert!(SectionInfo::new(vec![id(1)], 0, p, vec![name(2), name(1)], name(0)).is_none());
    assert!(SectionInfo::new(vec![id(1), id(2)], 0, p, vec![name(1), name(2)], name(0)).is_some());
    let twice = vec![Proof { pub_id: id(1), sig: sig(1) }, Proof { pub_id: id(1), sig: sig(2) }];
    assert!(ProofSet::from_proofs(twice).is_none());
}

#[test]
fn section_info_projects_the_snapshot() {
    for event in all_variants() {
        match &event {
            NetworkEvent::SectionInfo(si) => assert_eq!(event.section_info(), Some(si)),
            _ => assert_eq!(event.section_info(), None),
        }
    }
}

#[test]
fn online_becomes_add_with_serialised_authority() {
    let event = NetworkEvent::Online(id(1), Authority::ManagedNode(name(1)));
    let mut expected: Vec<u8> = Vec::new();
    for word in [5u64, 5, 0, 0, 0, 1] {
        expected.extend_from_slice(&word.to_le_bytes());
    }
    assert_eq!(expected.len(), 48);
    assert_eq!(
        event.into_obs(),
        Ok(Observation::Add { peer_id: id(1), related_info: expected })
    );
}

#[test]
fn online_client_authority_is_serialised_in_full() {
    let auth = Authority::Client { client_id: id(3), proxy_node_name: name(4) };
    let obs = NetworkEvent::Online(id(3), auth).into_obs().unwrap();
    match obs {
        Observation::Add { peer_id, related_info } => {
            assert_eq!(peer_id, id(3));
            assert_eq!(related_info.len(), 8 + 8 * 17);
            assert_eq!(related_info[0], 17);
            assert_eq!(related_info[8], 6);
        }
        other => panic!("unexpected observation {:?}", other),
    }
}

#[test]
fn offline_becomes_remove() {
    assert_eq!(
        NetworkEvent::Offline(id(2)).into_obs(),
        Ok(Observation::Remove { peer_id: id(2), related_info: vec![] })
    );
}

#[test]
fn other_events_become_opaque_payloads() {
    assert_eq!(
        NetworkEvent::OurMerge.into_obs(),
        Ok(Observation::OpaquePayload(NetworkEvent::OurMerge))
    );
    assert_eq!(
        NetworkEvent::NeighbourMerge(name(7)).into_obs(),
        Ok(Observation::OpaquePayload(NetworkEvent::NeighbourMerge(name(7))))
    );
    let si = NetworkEvent::SectionInfo(section(&[1, 2, 3], 1, &[], 10));
    assert_eq!(
        si.into_obs(),
        Ok(Observation::OpaquePayload(NetworkEvent::SectionInfo(section(&[1, 2, 3], 1, &[], 10))))
    );
}

#[test]
fn failed_serialisation_is_reported() {
    assert_eq!(
        online_observation(id(1), Err(SerialisationError::DeserialiseExtraBytes)),
        Err(RoutingError::Serialisation)
    );
    assert_eq!(
        online_observation(id(1), Ok(vec![1, 2, 3])),
        Ok(Observation::Add { peer_id: id(1), related_info: vec![1, 2, 3] })
    );
}

#[test]
fn prefix_matches_on_leading_bits() {
    let top = XorName { w0: 0b101 << 61, w1: 0, w2: 0, w3: 0 };
    let three_bits = Prefix::new(3, top);
    assert!(three_bits.matches(&XorName { w0: (0b101 << 61) | 12345, w1: 9, w2: 9, w3: 9 }));
    assert!(!three_bits.matches(&XorName { w0: 0b100 << 61, w1: 0, w2: 0, w3: 0 }));
    assert!(!three_bits.matches(&XorName { w0: 0b001 << 61, w1: 0, w2: 0, w3: 0 }));
    assert!(Prefix::new(0, top).matches(&name(0)));
    let long = Prefix::new(65, XorName { w0: 7, w1: 1 << 63, w2: 0, w3: 0 });
    assert!(long.matches(&XorName { w0: 7, w1: (1 << 63) | 5, w2: 1, w3: 1 }));
    assert!(!long.matches(&XorName { w0: 7, w1: 5, w2: 1, w3: 1 }));
    let full = Prefix::new(300, name(8));
    assert_eq!(full.bit_count, 256);
    assert!(full.matches(&name(8)));
    assert!(!full.matches(&name(9)));
}
