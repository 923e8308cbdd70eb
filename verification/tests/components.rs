use proving_node::ack_manager::{AckManager, UnacknowledgedMessage};
use proving_node::authority::Authority;
use proving_node::id::{layered_payload, PublicId, Signature};
use proving_node::id_set::IdSet;
use proving_node::messages::{Ack, DirectMessage, MessageContent, RoutingMessage};
use proving_node::outbox::{Effect, Event, Outbox, Timer, TimerToken, TokenKind};
use proving_node::peer_manager::{Peer, PeerManager, PeerState};
use proving_node::resource_prover::{
    proof_response_parts, Progress, ResourceProver, APPROVAL_PROGRESS_INTERVAL_SECS,
    APPROVAL_TIMEOUT_DISABLED_SECS, APPROVAL_TIMEOUT_SECS, MAX_PART_LEN,
};
use proving_node::routing_message_filter::{FilteringResult, RoutingMessageFilter};
use proving_node::state_machine::Transition;
use proving_node::xor_name::{push_word_bytes, word_of_bytes, XorName};

fn name(n: u64) -> XorName {
    XorName { w0: 0, w1: 0, w2: 0, w3: n }
}

fn id(n: u64) -> PublicId {
    PublicId { name: name(n), sign_key: name(n + 1000), encrypt_key: name(n + 2000) }
}

fn user_msg(n: u8) -> RoutingMessage {
    RoutingMessage {
        src: Authority::ManagedNode(name(1)),
        dst: Authority::ManagedNode(name(2)),
        content: MessageContent::UserMessagePart {
            hash: name(n as u64),
            part_count: 1,
            part_index: 0,
            payload: vec![n],
        },
    }
}

fn token(kind: TokenKind, serial: u64) -> TimerToken {
    TimerToken { kind, serial }
}

#[test]
fn peer_table_inserts_finds_and_removes() {
    let mut peers = PeerManager::new(id(0), false);
    assert_eq!(peers.len(), 0);
    assert_eq!(peers.insert_peer(Peer::new(id(1), PeerState::Proxy)), None);
    assert_eq!(peers.insert_peer(Peer::new(id(2), PeerState::CrustConnecting)), None);
    assert_eq!(
        peers.insert_peer(Peer::new(id(2), PeerState::Connected)),
        Some(Peer::new(id(2), PeerState::CrustConnecting))
    );
    assert_eq!(peers.len(), 2);
    assert_eq!(peers.get_peer(&id(2)), Some(&Peer::new(id(2), PeerState::Connected)));
    assert_eq!(peers.get_peer(&id(3)), None);
    assert_eq!(peers.get_peer_by_name(&name(1)), Some(&Peer::new(id(1), PeerState::Proxy)));
    assert_eq!(peers.get_peer_by_name(&name(5)), None);
    assert_eq!(peers.get_proxy_name(), Some(&name(1)));
    assert!(peers.is_proxy(&id(1)));
    assert!(!peers.is_proxy(&id(2)));
    assert!(!peers.is_proxy(&id(3)));
    assert!(peers.remove_peer(&id(1)));
    assert!(!peers.remove_peer(&id(1)));
    assert_eq!(peers.get_proxy_name(), None);
    assert_eq!(peers.len(), 1);
    assert_eq!(peers.our_public_id(), &id(0));
}

#[test]
fn connecting_keeps_the_proxy_and_promotes_the_rest() {
    let mut peers = PeerManager::new(id(0), false);
    let _ = peers.insert_peer(Peer::new(id(1), PeerState::Proxy));
    assert!(peers.prepare_connection(&id(2)));
    assert!(!peers.prepare_connection(&id(2)));
    assert!(!peers.prepare_connection(&id(1)));
    assert_eq!(peers.get_peer(&id(2)).unwrap().state, PeerState::ConnectionInfoPreparing);
    assert!(!peers.is_connected(&id(2)));
    peers.connected_to(&id(2));
    peers.connected_to(&id(1));
    peers.connected_to(&id(3));
    assert_eq!(peers.get_peer(&id(1)).unwrap().state, PeerState::Proxy);
    assert_eq!(peers.get_peer(&id(2)).unwrap().state, PeerState::Connected);
    assert_eq!(peers.get_peer(&id(3)).unwrap().state, PeerState::Connected);
    assert!(peers.is_connected(&id(1)));
    assert!(peers.is_connected(&id(2)));
    assert!(!peers.is_connected(&id(9)));
}

#[test]
fn only_connected_and_proxy_are_authorised() {
    let all = [
        PeerState::ConnectionInfoPreparing,
        PeerState::ConnectionInfoReady,
        PeerState::CrustConnecting,
        PeerState::Connected,
        PeerState::Bootstrapper,
        PeerState::JoiningNode,
        PeerState::Proxy,
        PeerState::Client,
        PeerState::Candidate,
        PeerState::Routing,
    ];
    for state in all {
        let expected = state == PeerState::Connected || state == PeerState::Proxy;
        assert_eq!(state.is_authorised(), expected);
        let connecting = state == PeerState::ConnectionInfoPreparing
            || state == PeerState::ConnectionInfoReady
            || state == PeerState::CrustConnecting;
        assert_eq!(state.is_connected(), !connecting);
    }
}

#[test]
fn id_set_behaves_as_a_set() {
    let mut set = IdSet::new();
    assert!(!set.contains(&id(1)));
    assert!(set.insert(id(1)));
    assert!(!set.insert(id(1)));
    assert!(set.insert(id(2)));
    assert!(set.contains(&id(1)));
    assert!(set.remove(&id(1)));
    assert!(!set.remove(&id(1)));
    assert!(!set.contains(&id(1)));
    assert!(set.contains(&id(2)));
}

#[test]
fn filter_knows_what_it_has_seen() {
    let mut filter = RoutingMessageFilter::new();
    assert!(!filter.contains(7));
    assert_eq!(filter.filter_incoming(7), FilteringResult::NewMessage);
    assert_eq!(filter.filter_incoming(7), FilteringResult::KnownMessage);
    assert_eq!(filter.filter_incoming(8), FilteringResult::NewMessage);
    assert!(filter.contains(7));
    assert!(filter.contains(8));
    assert!(!filter.contains(9));
}

#[test]
fn timer_tokens_carry_kind_and_serial() {
    let mut timer = Timer::new();
    let mut outbox = Outbox::new();
    let a = timer.schedule(TokenKind::AckResend, 20, &mut outbox);
    let b = timer.schedule(TokenKind::ResourceProof, 30, &mut outbox);
    assert_eq!(a, token(TokenKind::AckResend, 0));
    assert_eq!(b, token(TokenKind::ResourceProof, 1));
    assert_ne!(token(TokenKind::AckResend, 1), b);
    assert_eq!(
        outbox.into_effects(),
        vec![Effect::Schedule { token: a, secs: 20 }, Effect::Schedule { token: b, secs: 30 }]
    );
}

#[test]
fn acknowledgments_clear_pending_messages() {
    let mut acks = AckManager::new();
    let t1 = token(TokenKind::AckResend, 1);
    let t2 = token(TokenKind::AckResend, 2);
    let first = UnacknowledgedMessage { routing_msg: user_msg(1), route: 0, timer_token: t1 };
    let second = UnacknowledgedMessage { routing_msg: user_msg(2), route: 1, timer_token: t2 };
    assert_eq!(acks.add_to_pending(Ack { m_hash: 1 }, first), None);
    assert_eq!(acks.add_to_pending(Ack { m_hash: 2 }, second), None);
    assert_eq!(acks.pending_len(), 2);
    assert!(acks.is_pending(Ack { m_hash: 1 }));
    acks.receive(Ack { m_hash: 1 });
    assert!(!acks.is_pending(Ack { m_hash: 1 }));
    assert!(!acks.did_receive(Ack { m_hash: 1 }));
    acks.receive(Ack { m_hash: 5 });
    assert!(acks.did_receive(Ack { m_hash: 5 }));
    assert_eq!(acks.find_timed_out(t1), None);
    let timed_out = acks.find_timed_out(t2);
    assert_eq!(
        timed_out,
        Some((
            UnacknowledgedMessage { routing_msg: user_msg(2), route: 1, timer_token: t2 },
            Ack { m_hash: 2 }
        ))
    );
    assert_eq!(acks.pending_len(), 0);
}

#[test]
fn a_second_message_for_one_acknowledgment_ejects_the_first() {
    let mut acks = AckManager::new();
    let t1 = token(TokenKind::AckResend, 1);
    let t2 = token(TokenKind::AckResend, 2);
    let first = UnacknowledgedMessage { routing_msg: user_msg(1), route: 0, timer_token: t1 };
    let second = UnacknowledgedMessage { routing_msg: user_msg(1), route: 1, timer_token: t2 };
    assert_eq!(acks.add_to_pending(Ack { m_hash: 1 }, first), None);
    assert_eq!(
        acks.add_to_pending(Ack { m_hash: 1 }, second),
        Some(UnacknowledgedMessage { routing_msg: user_msg(1), route: 0, timer_token: t1 })
    );
    assert_eq!(acks.pending_len(), 1);
    assert_eq!(acks.find_timed_out(t1), None);
}

#[test]
fn proof_is_cut_into_parts_first_part_last() {
    assert_eq!(proof_response_parts(&vec![], 3), vec![]);
    assert_eq!(
        proof_response_parts(&vec![1, 2, 3], 9),
        vec![DirectMessage::ResourceProofResponse {
            part_index: 0,
            part_count: 1,
            proof: vec![1, 2, 3],
            leading_zero_bytes: 9,
        }]
    );
    let exact: Vec<u8> = vec![7; MAX_PART_LEN];
    assert_eq!(proof_response_parts(&exact, 0).len(), 1);
    let mut proof: Vec<u8> = vec![1; MAX_PART_LEN];
    proof.extend(vec![2; MAX_PART_LEN]);
    proof.extend(vec![3; 5]);
    let parts = proof_response_parts(&proof, 4);
    assert_eq!(
        parts,
        vec![
            DirectMessage::ResourceProofResponse {
                part_index: 2,
                part_count: 3,
                proof: vec![3; 5],
                leading_zero_bytes: 4,
            },
            DirectMessage::ResourceProofResponse {
                part_index: 1,
                part_count: 3,
                proof: vec![2; MAX_PART_LEN],
                leading_zero_bytes: 4,
            },
            DirectMessage::ResourceProofResponse {
                part_index: 0,
                part_count: 3,
                proof: vec![1; MAX_PART_LEN],
                leading_zero_bytes: 4,
            },
        ]
    );
}

#[test]
fn exchange_runs_from_challenge_to_last_receipt() {
    let mut prover = ResourceProver::new(vec![id(1)]);
    let mut outbox = Outbox::new();
    assert_eq!(prover.progress(&id(1)), Progress::Idle);
    assert!(!prover.is_eligible());
    assert_eq!(prover.handle_receipt(id(1)), None);
    assert_eq!(prover.progress(&id(1)), Progress::Idle);
    prover.handle_request(id(1), vec![9, 9], 10, 2, &mut outbox);
    assert_eq!(prover.progress(&id(1)), Progress::ProofComputing);
    assert_eq!(prover.handle_receipt(id(1)), None);
    assert_eq!(prover.progress(&id(1)), Progress::ProofComputing);
    assert_eq!(prover.handle_action_res_proof(id(1), vec![]), None);
    assert_eq!(prover.handle_action_res_proof(id(2), proof_response_parts(&vec![1], 0)), None);
    let mut proof: Vec<u8> = vec![1; MAX_PART_LEN];
    proof.push(2);
    let first = prover.handle_action_res_proof(id(1), proof_response_parts(&proof, 0));
    assert_eq!(
        first,
        Some(DirectMessage::ResourceProofResponse {
            part_index: 0,
            part_count: 2,
            proof: vec![1; MAX_PART_LEN],
            leading_zero_bytes: 0,
        })
    );
    assert_eq!(prover.progress(&id(1)), Progress::ReceiptAwaited);
    assert_eq!(prover.handle_action_res_proof(id(1), proof_response_parts(&proof, 0)), None);
    let second = prover.handle_receipt(id(1));
    assert_eq!(
        second,
        Some(DirectMessage::ResourceProofResponse {
            part_index: 1,
            part_count: 2,
            proof: vec![2],
            leading_zero_bytes: 0,
        })
    );
    assert_eq!(prover.progress(&id(1)), Progress::ReceiptAwaited);
    assert!(!prover.is_eligible());
    assert_eq!(prover.handle_receipt(id(1)), None);
    assert_eq!(prover.progress(&id(1)), Progress::Completed);
    assert_eq!(prover.completed_count(), 1);
    assert!(prover.is_eligible());
    assert_eq!(prover.handle_receipt(id(1)), None);
    assert_eq!(prover.completed_count(), 1);
    prover.handle_approval();
    assert_eq!(prover.progress(&id(1)), Progress::Completed);
    assert!(prover.is_eligible());
    assert_eq!(
        outbox.into_effects(),
        vec![Effect::StartProof { challenger: id(1), seed: vec![9, 9], target_size: 10, difficulty: 2 }]
    );
}

#[test]
fn prover_clocks_are_told_apart() {
    let mut prover = ResourceProver::new(vec![id(1), id(2)]);
    let mut timer = Timer::new();
    let mut outbox = Outbox::new();
    prover.start(false, &mut timer, &mut outbox);
    let approval = token(TokenKind::ResourceProof, 0);
    let progress = token(TokenKind::ResourceProof, 1);
    assert_eq!(prover.handle_timeout(token(TokenKind::AckResend, 0), &mut timer, &mut outbox), None);
    assert_eq!(prover.handle_timeout(token(TokenKind::ResourceProof, 7), &mut timer, &mut outbox), None);
    assert_eq!(prover.handle_timeout(progress, &mut timer, &mut outbox), Some(Transition::Stay));
    assert_eq!(prover.handle_timeout(progress, &mut timer, &mut outbox), None);
    prover.handle_request(id(1), vec![], 1, 1, &mut outbox);
    assert_eq!(prover.handle_timeout(approval, &mut timer, &mut outbox), Some(Transition::Terminate));
    assert_eq!(prover.progress(&id(1)), Progress::TimedOut);
    assert_eq!(prover.progress(&id(2)), Progress::TimedOut);
    assert_eq!(prover.handle_timeout(approval, &mut timer, &mut outbox), None);
    assert_eq!(
        outbox.into_effects(),
        vec![
            Effect::Schedule { token: approval, secs: APPROVAL_TIMEOUT_SECS },
            Effect::Schedule { token: progress, secs: APPROVAL_PROGRESS_INTERVAL_SECS },
            Effect::Schedule {
                token: token(TokenKind::ResourceProof, 2),
                secs: APPROVAL_PROGRESS_INTERVAL_SECS
            },
            Effect::StartProof { challenger: id(1), seed: vec![], target_size: 1, difficulty: 1 },
            Effect::Event(Event::RestartRequired),
        ]
    );
}

#[test]
fn disabled_resource_proof_shortens_the_wait_and_opens_the_door() {
    let mut prover = ResourceProver::new(vec![id(1), id(2), id(3)]);
    let mut timer = Timer::new();
    let mut outbox = Outbox::new();
    prover.start(true, &mut timer, &mut outbox);
    assert!(prover.is_eligible());
    assert_eq!(prover.challenger_count(), 3);
    assert_eq!(
        outbox.effects()[0],
        Effect::Schedule {
            token: token(TokenKind::ResourceProof, 0),
            secs: APPROVAL_TIMEOUT_DISABLED_SECS
        }
    );
}

#[test]
fn names_go_to_bytes_and_back() {
    let mut bytes = [0u8; 32];
    for (i, byte) in bytes.iter_mut().enumerate() {
        *byte = i as u8 + 1;
    }
    let n = XorName::from_bytes(&bytes);
    assert_eq!(
        n,
        XorName {
            w0: 0x0102030405060708,
            w1: 0x090a0b0c0d0e0f10,
            w2: 0x1112131415161718,
            w3: 0x191a1b1c1d1e1f20,
        }
    );
    let mut out = Vec::new();
    n.push_bytes(&mut out);
    assert_eq!(out, bytes.to_vec());
    let mut words = vec![7];
    n.push_words(&mut words);
    assert_eq!(words, vec![7, n.w0, n.w1, n.w2, n.w3]);
    assert!(!n.get_bit(0));
    assert!(n.get_bit(7));
    assert!(n.get_bit(14));
    assert!(!n.get_bit(15));
    assert!(n.get_bit(250));
    assert!(!n.get_bit(255));
    assert_eq!(word_of_bytes(0xff, 0, 0, 0, 0, 0, 0, 1), 0xff00000000000001);
    let mut one = vec![9];
    push_word_bytes(0x0102030405060708, &mut one);
    assert_eq!(one, vec![9, 1, 2, 3, 4, 5, 6, 7, 8]);
}

#[test]
fn the_new_identity_signs_the_pair_and_the_old_signature() {
    let sig = Signature {
        r: XorName { w0: 1, w1: 2, w2: 3, w3: 4 },
        s: XorName { w0: 5, w1: 6, w2: 7, w3: 0x0a0b },
    };
    let bytes = sig.to_bytes();
    assert_eq!(bytes.len(), 64);
    assert_eq!(bytes[7], 1);
    assert_eq!(bytes[15], 2);
    assert_eq!(bytes[39], 5);
    assert_eq!(bytes[62], 0x0a);
    assert_eq!(bytes[63], 0x0b);
    let layered = layered_payload(&vec![9, 8, 7], &sig);
    assert_eq!(layered.len(), 67);
    assert_eq!(&layered[..3], &[9, 8, 7]);
    assert_eq!(&layered[3..], &bytes[..]);
    assert_eq!(layered_payload(&vec![], &sig), bytes);
}
