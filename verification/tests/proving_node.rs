use maidsafe_utilities::serialisation::SerialisationError;
use proving_node::action::{Action, ConnectionInfoResult, CrustEvent, CrustUser};
use proving_node::authority::Authority;
use proving_node::chain::section_info::{GenesisPfxInfo, SectionInfo};
use proving_node::error::{InterfaceError, RoutingError};
use proving_node::id::{FullId, PublicId};
use proving_node::messages::{
    Ack, DirectMessage, HopMessage, Message, MessageContent, MessageId, RoutingMessage,
};
use proving_node::outbox::{Effect, Event, Outbox, Timer, TimerToken, TokenKind};
use proving_node::peer_manager::{Peer, PeerState};
use proving_node::resource_prover::{
    proof_response_parts, Progress, APPROVAL_PROGRESS_INTERVAL_SECS, APPROVAL_TIMEOUT_SECS,
};
use proving_node::state_machine::Transition;
use proving_node::states::proving_node::{DevConfig, ProvingNode, State};
use proving_node::xor_name::{Prefix, XorName};

const PROXY: u64 = 50;
const OLD: u64 = 100;
const NEW: u64 = 200;

fn name(n: u64) -> XorName {
    XorName { w0: 0, w1: 0, w2: 0, w3: n }
}

fn id(n: u64) -> PublicId {
    PublicId { name: name(n), sign_key: name(n + 1000), encrypt_key: name(n + 2000) }
}

fn us() -> Authority {
    Authority::Client { client_id: id(NEW), proxy_node_name: name(PROXY) }
}

fn make(members: &[u64], disable_resource_proof: bool, min_section_size: usize) -> (ProvingNode, Vec<Effect>) {
    let mut outbox = Outbox::new();
    let node = ProvingNode::from_bootstrapping(
        (Prefix::new(0, name(0)), members.iter().map(|n| id(*n)).collect()),
        FullId::new(id(OLD)),
        FullId::new(id(NEW)),
        min_section_size,
        id(PROXY),
        DevConfig { disable_client_rate_limiter: false, disable_resource_proof },
        Timer::new(),
        &mut outbox,
    );
    (node, outbox.into_effects())
}

fn crust(node: &mut ProvingNode, event: CrustEvent) -> (Transition, Vec<Effect>) {
    let mut outbox = Outbox::new();
    let transition = node.handle_crust_event(event, &mut outbox);
    (transition, outbox.into_effects())
}

fn act(node: &mut ProvingNode, action: Action) -> (Transition, Vec<Effect>) {
    let mut outbox = Outbox::new();
    let transition = node.handle_action(action, &mut outbox);
    (transition, outbox.into_effects())
}

fn user_msg(n: u8) -> RoutingMessage {
    RoutingMessage {
        src: Authority::Section(name(n as u64)),
        dst: us(),
        content: MessageContent::UserMessagePart {
            hash: name(n as u64),
            part_count: 1,
            part_index: 0,
            payload: vec![n],
        },
    }
}

fn genesis() -> GenesisPfxInfo {
    let first = SectionInfo::new(vec![id(1), id(2)], 0, Prefix::new(0, name(0)), vec![], name(10));
    let latest =
        SectionInfo::new(vec![id(1), id(2), id(NEW)], 1, Prefix::new(0, name(0)), vec![name(10)], name(11));
    GenesisPfxInfo { first_info: first.unwrap(), latest_info: latest.unwrap() }
}

fn approval() -> RoutingMessage {
    RoutingMessage {
        src: Authority::PrefixSection(Prefix::new(0, name(0))),
        dst: us(),
        content: MessageContent::NodeApproval(genesis()),
    }
}

fn hop(content: RoutingMessage, digest: u64) -> CrustEvent {
    CrustEvent::NewMessage(
        id(PROXY),
        CrustUser::Node,
        Message::Hop(HopMessage { content, route: 0, digest }),
    )
}

fn direct(from: u64, msg: DirectMessage) -> CrustEvent {
    CrustEvent::NewMessage(id(from), CrustUser::Node, Message::Direct(msg))
}

fn ack_of(msg: &RoutingMessage, digest: u64) -> Effect {
    Effect::SendHop {
        to: id(PROXY),
        routing_msg: RoutingMessage {
            src: msg.dst,
            dst: msg.src,
            content: MessageContent::Ack(Ack { m_hash: digest }, 0),
        },
        route: 0,
    }
}

fn complete_exchange(node: &mut ProvingNode, challenger: u64, seed: u8, difficulty: u8) {
    let challenge = DirectMessage::ResourceProof { seed: vec![seed], target_size: 3, difficulty };
    let (t, effects) = crust(node, direct(challenger, challenge));
    assert_eq!(t, Transition::Stay);
    assert_eq!(
        effects,
        vec![Effect::StartProof { challenger: id(challenger), seed: vec![seed], target_size: 3, difficulty }]
    );
    assert_eq!(node.resource_prover().progress(&id(challenger)), Progress::ProofComputing);
    let parts = proof_response_parts(&vec![seed, seed, seed], 1);
    let (t, effects) = act(node, Action::TakeResourceProofResult(id(challenger), parts));
    assert_eq!(t, Transition::Stay);
    assert_eq!(
        effects,
        vec![Effect::SendDirect {
            to: id(challenger),
            msg: DirectMessage::ResourceProofResponse {
                part_index: 0,
                part_count: 1,
                proof: vec![seed, seed, seed],
                leading_zero_bytes: 1,
            },
        }]
    );
    assert_eq!(node.resource_prover().progress(&id(challenger)), Progress::ReceiptAwaited);
    let (t, effects) = crust(node, direct(challenger, DirectMessage::ResourceProofResponseReceipt));
    assert_eq!(t, Transition::Stay);
    assert_eq!(effects, vec![]);
    assert_eq!(node.resource_prover().progress(&id(challenger)), Progress::Completed);
}

#[test]
fn construction_registers_proxy_and_requests_every_member() {
    let (mut node, effects) = make(&[1, 2, 3, 4], false, 4);
    let mut expected = vec![
        Effect::Schedule {
            token: TimerToken { kind: TokenKind::ResourceProof, serial: 0 },
            secs: APPROVAL_TIMEOUT_SECS,
        },
        Effect::Schedule {
            token: TimerToken { kind: TokenKind::ResourceProof, serial: 1 },
            secs: APPROVAL_PROGRESS_INTERVAL_SECS,
        },
    ];
    for n in [1, 2, 3, 4] {
        expected.push(Effect::RequestConnectionInfo {
            peer: id(n),
            src: us(),
            dst: Authority::ManagedNode(name(n)),
        });
    }
    assert_eq!(effects, expected);
    assert!(node.peer_mgr().is_proxy(&id(PROXY)));
    assert_eq!(node.peer_mgr().len(), 5);
    for n in [1, 2, 3, 4] {
        assert_eq!(
            node.peer_mgr().get_peer(&id(n)),
            Some(&Peer::new(id(n), PeerState::ConnectionInfoPreparing))
        );
    }
    assert_eq!(node.resource_prover().challenger_count(), 4);
    assert!(!node.resource_prover().is_eligible());
    assert_eq!(node.full_id().public_id, id(NEW));
    assert_eq!(node.old_full_id().public_id, id(OLD));
    assert_eq!(node.min_section_size(), 4);
    assert_eq!(node.backlog_len(), 0);
    assert!(node.in_authority(&us()));
    assert!(!node.in_authority(&Authority::ManagedNode(name(NEW))));
    assert!(!node.in_authority(&Authority::Client { client_id: id(OLD), proxy_node_name: name(PROXY) }));
}

#[test]
fn a_member_that_is_the_proxy_stays_the_proxy() {
    let (mut node, effects) = make(&[PROXY, 2], false, 4);
    assert_eq!(effects.len(), 4);
    assert_eq!(node.peer_mgr().len(), 2);
    assert!(node.peer_mgr().is_proxy(&id(PROXY)));
}

#[test]
fn connect_success_sends_the_handshake() {
    let (mut node, _) = make(&[1], false, 4);
    let (t, effects) = crust(&mut node, CrustEvent::ConnectSuccess(id(1)));
    assert_eq!(t, Transition::Stay);
    assert_eq!(node.peer_mgr().get_peer(&id(1)).unwrap().state, PeerState::Connected);
    let mut payload: Vec<u8> = Vec::new();
    payload.extend_from_slice(&24u64.to_le_bytes());
    for n in [OLD, OLD + 1000, OLD + 2000, NEW, NEW + 1000, NEW + 2000] {
        for word in [0, 0, 0, n] {
            payload.extend_from_slice(&word.to_le_bytes());
        }
    }
    assert_eq!(payload.len(), 200);
    assert_eq!(
        effects,
        vec![Effect::SendCandidateInfo {
            to: id(1),
            old_public_id: id(OLD),
            new_public_id: id(NEW),
            payload,
            new_client_auth: us(),
        }]
    );
}

#[test]
fn handshake_is_given_up_without_serialised_identities_or_proxy() {
    let (mut node, _) = make(&[1], false, 4);
    let mut outbox = Outbox::new();
    node.send_candidate_info(id(1), Err(SerialisationError::DeserialiseExtraBytes), &mut outbox);
    assert_eq!(outbox.len(), 0);
    node.send_candidate_info(id(1), Ok(vec![1, 2]), &mut outbox);
    assert_eq!(
        outbox.effects(),
        &vec![Effect::SendCandidateInfo {
            to: id(1),
            old_public_id: id(OLD),
            new_public_id: id(NEW),
            payload: vec![1, 2],
            new_client_auth: us(),
        }]
    );
    node.handle_connect_failure(id(PROXY));
    let (t, effects) = crust(&mut node, CrustEvent::ConnectSuccess(id(1)));
    assert_eq!(t, Transition::Stay);
    assert_eq!(effects, vec![]);
    assert_eq!(node.peer_mgr().get_peer(&id(1)).unwrap().state, PeerState::Connected);
}

#[test]
fn direct_messages_pass_only_from_connected_or_proxy() {
    let all = [
        PeerState::ConnectionInfoPreparing,
        PeerState::ConnectionInfoReady,
        PeerState::CrustConnecting,
        PeerState::Connected,
        PeerState::Bootstrapper,
        PeerState::JoiningNode,
        PeerState::Proxy,
        PeerState::Client,
        PeerState::Candidate,
        PeerState::Routing,
    ];
    for state in all {
        let allowed = state == PeerState::Connected || state == PeerState::Proxy;
        for receipt in [false, true] {
            let (mut node, _) = make(&[], false, 4);
            let _ = node.peer_mgr().insert_peer(Peer::new(id(7), state));
            let msg = |receipt: bool| {
                if receipt {
                    DirectMessage::ResourceProofResponseReceipt
                } else {
                    DirectMessage::ResourceProof { seed: vec![1], target_size: 2, difficulty: 3 }
                }
            };
            let check = node.check_direct_message_sender(&msg(receipt), &id(7));
            let mut outbox = Outbox::new();
            let result = node.handle_direct_message(msg(receipt), id(7), &mut outbox);
            if allowed {
                assert_eq!(check, Ok(()));
                assert_eq!(result, Ok(()));
            } else {
                assert_eq!(check, Err(RoutingError::InvalidStateForOperation));
                assert_eq!(result, Err(RoutingError::InvalidStateForOperation));
                assert_eq!(outbox.len(), 0);
                assert_eq!(node.resource_prover().progress(&id(7)), Progress::Idle);
            }
            if allowed && !receipt {
                assert_eq!(node.resource_prover().progress(&id(7)), Progress::ProofComputing);
                assert_eq!(outbox.len(), 1);
            }
            let (t, _) = crust(&mut node, direct(7, msg(receipt)));
            assert_eq!(t, Transition::Stay);
        }
    }
    let (mut node, _) = make(&[], false, 4);
    let stranger = DirectMessage::ResourceProofResponseReceipt;
    assert_eq!(
        node.check_direct_message_sender(&stranger, &id(8)),
        Err(RoutingError::InvalidStateForOperation)
    );
}

#[test]
fn unhandled_direct_messages_change_nothing() {
    let (mut node, _) = make(&[], false, 4);
    let response = DirectMessage::ResourceProofResponse {
        part_index: 0,
        part_count: 1,
        proof: vec![1],
        leading_zero_bytes: 0,
    };
    let (t, effects) = crust(&mut node, direct(PROXY, response));
    assert_eq!(t, Transition::Stay);
    assert_eq!(effects, vec![]);
}

#[test]
fn hop_messages_from_unknown_or_unconnected_peers_are_refused() {
    let (mut node, _) = make(&[1], false, 4);
    let mut outbox = Outbox::new();
    let stranger = HopMessage { content: user_msg(1), route: 0, digest: 1 };
    assert_eq!(
        node.handle_hop_message(stranger, id(9), &mut outbox),
        Err(RoutingError::UnknownConnection(id(9)))
    );
    let preparing = HopMessage { content: user_msg(1), route: 0, digest: 1 };
    assert_eq!(
        node.handle_hop_message(preparing, id(1), &mut outbox),
        Err(RoutingError::UnknownConnection(id(1)))
    );
    assert_eq!(outbox.len(), 0);
    assert_eq!(node.backlog_len(), 0);
    let fine = HopMessage { content: user_msg(1), route: 0, digest: 1 };
    assert_eq!(node.handle_hop_message(fine, id(PROXY), &mut outbox), Ok(Transition::Stay));
    assert_eq!(node.backlog_len(), 1);
}

#[test]
fn duplicate_hop_messages_are_absorbed() {
    let (mut node, _) = make(&[], false, 4);
    let (t, effects) = crust(&mut node, hop(user_msg(1), 77));
    assert_eq!(t, Transition::Stay);
    assert_eq!(effects, vec![ack_of(&user_msg(1), 77)]);
    assert_eq!(node.backlog_len(), 1);
    let (t, effects) = crust(&mut node, hop(user_msg(1), 77));
    assert_eq!(t, Transition::Stay);
    assert_eq!(effects, vec![]);
    assert_eq!(node.backlog_len(), 1);
    let mut outbox = Outbox::new();
    let again = HopMessage { content: user_msg(1), route: 0, digest: 77 };
    assert_eq!(
        node.handle_hop_message(again, id(PROXY), &mut outbox),
        Err(RoutingError::FilterCheckFailed)
    );
    let again = HopMessage { content: user_msg(1), route: 0, digest: 77 };
    assert_eq!(node.filter_hop_message(again, &mut outbox), Err(RoutingError::FilterCheckFailed));
    assert_eq!(outbox.len(), 0);
}

#[test]
fn hop_messages_for_others_are_let_go() {
    let (mut node, _) = make(&[], false, 4);
    let mut other = user_msg(1);
    other.dst = Authority::ManagedNode(name(NEW));
    let (t, effects) = crust(&mut node, hop(other, 5));
    assert_eq!(t, Transition::Stay);
    assert_eq!(effects, vec![]);
    assert_eq!(node.backlog_len(), 0);
}

#[test]
fn connection_info_is_taken_up_or_put_off_by_prefix() {
    let mut outbox = Outbox::new();
    let mut node = ProvingNode::from_bootstrapping(
        (Prefix::new(1, XorName { w0: 1 << 63, w1: 0, w2: 0, w3: 0 }), vec![]),
        FullId::new(id(OLD)),
        FullId::new(id(NEW)),
        4,
        id(PROXY),
        DevConfig { disable_client_rate_limiter: false, disable_resource_proof: false },
        Timer::new(),
        &mut outbox,
    );
    let inside = XorName { w0: (1 << 63) | 5, w1: 0, w2: 0, w3: 0 };
    let request = |src: XorName| RoutingMessage {
        src: Authority::ManagedNode(src),
        dst: Authority::ManagedNode(name(NEW)),
        content: MessageContent::ConnectionInfoRequest {
            encrypted_conn_info: vec![1, 2, 3],
            pub_id: id(6),
            msg_id: MessageId { hi: 1, lo: 2 },
        },
    };
    let mut outbox = Outbox::new();
    assert_eq!(node.dispatch_routing_message(request(inside), &mut outbox), Ok(Transition::Stay));
    assert_eq!(
        outbox.into_effects(),
        vec![Effect::AcceptConnectionInfoRequest {
            peer: id(6),
            encrypted_conn_info: vec![1, 2, 3],
            msg_id: MessageId { hi: 1, lo: 2 },
            src: Authority::ManagedNode(inside),
            dst: Authority::ManagedNode(name(NEW)),
        }]
    );
    assert_eq!(node.backlog_len(), 0);
    assert_eq!(node.peer_mgr().get_peer(&id(6)).unwrap().state, PeerState::ConnectionInfoPreparing);
    let mut outbox = Outbox::new();
    assert_eq!(node.dispatch_routing_message(request(name(5)), &mut outbox), Ok(Transition::Stay));
    assert_eq!(outbox.len(), 0);
    assert_eq!(node.backlog_len(), 1);
    let response = RoutingMessage {
        src: Authority::ManagedNode(name(5)),
        dst: us(),
        content: MessageContent::ConnectionInfoResponse {
            encrypted_conn_info: vec![4],
            pub_id: id(5),
            msg_id: MessageId { hi: 3, lo: 4 },
        },
    };
    let (t, effects) = crust(&mut node, hop(response, 9));
    assert_eq!(t, Transition::Stay);
    assert_eq!(effects.len(), 2);
    assert_eq!(
        effects[1],
        Effect::AcceptConnectionInfoResponse {
            peer: id(5),
            encrypted_conn_info: vec![4],
            msg_id: MessageId { hi: 3, lo: 4 },
            src: Authority::ManagedNode(name(5)),
            dst: us(),
        }
    );
    assert_eq!(node.backlog_len(), 1);
}

#[test]
fn backlogged_messages_are_replayed_in_arrival_order() {
    let (mut node, _) = make(&[], true, 4);
    let mut expected = Vec::new();
    for n in 1..=6u8 {
        let (t, effects) = crust(&mut node, hop(user_msg(n), n as u64));
        assert_eq!(t, Transition::Stay);
        assert_eq!(effects, vec![ack_of(&user_msg(n), n as u64)]);
        expected.push(user_msg(n));
        let ack = RoutingMessage {
            src: Authority::ManagedNode(name(3)),
            dst: us(),
            content: MessageContent::Ack(Ack { m_hash: 1000 + n as u64 }, 0),
        };
        let (t, effects) = crust(&mut node, hop(ack, 100 + n as u64));
        assert_eq!(t, Transition::Stay);
        assert_eq!(effects, vec![]);
        let (t, _) = crust(&mut node, direct(PROXY, DirectMessage::ResourceProofResponseReceipt));
        assert_eq!(t, Transition::Stay);
        let (t, _) = crust(&mut node, hop(user_msg(n), n as u64));
        assert_eq!(t, Transition::Stay);
        let (t, _) = act(&mut node, Action::GetId { request: n as u64 });
        assert_eq!(t, Transition::Stay);
        let (t, _) = crust(&mut node, CrustEvent::ListenerStarted(5000));
        assert_eq!(t, Transition::Stay);
    }
    assert_eq!(node.backlog_len(), 6);
    let (t, _) = crust(&mut node, hop(approval(), 999));
    let gen_pfx_info = match t {
        Transition::IntoNode { gen_pfx_info } => gen_pfx_info,
        other => panic!("unexpected transition {:?}", other),
    };
    assert_eq!(gen_pfx_info, genesis());
    match node.into_node(gen_pfx_info) {
        State::Node(member) => {
            assert_eq!(member.msg_queue(), &expected);
            assert_eq!(member.gen_pfx_info(), &genesis());
            assert_eq!(member.full_id().public_id, id(NEW));
            assert_eq!(member.min_section_size(), 4);
            assert!(member.peer_mgr().is_proxy(&id(PROXY)));
            assert!(member.ack_mgr().did_receive(Ack { m_hash: 1001 }));
        }
        other => panic!("unexpected state {:?}", other),
    }
}

#[test]
fn approval_waits_for_every_challenger() {
    let (mut node, _) = make(&[1, 2, 3], false, 4);
    for n in [1, 2, 3] {
        let (t, _) = crust(&mut node, CrustEvent::ConnectSuccess(id(n)));
        assert_eq!(t, Transition::Stay);
    }
    let (t, _) = crust(&mut node, hop(approval(), 1));
    assert_eq!(t, Transition::Stay);
    complete_exchange(&mut node, 1, 11, 1);
    complete_exchange(&mut node, 2, 22, 2);
    assert_eq!(node.resource_prover().completed_count(), 2);
    assert!(!node.resource_prover().is_eligible());
    let (t, _) = crust(&mut node, hop(approval(), 2));
    assert_eq!(t, Transition::Stay);
    let mut outbox = Outbox::new();
    assert_eq!(node.dispatch_routing_message(approval(), &mut outbox), Ok(Transition::Stay));
    assert_eq!(node.backlog_len(), 3);
    complete_exchange(&mut node, 3, 33, 3);
    assert!(node.resource_prover().is_eligible());
    let (t, _) = crust(&mut node, hop(user_msg(1), 3));
    assert_eq!(t, Transition::Stay);
    let (t, effects) = crust(&mut node, hop(approval(), 4));
    assert_eq!(t, Transition::IntoNode { gen_pfx_info: genesis() });
    assert_eq!(effects, vec![ack_of(&approval(), 4)]);
    match node.into_node(genesis()) {
        State::Node(member) => {
            assert_eq!(
                member.msg_queue(),
                &vec![approval(), approval(), approval(), user_msg(1)]
            );
        }
        other => panic!("unexpected state {:?}", other),
    }
}

#[test]
fn an_exchange_with_a_stranger_does_not_count() {
    let (mut node, _) = make(&[1], false, 4);
    complete_exchange(&mut node, PROXY, 5, 1);
    assert_eq!(node.resource_prover().completed_count(), 1);
    assert!(!node.resource_prover().is_eligible());
    let (t, _) = crust(&mut node, hop(approval(), 1));
    assert_eq!(t, Transition::Stay);
    assert_eq!(node.backlog_len(), 1);
    let (t, _) = crust(&mut node, CrustEvent::ConnectSuccess(id(1)));
    assert_eq!(t, Transition::Stay);
    complete_exchange(&mut node, 1, 6, 1);
    assert!(node.resource_prover().is_eligible());
    let (t, _) = crust(&mut node, hop(approval(), 2));
    assert_eq!(t, Transition::IntoNode { gen_pfx_info: genesis() });
}

#[test]
fn approval_must_come_from_a_section_to_our_client_authority() {
    let (mut node, _) = make(&[], true, 4);
    let mut from_node = approval();
    from_node.src = Authority::ManagedNode(name(1));
    let (t, _) = crust(&mut node, hop(from_node, 1));
    assert_eq!(t, Transition::Stay);
    let mut to_node = approval();
    to_node.dst = Authority::ManagedNode(name(NEW));
    let mut outbox = Outbox::new();
    assert_eq!(node.dispatch_routing_message(to_node, &mut outbox), Ok(Transition::Stay));
    assert_eq!(node.backlog_len(), 2);
    let (t, _) = act(&mut node, Action::Terminate);
    assert_eq!(t, Transition::Terminate);
}

#[test]
fn losing_the_proxy_terminates_losing_another_peer_does_not() {
    let (mut node, _) = make(&[1, 2], false, 4);
    let (t, _) = crust(&mut node, CrustEvent::ConnectSuccess(id(1)));
    assert_eq!(t, Transition::Stay);
    assert!(node.add_to_notified_nodes(id(1)));
    assert!(!node.add_to_notified_nodes(id(1)));
    let (t, effects) = crust(&mut node, CrustEvent::LostPeer(id(1)));
    assert_eq!(t, Transition::Stay);
    assert_eq!(effects, vec![]);
    assert_eq!(node.peer_mgr().get_peer(&id(1)), None);
    assert!(node.add_to_notified_nodes(id(1)));
    let (t, effects) = crust(&mut node, CrustEvent::LostPeer(id(9)));
    assert_eq!(t, Transition::Stay);
    assert_eq!(effects, vec![]);
    let (t, effects) = crust(&mut node, CrustEvent::ConnectFailure(id(2)));
    assert_eq!(t, Transition::Stay);
    assert_eq!(effects, vec![]);
    assert_eq!(node.peer_mgr().get_peer(&id(2)), None);
    let (t, effects) = crust(&mut node, CrustEvent::LostPeer(id(PROXY)));
    assert_eq!(t, Transition::Terminate);
    assert_eq!(effects, vec![Effect::Event(Event::Terminated)]);
    assert_eq!(node.peer_mgr().len(), 0);
}

#[test]
fn dropped_peer_tells_the_proxy_apart() {
    let (mut node, _) = make(&[1], false, 4);
    assert!(node.dropped_peer(&id(1)));
    assert!(node.dropped_peer(&id(1)));
    assert!(!node.dropped_peer(&id(PROXY)));
    assert!(node.dropped_peer(&id(PROXY)));
}

#[test]
fn requests_to_send_are_turned_down_until_approved() {
    let (mut node, _) = make(&[], false, 4);
    assert_eq!(
        act(&mut node, Action::ClientSendRequest { request: 1 }),
        (Transition::Stay, vec![Effect::Reject { request: 1, error: InterfaceError::InvalidState }])
    );
    assert_eq!(
        act(&mut node, Action::NodeSendMessage { request: 2 }),
        (Transition::Stay, vec![Effect::Reject { request: 2, error: InterfaceError::InvalidState }])
    );
    assert_eq!(
        act(&mut node, Action::GetId { request: 3 }),
        (Transition::Stay, vec![Effect::ReplyId { request: 3, id: id(NEW) }])
    );
    assert_eq!(act(&mut node, Action::Terminate), (Transition::Terminate, vec![]));
}

#[test]
fn approval_timeout_asks_for_a_restart() {
    let (mut node, _) = make(&[1], false, 4);
    let progress = TimerToken { kind: TokenKind::ResourceProof, serial: 1 };
    let (t, effects) = act(&mut node, Action::HandleTimeout(progress));
    assert_eq!(t, Transition::Stay);
    assert_eq!(
        effects,
        vec![Effect::Schedule {
            token: TimerToken { kind: TokenKind::ResourceProof, serial: 2 },
            secs: APPROVAL_PROGRESS_INTERVAL_SECS,
        }]
    );
    let stale = act(&mut node, Action::HandleTimeout(progress));
    assert_eq!(stale, (Transition::Stay, vec![]));
    let other_kind = TimerToken { kind: TokenKind::AckResend, serial: 0 };
    assert_eq!(act(&mut node, Action::HandleTimeout(other_kind)), (Transition::Stay, vec![]));
    let approval_token = TimerToken { kind: TokenKind::ResourceProof, serial: 0 };
    let (t, effects) = act(&mut node, Action::HandleTimeout(approval_token));
    assert_eq!(t, Transition::Terminate);
    assert_eq!(effects, vec![Effect::Event(Event::RestartRequired)]);
    assert_eq!(node.resource_prover().progress(&id(1)), Progress::TimedOut);
}

#[test]
fn unacknowledged_messages_are_resent_on_the_next_route() {
    let (mut node, _) = make(&[], false, 2);
    let outgoing = || RoutingMessage {
        src: us(),
        dst: Authority::ManagedNode(name(1)),
        content: MessageContent::ConnectionInfoRequest {
            encrypted_conn_info: vec![1],
            pub_id: id(NEW),
            msg_id: MessageId { hi: 0, lo: 1 },
        },
    };
    let mut outbox = Outbox::new();
    let ack = Ack { m_hash: 42 };
    assert_eq!(node.send_routing_message_via_route(outgoing(), ack, 0, &mut outbox), Ok(()));
    let first = TimerToken { kind: TokenKind::AckResend, serial: 2 };
    assert_eq!(
        outbox.into_effects(),
        vec![
            Effect::Schedule { token: first, secs: 20 },
            Effect::SendHop { to: id(PROXY), routing_msg: outgoing(), route: 0 },
        ]
    );
    assert!(node.ack_mgr().is_pending(ack));
    let (t, effects) = act(&mut node, Action::HandleTimeout(first));
    assert_eq!(t, Transition::Stay);
    let second = TimerToken { kind: TokenKind::AckResend, serial: 3 };
    assert_eq!(
        effects,
        vec![
            Effect::Schedule { token: second, secs: 20 },
            Effect::SendHop { to: id(PROXY), routing_msg: outgoing(), route: 1 },
        ]
    );
    assert_eq!(act(&mut node, Action::HandleTimeout(first)), (Transition::Stay, vec![]));
    let (t, effects) = act(&mut node, Action::HandleTimeout(second));
    assert_eq!(t, Transition::Stay);
    let third = TimerToken { kind: TokenKind::AckResend, serial: 4 };
    assert_eq!(
        effects,
        vec![
            Effect::Schedule { token: third, secs: 20 },
            Effect::SendHop { to: id(PROXY), routing_msg: outgoing(), route: 2 },
        ]
    );
    assert_eq!(act(&mut node, Action::HandleTimeout(third)), (Transition::Stay, vec![]));
    assert!(!node.ack_mgr().is_pending(ack));
}

#[test]
fn an_acknowledgment_ends_the_wait() {
    let (mut node, _) = make(&[], false, 4);
    let outgoing = RoutingMessage {
        src: us(),
        dst: Authority::ManagedNode(name(1)),
        content: MessageContent::UserMessagePart {
            hash: name(1),
            part_count: 1,
            part_index: 0,
            payload: vec![],
        },
    };
    let mut outbox = Outbox::new();
    let ack = Ack { m_hash: 42 };
    assert_eq!(node.send_routing_message_via_route(outgoing, ack, 0, &mut outbox), Ok(()));
    assert!(node.ack_mgr().is_pending(ack));
    let incoming = RoutingMessage {
        src: Authority::ManagedNode(name(1)),
        dst: us(),
        content: MessageContent::Ack(ack, 0),
    };
    let (t, effects) = crust(&mut node, hop(incoming, 8));
    assert_eq!(t, Transition::Stay);
    assert_eq!(effects, vec![]);
    assert!(!node.ack_mgr().is_pending(ack));
    let token = TimerToken { kind: TokenKind::AckResend, serial: 2 };
    assert_eq!(act(&mut node, Action::HandleTimeout(token)), (Transition::Stay, vec![]));
    let early = Ack { m_hash: 43 };
    node.handle_ack_response(early);
    let mut outbox = Outbox::new();
    let late = RoutingMessage {
        src: us(),
        dst: Authority::ManagedNode(name(1)),
        content: MessageContent::UserMessagePart {
            hash: name(2),
            part_count: 1,
            part_index: 0,
            payload: vec![],
        },
    };
    assert_eq!(node.send_routing_message_via_route(late, early, 0, &mut outbox), Ok(()));
    assert_eq!(outbox.len(), 0);
}

#[test]
fn sending_needs_our_client_authority_and_a_connected_proxy() {
    let (mut node, _) = make(&[1], false, 4);
    let mut outbox = Outbox::new();
    let mut msg = user_msg(1);
    msg.src = Authority::ManagedNode(name(NEW));
    msg.dst = Authority::ManagedNode(name(1));
    assert_eq!(
        node.send_routing_message_via_route(msg, Ack { m_hash: 1 }, 0, &mut outbox),
        Err(RoutingError::InvalidSource)
    );
    let mut msg = user_msg(1);
    msg.src = Authority::Client { client_id: id(NEW), proxy_node_name: name(99) };
    msg.dst = Authority::ManagedNode(name(1));
    assert_eq!(
        node.send_routing_message_via_route(msg, Ack { m_hash: 1 }, 0, &mut outbox),
        Err(RoutingError::ProxyConnectionNotFound)
    );
    let mut msg = user_msg(1);
    msg.src = Authority::Client { client_id: id(NEW), proxy_node_name: name(1) };
    msg.dst = Authority::ManagedNode(name(1));
    assert_eq!(
        node.send_routing_message_via_route(msg, Ack { m_hash: 1 }, 0, &mut outbox),
        Err(RoutingError::ProxyConnectionNotFound)
    );
    let mut to_us = user_msg(1);
    to_us.src = Authority::ManagedNode(name(1));
    assert_eq!(node.send_routing_message_via_route(to_us, Ack { m_hash: 1 }, 0, &mut outbox), Ok(()));
    assert_eq!(outbox.len(), 0);
    assert_eq!(node.get_proxy_public_id(&name(PROXY)), Ok(id(PROXY)));
    assert_eq!(node.get_proxy_public_id(&name(1)), Err(RoutingError::ProxyConnectionNotFound));
    assert_eq!(node.get_proxy_public_id(&name(77)), Err(RoutingError::ProxyConnectionNotFound));
}

#[test]
fn transport_events_without_meaning_here_are_passed_by() {
    let (mut node, _) = make(&[], false, 4);
    assert_eq!(crust(&mut node, CrustEvent::BootstrapFailed), (Transition::Stay, vec![]));
    assert_eq!(crust(&mut node, CrustEvent::ListenerStarted(1)), (Transition::Stay, vec![]));
    let prepared = ConnectionInfoResult { result_token: 7, succeeded: true };
    assert_eq!(
        crust(&mut node, CrustEvent::ConnectionInfoPrepared(prepared)),
        (
            Transition::Stay,
            vec![Effect::ConnectionInfoPrepared { result_token: 7, succeeded: true }]
        )
    );
    assert!(node.is_peer_valid(&id(1)));
    let mut outbox = Outbox::new();
    node.add_to_routing_table_success(&id(PROXY));
    node.add_to_routing_table_failure(&id(PROXY), &mut outbox);
    assert_eq!(outbox.into_effects(), vec![Effect::Disconnect(id(PROXY))]);
    assert_eq!(node.peer_mgr().len(), 0);
}

#[test]
fn four_challengers_then_approval_hands_everything_over() {
    let (mut node, effects) = make(&[1, 2, 3, 4], false, 4);
    assert_eq!(effects.len(), 6);
    let mut transitions = 0;
    let mut waiting = Vec::new();
    for n in [1u64, 2, 3, 4] {
        let (t, effects) = crust(&mut node, CrustEvent::ConnectSuccess(id(n)));
        assert_eq!(t, Transition::Stay);
        assert_eq!(effects.len(), 1);
        let (t, _) = crust(&mut node, hop(user_msg(n as u8), n));
        assert_eq!(t, Transition::Stay);
        waiting.push(user_msg(n as u8));
    }
    for n in [1u64, 2, 3, 4] {
        assert!(!node.resource_prover().is_eligible());
        let (t, _) = crust(&mut node, hop(approval(), 100 + n));
        if t != Transition::Stay {
            transitions += 1;
        }
        waiting.push(approval());
        complete_exchange(&mut node, n, 10 * n as u8, n as u8);
        let (t, _) = crust(&mut node, hop(user_msg(10 + n as u8), 10 + n));
        assert_eq!(t, Transition::Stay);
        waiting.push(user_msg(10 + n as u8));
    }
    assert_eq!(node.resource_prover().completed_count(), 4);
    let (t, _) = crust(&mut node, hop(approval(), 500));
    let gen_pfx_info = match t {
        Transition::IntoNode { gen_pfx_info } => {
            transitions += 1;
            gen_pfx_info
        }
        other => panic!("unexpected transition {:?}", other),
    };
    assert_eq!(transitions, 1);
    assert_eq!(gen_pfx_info, genesis());
    assert_eq!(node.backlog_len(), 12);
    match node.into_node(gen_pfx_info) {
        State::Node(member) => {
            assert_eq!(member.msg_queue(), &waiting);
            assert_eq!(member.gen_pfx_info(), &genesis());
            for n in [1u64, 2, 3, 4] {
                assert_eq!(
                    member.peer_mgr().get_peer(&id(n)),
                    Some(&Peer::new(id(n), PeerState::Connected))
                );
            }
        }
        other => panic!("unexpected state {:?}", other),
    }
}
