use atomic_broadcast::abcast::client::proposal_timeout_ms;
use atomic_broadcast::abcast::paxos_wire::estimate_paxos_msg_size;
use atomic_broadcast::abcast::transfer::all_sequences_known;
use atomic_broadcast::abcast::paxos_replica::{DecidedAction, PaxosReplicaState};
use atomic_broadcast::abcast::ble::{Ballot, HeartbeatMsg, HeartbeatReply, HeartbeatRequest, VRMsg};
use atomic_broadcast::abcast::client::{
    create_raw_proposal, proposal_id_of, window_deltas, Client, ExperimentState, RECONFIG_ID,
};
use atomic_broadcast::abcast::messages::{
    AtomicBroadcastMsg, PartitioningExpMsg, Proposal, ReconfigurationProposal, StopMsg,
};
use atomic_broadcast::abcast::partition::{
    partition_plan, recovery_plan, without, Disconnection, LaterDisconnect,
};
use atomic_broadcast::abcast::paxos_wire::{
    Entry, PaxosMessage, PaxosMsg, PaxosSer, ReconfigSer, ReconfigurationMsg, StopSign,
};
use atomic_broadcast::abcast::reconfig_client::ReconfigurationClient;
use atomic_broadcast::abcast::serializers::{
    AtomicBroadcastDeser, BallotLeaderSer, PartitioningExpMsgDeser, StopMsgDeser, VRDeser,
};
use atomic_broadcast::abcast::transfer::{
    answer_segment_request, assemble_sequence, get_node_segment_idx, on_leader, on_reconfig_init,
    replica_to_start_on_stop, retry_requests, route_proposal, ConfigMeta, InitStep, ProposalRoute,
    Reconfig, SegmentIndex, SegmentReply, SegmentRequest, SequenceMetaData, SequenceSegment,
};
use atomic_broadcast::abcast::vr_le::VRLeaderElectionComp;
use atomic_broadcast::experiment::{NetworkScenario, ReconfigurationPolicy};
use atomic_broadcast::wire::{Reader, SerError};

fn disconnect_of(m: &PartitioningExpMsg) -> (Vec<u64>, bool, Option<u64>) {
    match m {
        PartitioningExpMsg::DisconnectPeers((peers, delay), lagging) => (peers.clone(), *delay, *lagging),
        PartitioningExpMsg::RecoverPeers => panic!("not a disconnection"),
    }
}

#[test]
fn raw_proposal_is_its_id_big_endian() {
    let data = create_raw_proposal(258);
    assert_eq!(data, vec![0, 0, 0, 0, 0, 0, 1, 2]);
    assert_eq!(proposal_id_of(&data), 258);
}

#[test]
fn window_deltas_are_differences() {
    assert_eq!(window_deltas(&vec![3, 3, 10, 12]), vec![3, 0, 7, 2]);
    assert_eq!(window_deltas(&vec![]), Vec::<usize>::new());
}

#[test]
fn atomic_broadcast_codec_roundtrip() {
    let msg = AtomicBroadcastMsg::Proposal(Proposal::with(vec![9, 8]));
    let mut buf = Vec::new();
    msg.serialise(&mut buf).unwrap();
    assert_eq!(buf, vec![1, 0, 0, 0, 2, 9, 8]);
    let mut r = Reader::new(&buf);
    match AtomicBroadcastDeser::deserialise(&mut r) {
        Ok(AtomicBroadcastMsg::Proposal(p)) => assert_eq!(p.data, vec![9, 8]),
        _ => panic!("should read back"),
    }
    let msg = AtomicBroadcastMsg::Leader(3, 17);
    let mut buf = Vec::new();
    msg.serialise(&mut buf).unwrap();
    let mut r = Reader::new(&buf);
    match AtomicBroadcastDeser::deserialise(&mut r) {
        Ok(AtomicBroadcastMsg::Leader(pid, round)) => {
            assert_eq!(pid, 3);
            assert_eq!(round, 17);
        }
        _ => panic!("should read back"),
    }
    let bad = vec![77u8];
    let mut r = Reader::new(&bad);
    assert!(matches!(AtomicBroadcastDeser::deserialise(&mut r), Err(SerError::InvalidType(77))));
}

#[test]
fn stop_and_partitioning_codecs_roundtrip() {
    let mut buf = Vec::new();
    StopMsg::Peer(5).serialise(&mut buf).unwrap();
    let mut r = Reader::new(&buf);
    assert!(matches!(StopMsgDeser::deserialise(&mut r), Ok(StopMsg::Peer(5))));
    let m = PartitioningExpMsg::DisconnectPeers((vec![1, 2], true), Some(4));
    let mut buf = Vec::new();
    m.serialise(&mut buf).unwrap();
    let mut r = Reader::new(&buf);
    match PartitioningExpMsgDeser::deserialise(&mut r) {
        Ok(m) => assert_eq!(disconnect_of(&m), (vec![1, 2], true, Some(4))),
        Err(_) => panic!("should read back"),
    }
}

#[test]
fn heartbeat_and_vr_codecs_roundtrip() {
    let m = HeartbeatMsg::Reply(HeartbeatReply::with(7, Ballot::with(3, 2), true));
    let mut buf = Vec::new();
    m.serialise(&mut buf).unwrap();
    let mut r = Reader::new(&buf);
    match BallotLeaderSer::deserialise(&mut r) {
        Ok(HeartbeatMsg::Reply(rep)) => {
            assert_eq!(rep.round, 7);
            assert!(rep.ballot == Ballot::with(3, 2));
            assert!(rep.candidate);
        }
        _ => panic!("should read back"),
    }
    let m = HeartbeatMsg::Request(HeartbeatRequest::with(9));
    let mut buf = Vec::new();
    m.serialise(&mut buf).unwrap();
    assert_eq!(buf, vec![1, 0, 0, 0, 9]);
    let m = VRMsg::DoViewChange(Ballot::with(4, 1), 2);
    let mut buf = Vec::new();
    m.serialise(&mut buf).unwrap();
    let mut r = Reader::new(&buf);
    match VRDeser::deserialise(&mut r) {
        Ok(VRMsg::DoViewChange(b, from)) => {
            assert!(b == Ballot::with(4, 1));
            assert_eq!(from, 2);
        }
        _ => panic!("should read back"),
    }
}

fn entries_equal(a: &[Entry], b: &[Entry]) -> bool {
    a.len() == b.len()
        && a.iter().zip(b.iter()).all(|(x, y)| match (x, y) {
            (Entry::Normal(d), Entry::Normal(e)) => d == e,
            (Entry::StopSign(s), Entry::StopSign(t)) => {
                s.config_id == t.config_id
                    && s.nodes == t.nodes
                    && s.skip_prepare_use_leader == t.skip_prepare_use_leader
            }
            _ => false,
        })
}

fn sample_entries() -> Vec<Entry> {
    vec![
        Entry::Normal(vec![1, 2, 3]),
        Entry::StopSign(StopSign {
            config_id: 2,
            nodes: vec![1, 2, 4],
            skip_prepare_use_leader: Some((4, Ballot::with(6, 4))),
        }),
    ]
}

#[test]
fn paxos_message_codec_roundtrip() {
    let msg = PaxosMessage {
        from: 1,
        to: 2,
        msg: PaxosMsg::Promise {
            n: Ballot::with(5, 1),
            n_accepted: Ballot::with(4, 3),
            sfx: sample_entries(),
            ld: 10,
            la: 12,
        },
    };
    let mut buf = Vec::new();
    msg.serialise(&mut buf).unwrap();
    let mut r = Reader::new(&buf);
    match PaxosSer::deserialise(&mut r) {
        Ok(PaxosMessage { from, to, msg: PaxosMsg::Promise { n, n_accepted, sfx, ld, la } }) => {
            assert_eq!((from, to, ld, la), (1, 2, 10, 12));
            assert!(n == Ballot::with(5, 1));
            assert!(n_accepted == Ballot::with(4, 3));
            assert!(entries_equal(&sfx, &sample_entries()));
        }
        _ => panic!("should read back"),
    }
    assert_eq!(r.remaining(), 0);
    let msg = PaxosMessage { from: 3, to: 1, msg: PaxosMsg::Decide { ld: 8, n: Ballot::with(2, 3) } };
    let mut buf = Vec::new();
    msg.serialise(&mut buf).unwrap();
    assert_eq!(buf.len(), 8 + 8 + 1 + 12 + 8);
    let mut r = Reader::new(&buf);
    match PaxosSer::deserialise(&mut r) {
        Ok(PaxosMessage { msg: PaxosMsg::Decide { ld, n }, .. }) => {
            assert_eq!(ld, 8);
            assert!(n == Ballot::with(2, 3));
        }
        _ => panic!("should read back"),
    }
    let mut bad = vec![0u8; 16];
    bad.push(42);
    let mut r = Reader::new(&bad);
    assert!(matches!(PaxosSer::deserialise(&mut r), Err(SerError::InvalidType(42))));
}

#[test]
fn reconfiguration_codec_roundtrip() {
    let st = ReconfigurationMsg::SegmentTransfer(atomic_broadcast::abcast::paxos_wire::SegmentTransfer {
        config_id: 2,
        succeeded: true,
        metadata: SequenceMetaData::with(1, 40),
        segment: SequenceSegment::with(SegmentIndex::with(10, 12), sample_entries()),
    });
    let mut buf = Vec::new();
    st.serialise(&mut buf).unwrap();
    let mut r = Reader::new(&buf);
    match ReconfigSer::deserialise(&mut r) {
        Ok(ReconfigurationMsg::SegmentTransfer(t)) => {
            assert_eq!(t.config_id, 2);
            assert!(t.succeeded);
            assert!(t.metadata == SequenceMetaData::with(1, 40));
            assert!(t.segment.idx == SegmentIndex::with(10, 12));
            assert!(entries_equal(&t.segment.entries, &sample_entries()));
        }
        _ => panic!("should read back"),
    }
    let sr = ReconfigurationMsg::SegmentRequest(SegmentRequest::with(3, SegmentIndex::with(0, 5), 7));
    let mut buf = Vec::new();
    sr.serialise(&mut buf).unwrap();
    assert_eq!(buf.len(), 1 + 4 + 8 + 8 + 8);
    let mut r = Reader::new(&buf);
    match ReconfigSer::deserialise(&mut r) {
        Ok(ReconfigurationMsg::SegmentRequest(req)) => {
            assert!(req == SegmentRequest::with(3, SegmentIndex::with(0, 5), 7))
        }
        _ => panic!("should read back"),
    }
    let bad = vec![9u8];
    let mut r = Reader::new(&bad);
    assert!(matches!(ReconfigSer::deserialise(&mut r), Err(SerError::InvalidType(9))));
}

#[test]
fn new_configuration_replaces_a_leader_or_a_follower() {
    let rp = ReconfigurationProposal::with(ReconfigurationPolicy::ReplaceLeader, vec![4]);
    assert_eq!(rp.get_new_configuration(1, vec![1, 2, 3]), vec![2, 3, 4]);
    let rp = ReconfigurationProposal::with(ReconfigurationPolicy::ReplaceFollower, vec![4]);
    let nodes = rp.get_new_configuration(1, vec![1, 2, 3]);
    assert_eq!(nodes.len(), 3);
    assert!(nodes[0] == 2 || nodes[0] == 3);
    assert_eq!(&nodes[1..], &[4, 1]);
}

#[test]
fn vr_next_view_rotates_the_leader() {
    let mut vr = VRLeaderElectionComp::with(vec![1, 2, 3], 1, 100, false, 1);
    assert_eq!(vr.majority, 2);
    assert!(vr.get_next_view() == Ballot::with(1, 2));
    assert!(vr.get_next_view() == Ballot::with(2, 3));
    assert!(vr.get_next_view() == Ballot::with(3, 1));
}

#[test]
fn client_warms_up_runs_and_finishes() {
    let mut c = Client::with(vec![1, 2, 3], 2, NetworkScenario::FullyConnected, None);
    let out = c.handle_leader(1, 1);
    assert!(out.started_warmup);
    assert_eq!(out.proposals, Some((1, 2)));
    assert!(c.state == ExperimentState::WarmUp);
    let out = c.handle_proposal_resp(1, 1, 1, 0);
    assert!(out.was_pending);
    assert_eq!(out.proposals, Some((3, 3)));
    assert_eq!(c.warmup_decided, 1);
    let out = c.handle_proposal_resp(1, 1, 1, 0);
    assert!(!out.was_pending);
    assert!(!c.run());
    assert!(c.state == ExperimentState::Running);
    assert_eq!(c.leader_changes, vec![(1, 1)]);
    let out = c.handle_proposal_resp(2, 2, 5, 0);
    assert_eq!(out.proposals, Some((4, 4)));
    assert_eq!(c.current_leader, 2);
    assert_eq!(c.leader_round, 5);
    assert!(c.responses.contains(&2));
    assert!(!c.proposal_timeout(2));
    assert!(c.proposal_timeout(3));
    assert_eq!(c.num_timed_out, 1);
    assert!(c.handle_returned_proposal(4));
    assert_eq!(c.num_retried, 1);
    assert!(c.experiment_timeout(0));
    assert!(c.state == ExperimentState::Finished);
    assert!(!c.handle_proposal_resp(3, 2, 5, 0).was_pending);
}

#[test]
fn client_measures_the_down_time_of_a_partition() {
    let mut c = Client::with(vec![1, 2, 3], 2, NetworkScenario::Chained(10), None);
    c.handle_leader(1, 1);
    c.run();
    assert_eq!(c.get_timeout(5, 50), 50);
    c.record_partition(1000);
    c.record_partitioned_proposal();
    assert_eq!(c.proposal_id_when_partitioned, Some(2));
    assert_eq!(c.get_timeout(5, 50), 5);
    // A proposal made before the partition ends no down time.
    let out = c.handle_proposal_resp(2, 1, 1, 1200);
    assert_eq!(out.down_time_ms, None);
    // The first decision of a later proposal does.
    let out = c.handle_proposal_resp(3, 1, 1, 1700);
    assert_eq!(out.down_time_ms, Some(700));
    assert_eq!(c.longest_down_time, Some(700));
    assert_eq!(c.get_timeout(5, 50), 50);
    // Only once.
    let out = c.handle_proposal_resp(4, 1, 1, 1900);
    assert_eq!(out.down_time_ms, None);
    assert_eq!(c.longest_down_time, Some(700));
}

#[test]
fn client_never_recovered_is_down_until_the_end() {
    let mut c = Client::with(vec![1, 2, 3], 1, NetworkScenario::QuorumLoss(10), None);
    c.handle_leader(1, 1);
    c.run();
    c.record_partition(100);
    c.record_partitioned_proposal();
    assert!(c.experiment_timeout(400));
    assert_eq!(c.longest_down_time, Some(300));
    assert_eq!(c.partition_ts, None);
}

#[test]
fn client_waits_for_the_reconfiguration() {
    let mut c = Client::with(
        vec![1, 2, 3],
        1,
        NetworkScenario::FullyConnected,
        Some((ReconfigurationPolicy::ReplaceFollower, vec![4])),
    );
    c.handle_leader(1, 1);
    assert!(c.run());
    assert!(c.pending_proposals.contains(&RECONFIG_ID));
    assert!(!c.experiment_timeout(0));
    assert!(c.state == ExperimentState::PendingReconfiguration);
    let out = c.handle_reconfig_response(4, 2, vec![1, 3, 4]);
    assert!(out.was_pending);
    assert!(out.finished);
    assert!(c.state == ExperimentState::Finished);
}

#[test]
fn reconfiguration_client_proposes_the_reconfiguration_at_half() {
    let mut c = ReconfigurationClient::with(
        vec![1, 2, 3],
        4,
        2,
        Some((ReconfigurationPolicy::ReplaceLeader, vec![4])),
        1,
    );
    assert_eq!(c.max_proposal_id, 5);
    c.handle_leader(1, 1);
    let out = c.handle_proposal_resp(1, 2, 3);
    assert!(!out.was_pending);
    assert!(out.preloaded_done);
    assert_eq!(c.current_leader, 2);
    assert_eq!(c.run(), Some((2, 3)));
    let out = c.handle_proposal_resp(2, 2, 3);
    assert!(out.was_pending);
    assert!(!out.propose_reconfig);
    assert_eq!(out.proposals, Some((4, 4)));
    let out = c.handle_proposal_resp(3, 2, 3);
    assert!(out.propose_reconfig);
    assert!(out.proposals.is_none());
    let (was_pending, finished, proposals) = c.handle_reconfig_response(4, 4, vec![2, 3, 4]);
    assert!(was_pending);
    assert!(!finished);
    assert_eq!(c.current_leader, 4);
    assert_eq!(proposals, Some((5, 5)));
    c.handle_proposal_resp(4, 4, 4);
    let out = c.handle_proposal_resp(5, 4, 4);
    assert!(out.finished);
    assert!(c.state == ExperimentState::Finished);
}

#[test]
fn partition_plans() {
    let nodes = vec![1, 2, 3];
    let plan = partition_plan(NetworkScenario::QuorumLoss(10), 1, &nodes);
    assert_eq!(plan.recover_after_secs, Some(10));
    assert_eq!(plan.immediate.len(), 2);
    assert_eq!(plan.immediate[0].0, 1);
    assert_eq!(disconnect_of(&plan.immediate[0].1), (vec![1, 3], false, None));
    assert_eq!(plan.immediate[1].0, 3);
    assert!(plan.delayed.is_empty());
    let plan = partition_plan(NetworkScenario::Chained(5), 1, &nodes);
    assert_eq!(plan.immediate[0].0, 2);
    assert_eq!(disconnect_of(&plan.immediate[0].1), (vec![1], false, None));
    assert_eq!(plan.immediate[1].0, 1);
    assert_eq!(disconnect_of(&plan.immediate[1].1), (vec![2], false, None));
    let plan = partition_plan(NetworkScenario::ConstrainedElection(5), 1, &nodes);
    assert_eq!(disconnect_of(&plan.immediate[1].1), (vec![], false, Some(2)));
    assert_eq!(plan.delayed.len(), 2);
    assert_eq!(plan.delayed[0].0, 3);
    assert_eq!(disconnect_of(&plan.delayed[0].1), (vec![1], false, None));
    assert_eq!(plan.delayed[1].0, 1);
    assert_eq!(disconnect_of(&plan.delayed[1].1), (vec![3], false, Some(2)));
    let plan = partition_plan(NetworkScenario::FullyConnected, 1, &nodes);
    assert!(plan.immediate.is_empty() && plan.delayed.is_empty() && plan.recover_after_secs.is_none());
    assert_eq!(recovery_plan(&nodes).len(), 3);
    assert_eq!(without(&nodes, 2), vec![1, 3]);
}

#[test]
fn disconnection_with_a_lagging_peer() {
    let mut d = Disconnection::new();
    let later = d.disconnect_peers(vec![3, 4], false, Some(2));
    assert_eq!(d.peers, vec![2]);
    assert!(d.is_disconnected(2));
    assert!(!d.is_disconnected(3));
    d.after_delay(later);
    assert_eq!(d.peers, vec![2, 3, 4]);
    let later = d.disconnect_peers(vec![5], true, None);
    assert!(matches!(later, LaterDisconnect::Replace(_)));
    d.after_delay(later);
    assert_eq!(d.peers, vec![5]);
    d.recover_peers();
    assert!(!d.is_disconnected(5));
}

#[test]
fn segments_split_the_sequence() {
    let idx = get_node_segment_idx(10, &vec![4, 5, 6]);
    assert_eq!(idx.len(), 3);
    assert!(idx[0] == (4, SegmentIndex::with(0, 3)));
    assert!(idx[1] == (5, SegmentIndex::with(3, 6)));
    assert!(idx[2] == (6, SegmentIndex::with(6, 9)));
    let idx = get_node_segment_idx(9, &vec![4, 5, 6]);
    assert!(idx[2] == (6, SegmentIndex::with(6, 9)));
    let reqs = retry_requests(2, &vec![SegmentIndex::with(0, 3), SegmentIndex::with(3, 6)], &vec![7, 8], 1);
    assert_eq!(reqs[0].0, 8);
    assert_eq!(reqs[1].0, 7);
    assert!(reqs[1].1 == SegmentRequest::with(2, SegmentIndex::with(3, 6), 1));
}

#[test]
fn segments_are_put_together_in_order() {
    let segs = vec![
        SequenceSegment::with(SegmentIndex::with(3, 5), vec![30, 40]),
        SequenceSegment::with(SegmentIndex::with(0, 3), vec![0, 10, 20]),
        SequenceSegment::with(SegmentIndex::with(5, 6), vec![50]),
    ];
    assert_eq!(assemble_sequence(segs), vec![0, 10, 20, 30, 40, 50]);
}

#[test]
fn proposals_are_routed() {
    let c = ConfigMeta::new(1);
    assert!(route_proposal(false, false, c, 2) == ProposalRoute::HoldBack);
    let led = ConfigMeta { leader: 2, ..c };
    assert!(route_proposal(false, false, led, 2) == ProposalRoute::Propose);
    assert!(route_proposal(false, false, led, 3) == ProposalRoute::ForwardTo(2));
    assert!(route_proposal(false, true, led, 3) == ProposalRoute::ToClient);
    assert!(route_proposal(true, true, led, 3) == ProposalRoute::Drop);
    let step = on_leader(c, 1, 3, 3, true, false);
    assert!(step.notify_client && step.propose_held_back);
    assert_eq!(step.config.leader, 3);
    let step = on_leader(c, 1, 2, 3, true, false);
    assert_eq!(step.forward_held_back_to, Some(2));
    assert!(on_leader(c, 2, 2, 3, true, false).config == c);
}

#[test]
fn segment_requests_are_answered() {
    let active = ConfigMeta { id: 3, leader: 1, pending_reconfig: false };
    let sr = SegmentRequest::with(2, SegmentIndex::with(0, 4), 5);
    match answer_segment_request(sr, active, &vec![], Some(10), 7) {
        SegmentReply::Reply { succeeded, metadata } => {
            assert!(succeeded);
            assert!(metadata == SequenceMetaData::with(1, 7));
        }
        _ => panic!("the sequence is known"),
    }
    assert!(answer_segment_request(sr, active, &vec![sr], Some(10), 7) == SegmentReply::Ignore);
    let from_leader = SegmentRequest::with(2, SegmentIndex::with(0, 4), 1);
    assert!(answer_segment_request(from_leader, active, &vec![], Some(10), 7) == SegmentReply::Ignore);
    let current = SegmentRequest::with(3, SegmentIndex::with(0, 4), 5);
    assert!(matches!(answer_segment_request(current, active, &vec![], None, 7), SegmentReply::Delegate { .. }));
}

#[test]
fn reconfiguration_init_is_joined() {
    let nodes = Reconfig::with(vec![1, 2], vec![4]);
    match on_reconfig_init(false, 1, None, 4, 2, &nodes, SequenceMetaData::with(1, 20), 2) {
        InitStep::Join { peers, ready_peer, start_now, pull } => {
            assert_eq!(peers, vec![1, 2]);
            assert_eq!(ready_peer, Some(2));
            assert!(!start_now);
            let (m, from) = pull.unwrap();
            assert!(m == SequenceMetaData::with(1, 20));
            assert_eq!(from, vec![1, 2]);
        }
        _ => panic!("should join"),
    }
    assert!(matches!(
        on_reconfig_init(false, 2, None, 4, 2, &nodes, SequenceMetaData::with(1, 20), 2),
        InitStep::Ignore
    ));
    assert!(matches!(
        on_reconfig_init(false, 1, Some(2), 4, 2, &nodes, SequenceMetaData::with(1, 20), 1),
        InitStep::ReadyPeer(1)
    ));
    match on_reconfig_init(true, 1, None, 4, 2, &nodes, SequenceMetaData::with(1, 20), 1) {
        InitStep::NotifyStop(all) => assert_eq!(all, vec![1, 2, 4]),
        _ => panic!("a stopped node tells the others"),
    }
    assert_eq!(replica_to_start_on_stop(0, 2, 1), Some(1));
    assert_eq!(replica_to_start_on_stop(1, 2, 1), Some(2));
    assert_eq!(replica_to_start_on_stop(2, 2, 1), None);
}

#[test]
fn replica_answers_decided_entries() {
    let mut r = PaxosReplicaState::with(1, 1, vec![2, 3]);
    let decided = vec![
        Entry::Normal(vec![5]),
        Entry::StopSign(StopSign { config_id: 2, nodes: vec![1, 3, 4], skip_prepare_use_leader: None }),
    ];
    let (news, actions) = r.get_decided(Ballot::with(2, 1), 1, decided);
    assert_eq!(news, Some((1, 1, 2)));
    assert_eq!(r.current_leader, 1);
    assert_eq!(actions.len(), 2);
    match &actions[0] {
        DecidedAction::Respond(p) => {
            assert_eq!(p.data, vec![5]);
            assert_eq!((p.latest_leader, p.leader_round), (1, 2));
        }
        _ => panic!("an answer"),
    }
    match &actions[1] {
        DecidedAction::Stop(o) => {
            assert_eq!(o.config_id, 2);
            assert_eq!(o.nodes.continued_nodes, vec![1, 3]);
            assert_eq!(o.nodes.new_nodes, vec![4]);
            assert_eq!(o.response.latest_leader, 0);
            assert_eq!(o.response.leader_round, 2);
            assert_eq!(o.response.current_configuration, vec![1, 3, 4]);
        }
        _ => panic!("the end of the configuration"),
    }
    let mut f = PaxosReplicaState::with(2, 1, vec![1, 3]);
    let (news, actions) = f.get_decided(Ballot::with(2, 1), 1, vec![Entry::Normal(vec![5])]);
    assert_eq!(news, Some((1, 1, 2)));
    assert!(actions.is_empty());
    let (news, _) = f.get_decided(Ballot::with(1, 3), 3, vec![]);
    assert!(news.is_none());
    assert_eq!(f.current_leader, 1);
    assert_eq!(f.handle_leader(3, Ballot::with(3, 3), false), Some((1, 3, 3)));
    assert!(f.handle_leader(2, Ballot::with(4, 2), true).is_none());
    assert_eq!(f.current_leader, 3);
}

#[test]
fn message_sizes_and_small_decisions() {
    let pm = PaxosMessage { from: 1, to: 2, msg: PaxosMsg::FirstAccept { n: Ballot::with(1, 1), entries: sample_entries() } };
    assert_eq!(estimate_paxos_msg_size(&pm), 2 * 8 + std::mem::size_of_val(&pm));
    let pm = PaxosMessage { from: 1, to: 2, msg: PaxosMsg::PrepareReq };
    assert_eq!(estimate_paxos_msg_size(&pm), std::mem::size_of_val(&pm));
    assert!(all_sequences_known(1, 2));
    assert!(!all_sequences_known(0, 2));
    assert!(!all_sequences_known(0, 0));
    assert_eq!(proposal_timeout_ms(true, false, 25, 500), 25);
    assert_eq!(proposal_timeout_ms(true, true, 25, 500), 500);
    assert_eq!(proposal_timeout_ms(false, false, 25, 500), 500);
}
