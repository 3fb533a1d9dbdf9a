use atomic_broadcast::abcast::messages::Proposal;
use atomic_broadcast::multipaxos::acceptor::{Acceptor, Phase2aReply};
use atomic_broadcast::multipaxos::batcher::Batcher;
use atomic_broadcast::multipaxos::buffer_map::BufferMap;
use atomic_broadcast::multipaxos::leader::{safe_value, Leader, LeaderOptions, LeaderState};
use atomic_broadcast::multipaxos::participant::{ElectionOptions, Participant};
use atomic_broadcast::multipaxos::messages::{
    Chosen, CommandBatchOrNoop, LeaderInbound, Nack, Phase1a, Phase1b, Phase1bSlotInfo, Phase2a, Phase2b,
};
use atomic_broadcast::multipaxos::options::{MultiPaxosConfig, create_options};
use atomic_broadcast::multipaxos::proxy_leader::ProxyLeader;
use atomic_broadcast::multipaxos::replica::{Replica, ReplicaOptions, TimerAction};
use atomic_broadcast::multipaxos::serializers::{
    deserialise_command_batch_or_noop, deserialise_phase1b_slot_info, serialise_command_batch_or_noop,
    serialise_phase1b_slot_info, LeaderInboundSer,
};
use atomic_broadcast::wire::{Reader, SerError};

fn batch(ids: &[u8]) -> CommandBatchOrNoop {
    CommandBatchOrNoop::CommandBatch(ids.iter().map(|i| vec![*i]).collect())
}

fn batch_bytes(c: &Option<CommandBatchOrNoop>) -> Option<Vec<Vec<u8>>> {
    match c {
        Some(CommandBatchOrNoop::CommandBatch(v)) => Some(v.clone()),
        Some(CommandBatchOrNoop::Noop) => Some(vec![]),
        None => None,
    }
}

#[test]
fn buffer_map_get_after_put() {
    let mut m = BufferMap::with(2);
    assert!(m.get(0).is_none());
    m.put(3, batch(&[7]));
    assert_eq!(batch_bytes(&m.get(3)), Some(vec![vec![7]]));
    assert!(m.get(2).is_none());
    assert!(m.get(5).is_none());
    m.put(3, batch(&[8, 9]));
    assert_eq!(batch_bytes(&m.get(3)), Some(vec![vec![8], vec![9]]));
    m.put(1, CommandBatchOrNoop::Noop);
    assert_eq!(batch_bytes(&m.get(1)), Some(vec![]));
    assert_eq!(batch_bytes(&m.get(3)), Some(vec![vec![8], vec![9]]));
}

#[test]
fn buffer_map_normalize_at_watermark_zero() {
    let m = BufferMap::with(4);
    assert_eq!(m.normalize(0), Some(0));
    assert_eq!(m.normalize(12), Some(12));
}

#[test]
fn acceptor_promises_and_nacks() {
    let mut a = Acceptor::with(2);
    a.handle_phase2a(Phase2a { src: 1, slot: 4, round: 3, command_batch_or_noop: batch(&[1]) });
    a.handle_phase2a(Phase2a { src: 1, slot: 9, round: 3, command_batch_or_noop: CommandBatchOrNoop::Noop });
    match a.handle_phase1a(Phase1a { src: 2, round: 5, chosen_watermark: 5 }) {
        LeaderInbound::Phase1b(p) => {
            assert_eq!(p.acceptor_index, 2);
            assert_eq!(p.round, 5);
            assert_eq!(p.info.len(), 1);
            assert_eq!(p.info[0].slot, 9);
            assert_eq!(p.info[0].vote_round, 3);
        }
        _ => panic!("expected a promise"),
    }
    match a.handle_phase1a(Phase1a { src: 1, round: 4, chosen_watermark: 0 }) {
        LeaderInbound::Nack(n) => assert_eq!(n.round, 5),
        _ => panic!("expected a nack"),
    }
    match a.handle_phase2a(Phase2a { src: 1, slot: 10, round: 4, command_batch_or_noop: batch(&[2]) }) {
        Phase2aReply::Nack(n) => assert_eq!(n.round, 5),
        _ => panic!("expected a nack"),
    }
    match a.handle_phase2a(Phase2a { src: 2, slot: 10, round: 6, command_batch_or_noop: batch(&[2]) }) {
        Phase2aReply::Phase2b(p) => {
            assert_eq!(p.acceptor_index, 2);
            assert_eq!(p.slot, 10);
            assert_eq!(p.round, 6);
        }
        _ => panic!("expected a vote"),
    }
    assert_eq!(a.round, 6);
}

#[test]
fn proxy_leader_chooses_on_majority() {
    let mut p = ProxyLeader::with(3);
    assert_eq!(p.majority, 2);
    let p2a = Phase2a { src: 1, slot: 7, round: 2, command_batch_or_noop: batch(&[5]) };
    assert!(p.handle_phase2a(p2a).is_some());
    let again = Phase2a { src: 1, slot: 7, round: 2, command_batch_or_noop: batch(&[5]) };
    assert!(p.handle_phase2a(again).is_none());
    assert!(p.handle_phase2b(Phase2b { acceptor_index: 1, slot: 7, round: 2 }).is_none());
    assert!(p.handle_phase2b(Phase2b { acceptor_index: 1, slot: 7, round: 2 }).is_none());
    let chosen = p.handle_phase2b(Phase2b { acceptor_index: 3, slot: 7, round: 2 });
    match chosen {
        Some(c) => {
            assert_eq!(c.slot, 7);
            assert_eq!(batch_bytes(&Some(c.command_batch_or_noop)), Some(vec![vec![5]]));
        }
        None => panic!("a majority voted"),
    }
    assert!(p.handle_phase2b(Phase2b { acceptor_index: 2, slot: 7, round: 2 }).is_none());
    assert!(p.handle_phase2b(Phase2b { acceptor_index: 2, slot: 8, round: 2 }).is_none());
}

#[test]
fn safe_value_takes_the_highest_vote() {
    let ps = vec![
        Phase1b {
            acceptor_index: 1,
            round: 4,
            info: vec![Phase1bSlotInfo { slot: 3, vote_round: 1, vote_value: batch(&[1]) }],
        },
        Phase1b {
            acceptor_index: 2,
            round: 4,
            info: vec![Phase1bSlotInfo { slot: 3, vote_round: 2, vote_value: batch(&[2]) }],
        },
        Phase1b { acceptor_index: 3, round: 4, info: vec![] },
    ];
    assert_eq!(batch_bytes(&Some(safe_value(&ps, 3))), Some(vec![vec![2]]));
    match safe_value(&ps, 4) {
        CommandBatchOrNoop::Noop => {}
        _ => panic!("nobody voted in slot 4"),
    }
}

fn replica_options() -> ReplicaOptions {
    ReplicaOptions {
        log_grow_size: 4,
        send_chosen_watermark_every_n_entries: 2,
        recover_log_entry_min_period: 10,
        recover_log_entry_max_period: 20,
    }
}

#[test]
fn replica_executes_in_slot_order() {
    let mut r = Replica::with(1, replica_options(), 2, 1);
    let out = r.handle_chosen(Chosen { slot: 1, command_batch_or_noop: batch(&[11]) });
    assert!(out.replies.is_empty());
    assert_eq!(r.executed_watermark, 0);
    assert!(out.timer == TimerAction::Start);
    let out = r.handle_chosen(Chosen { slot: 0, command_batch_or_noop: batch(&[10]) });
    assert_eq!(r.executed_watermark, 2);
    let data: Vec<Vec<u8>> = out.replies.iter().map(|p| p.data.clone()).collect();
    assert_eq!(data, vec![vec![10], vec![11]]);
    assert_eq!(out.chosen_watermarks, vec![2]);
    assert!(out.timer == TimerAction::Stop);
    let out = r.handle_chosen(Chosen { slot: 0, command_batch_or_noop: batch(&[99]) });
    assert!(out.replies.is_empty());
    assert_eq!(r.num_chosen, 2);
}

#[test]
fn batcher_flushes_to_the_leader() {
    let mut b = Batcher::with(1, 3);
    assert!(b.flush().is_none());
    b.receive_local(Proposal::with(vec![1]));
    b.receive_local(Proposal::with(vec![2]));
    match b.flush() {
        Some((leader, batch)) => {
            assert_eq!(leader, 3);
            assert_eq!(batch.len(), 2);
            assert_eq!(batch[1].data, vec![2]);
        }
        None => panic!("two proposals wait"),
    }
    assert!(b.flush().is_none());
    assert_eq!(b.handle_not_leader_batcher(vec![Proposal::with(vec![3])]), 1);
    assert!(b.handle_leader_info(0).is_none());
    match b.handle_leader_info(4) {
        Some((leader, batches)) => {
            assert_eq!(leader, 1);
            assert_eq!(batches.len(), 1);
        }
        None => panic!("the leader changed"),
    }
    assert_eq!(b.round, 4);
}

#[test]
fn options_from_the_election_timeout() {
    let c = MultiPaxosConfig {
        timeout_delta_factor: 4,
        resend_phase1as_period: 30,
        noop_flush_period: 40,
        log_grow_size: 100,
        send_chosen_watermark_every_n_entries: 5,
        recover_log_entry_factor: 3,
        ping_period_factor: 10,
    };
    let (e, l, r) = create_options(1000, &c);
    assert_eq!(e.ping_period, 100);
    assert_eq!(e.timeout_min, 750);
    assert_eq!(e.timeout_max, 1250);
    assert_eq!(l.resend_phase1as_period, 30);
    assert_eq!(l.noop_flush_period, 40);
    assert_eq!(r.log_grow_size, 100);
    assert_eq!(r.recover_log_entry_min_period, 3000);
    assert_eq!(r.recover_log_entry_max_period, 6000);
}

#[test]
fn command_and_slot_info_codecs_roundtrip() {
    let mut buf = Vec::new();
    serialise_command_batch_or_noop(&batch(&[1, 2]), &mut buf);
    assert_eq!(buf, vec![1, 0, 0, 0, 2, 0, 0, 0, 1, 1, 0, 0, 0, 1, 2]);
    let mut r = Reader::new(&buf);
    assert_eq!(batch_bytes(&Some(deserialise_command_batch_or_noop(&mut r))), Some(vec![vec![1], vec![2]]));
    let info = Phase1bSlotInfo { slot: 9, vote_round: 3, vote_value: CommandBatchOrNoop::Noop };
    let mut buf = Vec::new();
    serialise_phase1b_slot_info(&info, &mut buf);
    let mut r = Reader::new(&buf);
    let back = deserialise_phase1b_slot_info(&mut r);
    assert_eq!(back.slot, 9);
    assert_eq!(back.vote_round, 3);
    assert!(matches!(back.vote_value, CommandBatchOrNoop::Noop));
    assert_eq!(r.remaining(), 0);
}

#[test]
fn leader_inbound_codec_roundtrip_and_unknown_tag() {
    let msg = LeaderInbound::LeaderInfoRequestBatcher(42);
    let mut buf = Vec::new();
    msg.serialise(&mut buf).unwrap();
    let mut r = Reader::new(&buf);
    match LeaderInboundSer::deserialise(&mut r) {
        Ok(LeaderInbound::LeaderInfoRequestBatcher(src)) => assert_eq!(src, 42),
        _ => panic!("should read back"),
    }
    let bad = vec![200u8];
    let mut r = Reader::new(&bad);
    match LeaderInboundSer::deserialise(&mut r) {
        Err(SerError::InvalidType(t)) => assert_eq!(t, 200),
        _ => panic!("unknown tag"),
    }
}

#[test]
fn replica_recovery_requests() {
    let o = replica_options();
    for _ in 0..20 {
        let ms = o.get_random_timeout_period();
        assert!((10..20).contains(&ms));
    }
    let mut r = Replica::with(1, replica_options(), 2, 1);
    r.handle_chosen(Chosen { slot: 0, command_batch_or_noop: CommandBatchOrNoop::Noop });
    assert_eq!(r.recover().slot, 1);
}

fn leader_options() -> LeaderOptions {
    LeaderOptions { resend_phase1as_period: 10, noop_flush_period: 10 }
}

#[test]
fn leader_is_elected_only_by_promises_of_its_round() {
    let mut l = Leader::with(3, leader_options(), 3);
    assert!(l.state == LeaderState::Phase1);
    let r = l.round;
    assert!(l.handle_phase1b(Phase1b { acceptor_index: 1, round: r, info: vec![] }).is_none());
    assert_eq!(l.phase1bs.len(), 1);
    // A promise of another round is not counted.
    assert!(l.handle_phase1b(Phase1b { acceptor_index: 2, round: r + 7, info: vec![] }).is_none());
    assert_eq!(l.phase1bs.len(), 1);
    // A nack for a later round restarts Phase 1 in a round above it and drops the promises.
    let change = l.handle_nack(Nack { round: r + 1 }).unwrap_or_else(|| panic!("restarts"));
    assert!(l.state == LeaderState::Phase1);
    assert!(l.round > r + 1);
    assert_eq!(l.round % 3, r % 3);
    assert_eq!(l.phase1bs.len(), 0);
    assert!(l.pending_client_request_batches.is_empty());
    let phase1a = change.phase1a.unwrap_or_else(|| panic!("phase1a"));
    assert_eq!(phase1a.round, l.round);
    assert_eq!(phase1a.src, 3);
    assert!(change.stop_resend_phase1as);
    // The promise given in the old round no longer counts towards a majority.
    let new_round = l.round;
    assert!(l.handle_phase1b(Phase1b { acceptor_index: 2, round: new_round, info: vec![] }).is_none());
    let elected = l.handle_phase1b(Phase1b { acceptor_index: 3, round: new_round, info: vec![] });
    assert!(elected.is_some());
    assert!(l.state == LeaderState::Phase2);
}

#[test]
fn participant_refuses_duplicate_stops() {
    let opts = ElectionOptions { ping_period: 10, timeout_min: 20, timeout_max: 40 };
    let mut p = Participant::with(2, 1, 1, opts);
    assert_eq!(p.handle_peer_stop(2), Some(false));
    assert_eq!(p.handle_peer_stop(2), None);
    let (_, reply_now) = p.stop(1);
    assert!(!reply_now);
    assert_eq!(p.handle_peer_stop(3), Some(true));
    assert!(!p.stops.ask_pending);
}
