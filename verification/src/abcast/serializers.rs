//! Wire formats of the client, stop, partitioning and leader-election
//! messages: a tag byte, then big-endian fields; byte strings and node lists
//! carry a `u32` count.
use vstd::prelude::*;
use crate::abcast::ble::{Ballot, HeartbeatMsg, HeartbeatReply, HeartbeatRequest, VRMsg};
use crate::abcast::messages::{
    AtomicBroadcastMsg, AtomicBroadcastMsgView, PartitioningExpMsg, PartitioningExpMsgView, Ping,
    Proposal, ProposalResp, ReconfigurationProposal, ReconfigurationResp, RespView, StopMsg,
};
use crate::experiment::ReconfigurationPolicy;
use crate::multipaxos::serializers::{Taken, lift};
use crate::wire::{
    Reader, SerError, blob_bytes, get_u64_list, lemma_take_blob, lemma_take_list, lemma_take_u32,
    lemma_take_u64, lemma_take_u8, list_bytes, put_blob, put_u32, put_u64, put_u64_list, put_u8,
    take_blob, take_list, take_u32, take_u64, take_u64_item, take_u8, u32_bytes, u64_bytes,
    u64_item,
};

verus! {

pub const PROPOSAL_ID: u8 = 1;
pub const PROPOSALRESP_ID: u8 = 2;
pub const LEADER_ID: u8 = 3;
pub const RECONFIGPROP_ID: u8 = 4;
pub const RECONFIGRESP_ID: u8 = 5;

pub const REPLACELEADER_ID: u8 = 1;
pub const REPLACEFOLLOWER_ID: u8 = 2;

pub const PEER_STOP_ID: u8 = 1;
pub const CLIENT_STOP_ID: u8 = 2;

pub const DISCONNECT_ID: u8 = 1;
pub const RECOVER_ID: u8 = 2;

pub const HB_REQ_ID: u8 = 1;
pub const HB_REP_ID: u8 = 2;

pub const START_VIEWCHANGE_ID: u8 = 1;
pub const DO_VIEWCHANGE_ID: u8 = 2;

/// Serialisation ids of these messages.
pub const BLE_ID: u64 = 58;
pub const ATOMICBCAST_ID: u64 = 59;
pub const STOP_ID: u64 = 63;
pub const PARTITIONING_EXP_ID: u64 = 64;
pub const VR_ID: u64 = 65;
pub const MP_PARTICIPANT_ID: u64 = 72;

pub struct AtomicBroadcastDeser;

pub struct StopMsgDeser;

pub struct PartitioningExpMsgDeser;

pub struct BallotLeaderSer;

pub struct VRDeser;

pub struct MPLeaderSer;

/* ---------------------------------------------------------------------- */
/* The formats.                                                           */
/* ---------------------------------------------------------------------- */

pub open spec fn u64_list_bytes(xs: Seq<u64>) -> Seq<u8> {
    list_bytes(xs, |x: u64| u64_item(x))
}

pub open spec fn take_u64_list(s: Seq<u8>) -> Option<(Seq<u64>, Seq<u8>)> {
    take_list(s, |s: Seq<u8>| take_u64_item(s))
}

pub open spec fn policy_byte(p: ReconfigurationPolicy) -> u8 {
    match p {
        ReconfigurationPolicy::ReplaceFollower => REPLACEFOLLOWER_ID,
        ReconfigurationPolicy::ReplaceLeader => REPLACELEADER_ID,
    }
}

pub open spec fn ab_fits(m: AtomicBroadcastMsgView) -> bool {
    match m {
        AtomicBroadcastMsgView::Proposal(d) => d.len() <= u32::MAX,
        AtomicBroadcastMsgView::ReconfigurationProposal(_, ns) => ns.len() <= u32::MAX,
        AtomicBroadcastMsgView::ProposalResp(r) => r.data.len() <= u32::MAX,
        AtomicBroadcastMsgView::ReconfigurationResp(_, _, c) => c.len() <= u32::MAX,
        AtomicBroadcastMsgView::Leader(_, _) => true,
    }
}

pub open spec fn ab_bytes(m: AtomicBroadcastMsgView) -> Seq<u8> {
    match m {
        AtomicBroadcastMsgView::Proposal(d) => seq![PROPOSAL_ID] + blob_bytes(d),
        AtomicBroadcastMsgView::ReconfigurationProposal(p, ns) => seq![RECONFIGPROP_ID, policy_byte(p)]
            + u64_list_bytes(ns),
        AtomicBroadcastMsgView::ProposalResp(r) => seq![PROPOSALRESP_ID] + u64_bytes(r.latest_leader)
            + u64_bytes(r.leader_round) + blob_bytes(r.data),
        AtomicBroadcastMsgView::ReconfigurationResp(l, r, c) => seq![RECONFIGRESP_ID] + u64_bytes(l)
            + u64_bytes(r) + u64_list_bytes(c),
        AtomicBroadcastMsgView::Leader(pid, round) => seq![LEADER_ID] + u64_bytes(pid) + u64_bytes(
            round,
        ),
    }
}

/// Reads a client message: `None` where the bytes end early, `Some(Err(t))`
/// for an unknown tag or reconfiguration policy `t`.
pub open spec fn take_ab(s: Seq<u8>) -> Taken<AtomicBroadcastMsgView> {
    match take_u8(s) {
        None => None,
        Some((t, s1)) => if t == PROPOSAL_ID {
            match take_blob(s1) {
                Some((d, s2)) => lift(Some((AtomicBroadcastMsgView::Proposal(d), s2))),
                None => None,
            }
        } else if t == RECONFIGPROP_ID {
            match take_u8(s1) {
                None => None,
                Some((pb, s2)) => if pb != REPLACEFOLLOWER_ID && pb != REPLACELEADER_ID {
                    Some(Err(pb))
                } else {
                    let p = if pb == REPLACEFOLLOWER_ID {
                        ReconfigurationPolicy::ReplaceFollower
                    } else {
                        ReconfigurationPolicy::ReplaceLeader
                    };
                    match take_u64_list(s2) {
                        Some((ns, s3)) => lift(
                            Some((AtomicBroadcastMsgView::ReconfigurationProposal(p, ns), s3)),
                        ),
                        None => None,
                    }
                },
            }
        } else if t == PROPOSALRESP_ID {
            match take_u64(s1) {
                None => None,
                Some((l, s2)) => match take_u64(s2) {
                    None => None,
                    Some((r, s3)) => match take_blob(s3) {
                        None => None,
                        Some((d, s4)) => lift(
                            Some(
                                (
                                    AtomicBroadcastMsgView::ProposalResp(
                                        RespView { data: d, latest_leader: l, leader_round: r },
                                    ),
                                    s4,
                                ),
                            ),
                        ),
                    },
                },
            }
        } else if t == LEADER_ID {
            match take_u64(s1) {
                None => None,
                Some((pid, s2)) => match take_u64(s2) {
                    None => None,
                    Some((round, s3)) => lift(Some((AtomicBroadcastMsgView::Leader(pid, round), s3))),
                },
            }
        } else if t == RECONFIGRESP_ID {
            match take_u64(s1) {
                None => None,
                Some((l, s2)) => match take_u64(s2) {
                    None => None,
                    Some((r, s3)) => match take_u64_list(s3) {
                        None => None,
                        Some((c, s4)) => lift(
                            Some((AtomicBroadcastMsgView::ReconfigurationResp(l, r, c), s4)),
                        ),
                    },
                },
            }
        } else {
            Some(Err(t))
        },
    }
}

pub open spec fn stop_bytes(m: StopMsg) -> Seq<u8> {
    match m {
        StopMsg::Peer(pid) => seq![PEER_STOP_ID] + u64_bytes(pid),
        StopMsg::Client => seq![CLIENT_STOP_ID],
    }
}

pub open spec fn take_stop(s: Seq<u8>) -> Taken<StopMsg> {
    match take_u8(s) {
        None => None,
        Some((t, s1)) => if t == PEER_STOP_ID {
            match take_u64(s1) {
                Some((pid, s2)) => lift(Some((StopMsg::Peer(pid), s2))),
                None => None,
            }
        } else if t == CLIENT_STOP_ID {
            lift(Some((StopMsg::Client, s1)))
        } else {
            Some(Err(t))
        },
    }
}

pub open spec fn partitioning_bytes(m: PartitioningExpMsgView) -> Seq<u8> {
    match m {
        PartitioningExpMsgView::DisconnectPeers(peers, delay, lagging) => seq![
            DISCONNECT_ID,
            if delay {
                1u8
            } else {
                0u8
            },
        ] + u64_list_bytes(peers) + u64_bytes(
            match lagging {
                Some(lp) => lp,
                None => 0,
            },
        ),
        PartitioningExpMsgView::RecoverPeers => seq![RECOVER_ID],
    }
}

/// Reads a partitioning step; a lagging peer of 0 reads as none.
pub open spec fn take_partitioning(s: Seq<u8>) -> Taken<PartitioningExpMsgView> {
    match take_u8(s) {
        None => None,
        Some((t, s1)) => if t == DISCONNECT_ID {
            match take_u8(s1) {
                None => None,
                Some((d, s2)) => match take_u64_list(s2) {
                    None => None,
                    Some((peers, s3)) => match take_u64(s3) {
                        None => None,
                        Some((dp, s4)) => lift(
                            Some(
                                (
                                    PartitioningExpMsgView::DisconnectPeers(
                                        peers,
                                        d > 0,
                                        if dp > 0 {
                                            Some(dp)
                                        } else {
                                            None
                                        },
                                    ),
                                    s4,
                                ),
                            ),
                        ),
                    },
                },
            }
        } else if t == RECOVER_ID {
            lift(Some((PartitioningExpMsgView::RecoverPeers, s1)))
        } else {
            Some(Err(t))
        },
    }
}

pub open spec fn ping_bytes(p: Ping) -> Seq<u8> {
    u64_bytes(p.round) + u64_bytes(p.leader_index)
}

pub open spec fn take_ping(s: Seq<u8>) -> Option<(Ping, Seq<u8>)> {
    match take_u64(s) {
        None => None,
        Some((round, s1)) => match take_u64(s1) {
            None => None,
            Some((leader_index, s2)) => Some((Ping { round, leader_index }, s2)),
        },
    }
}

pub open spec fn heartbeat_bytes(m: HeartbeatMsg) -> Seq<u8> {
    match m {
        HeartbeatMsg::Request(req) => seq![HB_REQ_ID] + u32_bytes(req.round),
        HeartbeatMsg::Reply(rep) => seq![HB_REP_ID] + u32_bytes(rep.round) + u32_bytes(rep.ballot.n)
            + u64_bytes(rep.ballot.pid) + seq![
            if rep.candidate {
                1u8
            } else {
                0u8
            },
        ],
    }
}

pub open spec fn take_heartbeat(s: Seq<u8>) -> Taken<HeartbeatMsg> {
    match take_u8(s) {
        None => None,
        Some((t, s1)) => if t == HB_REQ_ID {
            match take_u32(s1) {
                Some((round, s2)) => lift(
                    Some((HeartbeatMsg::Request(HeartbeatRequest { round }), s2)),
                ),
                None => None,
            }
        } else if t == HB_REP_ID {
            match take_u32(s1) {
                None => None,
                Some((round, s2)) => match take_u32(s2) {
                    None => None,
                    Some((n, s3)) => match take_u64(s3) {
                        None => None,
                        Some((pid, s4)) => match take_u8(s4) {
                            None => None,
                            Some((c, s5)) => lift(
                                Some(
                                    (
                                        HeartbeatMsg::Reply(
                                            HeartbeatReply {
                                                round,
                                                ballot: Ballot { n, pid },
                                                candidate: c >= 1,
                                            },
                                        ),
                                        s5,
                                    ),
                                ),
                            ),
                        },
                    },
                },
            }
        } else {
            Some(Err(t))
        },
    }
}

pub open spec fn vr_bytes(m: VRMsg) -> Seq<u8> {
    match m {
        VRMsg::StartViewChange(b, from) => seq![START_VIEWCHANGE_ID] + u32_bytes(b.n) + u64_bytes(
            b.pid,
        ) + u64_bytes(from),
        VRMsg::DoViewChange(b, from) => seq![DO_VIEWCHANGE_ID] + u32_bytes(b.n) + u64_bytes(b.pid)
            + u64_bytes(from),
    }
}

pub open spec fn take_vr(s: Seq<u8>) -> Taken<VRMsg> {
    match take_u8(s) {
        None => None,
        Some((t, s1)) => if t == START_VIEWCHANGE_ID || t == DO_VIEWCHANGE_ID {
            match take_u32(s1) {
                None => None,
                Some((n, s2)) => match take_u64(s2) {
                    None => None,
                    Some((pid, s3)) => match take_u64(s3) {
                        None => None,
                        Some((from, s4)) => lift(
                            Some(
                                (
                                    if t == START_VIEWCHANGE_ID {
                                        VRMsg::StartViewChange(Ballot { n, pid }, from)
                                    } else {
                                        VRMsg::DoViewChange(Ballot { n, pid }, from)
                                    },
                                    s4,
                                ),
                            ),
                        ),
                    },
                },
            }
        } else {
            Some(Err(t))
        },
    }
}

/* ---------------------------------------------------------------------- */
/* What is written reads back as itself.                                  */
/* ---------------------------------------------------------------------- */

pub proof fn lemma_take_u64_list(xs: Seq<u64>, rest: Seq<u8>)
    requires
        xs.len() <= u32::MAX,
    ensures
        take_u64_list(u64_list_bytes(xs) + rest) == Some((xs, rest)),
{
    let f = |x: u64| u64_item(x);
    let p = |s: Seq<u8>| take_u64_item(s);
    assert forall|i: int, r: Seq<u8>| 0 <= i < xs.len() implies #[trigger] p(f(xs[i]) + r) == Some(
        (xs[i], r),
    ) by {
        lemma_take_u64(xs[i], r);
    }
    lemma_take_list(xs, rest, f, p);
}

proof fn lemma_ab_proposal_roundtrip(d: Seq<u8>, rest: Seq<u8>)
    requires
        d.len() <= u32::MAX,
    ensures
        take_ab(ab_bytes(AtomicBroadcastMsgView::Proposal(d)) + rest) == lift(
            Some((AtomicBroadcastMsgView::Proposal(d), rest)),
        ),
{
    let m = AtomicBroadcastMsgView::Proposal(d);
    assert(ab_bytes(m) + rest =~= seq![PROPOSAL_ID] + (blob_bytes(d) + rest));
    lemma_take_u8(PROPOSAL_ID, blob_bytes(d) + rest);
    lemma_take_blob(d, rest);
}

proof fn lemma_ab_reconfig_proposal_roundtrip(p: ReconfigurationPolicy, ns: Seq<u64>, rest: Seq<u8>)
    requires
        ns.len() <= u32::MAX,
    ensures
        take_ab(ab_bytes(AtomicBroadcastMsgView::ReconfigurationProposal(p, ns)) + rest) == lift(
            Some((AtomicBroadcastMsgView::ReconfigurationProposal(p, ns), rest)),
        ),
{
    let m = AtomicBroadcastMsgView::ReconfigurationProposal(p, ns);
    let r2 = u64_list_bytes(ns) + rest;
    let r1 = seq![policy_byte(p)] + r2;
    assert(ab_bytes(m) + rest =~= seq![RECONFIGPROP_ID] + r1);
    lemma_take_u8(RECONFIGPROP_ID, r1);
    lemma_take_u8(policy_byte(p), r2);
    lemma_take_u64_list(ns, rest);
}

proof fn lemma_ab_resp_roundtrip(r: RespView, rest: Seq<u8>)
    requires
        r.data.len() <= u32::MAX,
    ensures
        take_ab(ab_bytes(AtomicBroadcastMsgView::ProposalResp(r)) + rest) == lift(
            Some((AtomicBroadcastMsgView::ProposalResp(r), rest)),
        ),
{
    let m = AtomicBroadcastMsgView::ProposalResp(r);
    let r3 = blob_bytes(r.data) + rest;
    let r2 = u64_bytes(r.leader_round) + r3;
    let r1 = u64_bytes(r.latest_leader) + r2;
    assert(ab_bytes(m) + rest =~= seq![PROPOSALRESP_ID] + r1);
    lemma_take_u8(PROPOSALRESP_ID, r1);
    lemma_take_u64(r.latest_leader, r2);
    lemma_take_u64(r.leader_round, r3);
    lemma_take_blob(r.data, rest);
}

proof fn lemma_ab_reconfig_resp_roundtrip(l: u64, r: u64, c: Seq<u64>, rest: Seq<u8>)
    requires
        c.len() <= u32::MAX,
    ensures
        take_ab(ab_bytes(AtomicBroadcastMsgView::ReconfigurationResp(l, r, c)) + rest) == lift(
            Some((AtomicBroadcastMsgView::ReconfigurationResp(l, r, c), rest)),
        ),
{
    let m = AtomicBroadcastMsgView::ReconfigurationResp(l, r, c);
    let r3 = u64_list_bytes(c) + rest;
    let r2 = u64_bytes(r) + r3;
    let r1 = u64_bytes(l) + r2;
    assert(ab_bytes(m) + rest =~= seq![RECONFIGRESP_ID] + r1);
    lemma_take_u8(RECONFIGRESP_ID, r1);
    lemma_take_u64(l, r2);
    lemma_take_u64(r, r3);
    lemma_take_u64_list(c, rest);
}

proof fn lemma_ab_leader_roundtrip(pid: u64, round: u64, rest: Seq<u8>)
    ensures
        take_ab(ab_bytes(AtomicBroadcastMsgView::Leader(pid, round)) + rest) == lift(
            Some((AtomicBroadcastMsgView::Leader(pid, round), rest)),
        ),
{
    let m = AtomicBroadcastMsgView::Leader(pid, round);
    let r2 = u64_bytes(round) + rest;
    let r1 = u64_bytes(pid) + r2;
    assert(ab_bytes(m) + rest =~= seq![LEADER_ID] + r1);
    lemma_take_u8(LEADER_ID, r1);
    lemma_take_u64(pid, r2);
    lemma_take_u64(round, rest);
}

/// Every client message reads back as itself.
pub proof fn lemma_ab_roundtrip(m: AtomicBroadcastMsgView, rest: Seq<u8>)
    requires
        ab_fits(m),
    ensures
        take_ab(ab_bytes(m) + rest) == lift(Some((m, rest))),
{
    match m {
        AtomicBroadcastMsgView::Proposal(d) => lemma_ab_proposal_roundtrip(d, rest),
        AtomicBroadcastMsgView::ReconfigurationProposal(p, ns) => lemma_ab_reconfig_proposal_roundtrip(
            p,
            ns,
            rest,
        ),
        AtomicBroadcastMsgView::ProposalResp(r) => lemma_ab_resp_roundtrip(r, rest),
        AtomicBroadcastMsgView::ReconfigurationResp(l, r, c) => lemma_ab_reconfig_resp_roundtrip(
            l,
            r,
            c,
            rest,
        ),
        AtomicBroadcastMsgView::Leader(pid, round) => lemma_ab_leader_roundtrip(pid, round, rest),
    }
}

/// Every stop message reads back as itself.
pub proof fn lemma_stop_roundtrip(m: StopMsg, rest: Seq<u8>)
    ensures
        take_stop(stop_bytes(m) + rest) == lift(Some((m, rest))),
{
    match m {
        StopMsg::Peer(pid) => {
            assert(stop_bytes(m) + rest =~= seq![PEER_STOP_ID] + (u64_bytes(pid) + rest));
            lemma_take_u8(PEER_STOP_ID, u64_bytes(pid) + rest);
            lemma_take_u64(pid, rest);
        },
        StopMsg::Client => {
            lemma_take_u8(CLIENT_STOP_ID, rest);
        },
    }
}

/// Every partitioning step reads back as itself, but for a lagging peer 0,
/// which reads back as none.
pub proof fn lemma_partitioning_roundtrip(m: PartitioningExpMsgView, rest: Seq<u8>)
    requires
        m matches PartitioningExpMsgView::DisconnectPeers(peers, _, lagging) ==> peers.len()
            <= u32::MAX && lagging != Some(0u64),
    ensures
        take_partitioning(partitioning_bytes(m) + rest) == lift(Some((m, rest))),
{
    match m {
        PartitioningExpMsgView::DisconnectPeers(peers, delay, lagging) => {
            let d: u8 = if delay {
                1
            } else {
                0
            };
            let lp: u64 = match lagging {
                Some(x) => x,
                None => 0,
            };
            let r3 = u64_bytes(lp) + rest;
            let r2 = u64_list_bytes(peers) + r3;
            let r1 = seq![d] + r2;
            assert(partitioning_bytes(m) + rest =~= seq![DISCONNECT_ID] + r1);
            lemma_take_u8(DISCONNECT_ID, r1);
            lemma_take_u8(d, r2);
            lemma_take_u64_list(peers, r3);
            lemma_take_u64(lp, rest);
        },
        PartitioningExpMsgView::RecoverPeers => {
            lemma_take_u8(RECOVER_ID, rest);
        },
    }
}

/// Every ping reads back as itself.
pub proof fn lemma_ping_roundtrip(p: Ping, rest: Seq<u8>)
    ensures
        take_ping(ping_bytes(p) + rest) == Some((p, rest)),
{
    assert(ping_bytes(p) + rest =~= u64_bytes(p.round) + (u64_bytes(p.leader_index) + rest));
    lemma_take_u64(p.round, u64_bytes(p.leader_index) + rest);
    lemma_take_u64(p.leader_index, rest);
}

proof fn lemma_heartbeat_reply_roundtrip(rep: HeartbeatReply, rest: Seq<u8>)
    ensures
        take_heartbeat(heartbeat_bytes(HeartbeatMsg::Reply(rep)) + rest) == lift(
            Some((HeartbeatMsg::Reply(rep), rest)),
        ),
{
    let c: u8 = if rep.candidate {
        1
    } else {
        0
    };
    let r4 = seq![c] + rest;
    let r3 = u64_bytes(rep.ballot.pid) + r4;
    let r2 = u32_bytes(rep.ballot.n) + r3;
    let r1 = u32_bytes(rep.round) + r2;
    assert(heartbeat_bytes(HeartbeatMsg::Reply(rep)) + rest =~= seq![HB_REP_ID] + r1);
    lemma_take_u8(HB_REP_ID, r1);
    lemma_take_u32(rep.round, r2);
    lemma_take_u32(rep.ballot.n, r3);
    lemma_take_u64(rep.ballot.pid, r4);
    lemma_take_u8(c, rest);
}

/// Every heartbeat reads back as itself.
pub proof fn lemma_heartbeat_roundtrip(m: HeartbeatMsg, rest: Seq<u8>)
    ensures
        take_heartbeat(heartbeat_bytes(m) + rest) == lift(Some((m, rest))),
{
    match m {
        HeartbeatMsg::Request(req) => {
            assert(heartbeat_bytes(m) + rest =~= seq![HB_REQ_ID] + (u32_bytes(req.round) + rest));
            lemma_take_u8(HB_REQ_ID, u32_bytes(req.round) + rest);
            lemma_take_u32(req.round, rest);
        },
        HeartbeatMsg::Reply(rep) => lemma_heartbeat_reply_roundtrip(rep, rest),
    }
}

/// Every view-change message reads back as itself.
pub proof fn lemma_vr_roundtrip(m: VRMsg, rest: Seq<u8>)
    ensures
        take_vr(vr_bytes(m) + rest) == lift(Some((m, rest))),
{
    let (t, b, from) = match m {
        VRMsg::StartViewChange(b, from) => (START_VIEWCHANGE_ID, b, from),
        VRMsg::DoViewChange(b, from) => (DO_VIEWCHANGE_ID, b, from),
    };
    let r3 = u64_bytes(from) + rest;
    let r2 = u64_bytes(b.pid) + r3;
    let r1 = u32_bytes(b.n) + r2;
    assert(vr_bytes(m) + rest =~= seq![t] + r1);
    lemma_take_u8(t, r1);
    lemma_take_u32(b.n, r2);
    lemma_take_u64(b.pid, r3);
    lemma_take_u64(from, rest);
}

/* ---------------------------------------------------------------------- */
/* Writing and reading.                                                   */
/* ---------------------------------------------------------------------- */

impl AtomicBroadcastMsg {
    pub fn ser_id(&self) -> (id: u64)
        ensures
            id == ATOMICBCAST_ID,
    {
        ATOMICBCAST_ID
    }

    pub fn size_hint(&self) -> (h: Option<usize>)
        ensures
            h is None,
    {
        None
    }

    /// Writes this message in the client format.
    pub fn serialise(&self, buf: &mut Vec<u8>) -> (res: Result<(), SerError>)
        requires
            ab_fits(self@),
        ensures
            res is Ok,
            final(buf)@ == old(buf)@ + ab_bytes(self@),
    {
        match self {
            AtomicBroadcastMsg::Proposal(p) => {
                put_u8(buf, PROPOSAL_ID);
                put_blob(buf, p.data.as_slice());
            },
            AtomicBroadcastMsg::ReconfigurationProposal(rp) => {
                put_u8(buf, RECONFIGPROP_ID);
                match rp.policy {
                    ReconfigurationPolicy::ReplaceFollower => put_u8(buf, REPLACEFOLLOWER_ID),
                    ReconfigurationPolicy::ReplaceLeader => put_u8(buf, REPLACELEADER_ID),
                }
                put_u64_list(buf, &rp.new_nodes);
            },
            AtomicBroadcastMsg::ProposalResp(pr) => {
                put_u8(buf, PROPOSALRESP_ID);
                put_u64(buf, pr.latest_leader);
                put_u64(buf, pr.leader_round);
                put_blob(buf, pr.data.as_slice());
            },
            AtomicBroadcastMsg::ReconfigurationResp(rr) => {
                put_u8(buf, RECONFIGRESP_ID);
                put_u64(buf, rr.latest_leader);
                put_u64(buf, rr.leader_round);
                put_u64_list(buf, &rr.current_configuration);
            },
            AtomicBroadcastMsg::Leader(pid, round) => {
                put_u8(buf, LEADER_ID);
                put_u64(buf, *pid);
                put_u64(buf, *round);
            },
        }
        assert(buf@ =~= old(buf)@ + ab_bytes(self@));
        Ok(())
    }
}

impl AtomicBroadcastDeser {
    pub const SER_ID: u64 = ATOMICBCAST_ID;

    /// Reads a client message; an unknown tag or policy is an `InvalidType` error.
    pub fn deserialise(buf: &mut Reader) -> (res: Result<AtomicBroadcastMsg, SerError>)
        requires
            old(buf).wf(),
            take_ab(old(buf).rest()) is Some,
        ensures
            final(buf).wf(),
            final(buf).data == old(buf).data,
            match res {
                Ok(m) => take_ab(old(buf).rest()) == lift(Some((m@, final(buf).rest()))),
                Err(SerError::InvalidType(t)) => take_ab(old(buf).rest()) == Some(
                    Err::<(AtomicBroadcastMsgView, Seq<u8>), u8>(t),
                ),
            },
    {
        let t = buf.get_u8();
        if t == PROPOSAL_ID {
            let data = buf.get_blob();
            Ok(AtomicBroadcastMsg::Proposal(Proposal { data }))
        } else if t == RECONFIGPROP_ID {
            let pb = buf.get_u8();
            let policy = if pb == REPLACEFOLLOWER_ID {
                ReconfigurationPolicy::ReplaceFollower
            } else if pb == REPLACELEADER_ID {
                ReconfigurationPolicy::ReplaceLeader
            } else {
                return Err(SerError::InvalidType(pb));
            };
            let new_nodes = get_u64_list(buf);
            Ok(AtomicBroadcastMsg::ReconfigurationProposal(ReconfigurationProposal { policy, new_nodes }))
        } else if t == PROPOSALRESP_ID {
            let latest_leader = buf.get_u64();
            let leader_round = buf.get_u64();
            let data = buf.get_blob();
            Ok(AtomicBroadcastMsg::ProposalResp(ProposalResp { data, latest_leader, leader_round }))
        } else if t == LEADER_ID {
            let pid = buf.get_u64();
            let round = buf.get_u64();
            Ok(AtomicBroadcastMsg::Leader(pid, round))
        } else if t == RECONFIGRESP_ID {
            let latest_leader = buf.get_u64();
            let leader_round = buf.get_u64();
            let current_configuration = get_u64_list(buf);
            Ok(
                AtomicBroadcastMsg::ReconfigurationResp(
                    ReconfigurationResp { latest_leader, leader_round, current_configuration },
                ),
            )
        } else {
            Err(SerError::InvalidType(t))
        }
    }
}

impl StopMsg {
    pub fn ser_id(&self) -> (id: u64)
        ensures
            id == STOP_ID,
    {
        STOP_ID
    }

    pub fn size_hint(&self) -> (h: Option<usize>)
        ensures
            h == Some(9usize),
    {
        Some(9)
    }

    pub fn serialise(&self, buf: &mut Vec<u8>) -> (res: Result<(), SerError>)
        ensures
            res is Ok,
            final(buf)@ == old(buf)@ + stop_bytes(*self),
    {
        match self {
            StopMsg::Peer(pid) => {
                put_u8(buf, PEER_STOP_ID);
                put_u64(buf, *pid);
            },
            StopMsg::Client => put_u8(buf, CLIENT_STOP_ID),
        }
        assert(buf@ =~= old(buf)@ + stop_bytes(*self));
        Ok(())
    }
}

impl StopMsgDeser {
    pub const SER_ID: u64 = STOP_ID;

    pub fn deserialise(buf: &mut Reader) -> (res: Result<StopMsg, SerError>)
        requires
            old(buf).wf(),
            take_stop(old(buf).rest()) is Some,
        ensures
            final(buf).wf(),
            final(buf).data == old(buf).data,
            match res {
                Ok(m) => take_stop(old(buf).rest()) == lift(Some((m, final(buf).rest()))),
                Err(SerError::InvalidType(t)) => take_stop(old(buf).rest()) == Some(
                    Err::<(StopMsg, Seq<u8>), u8>(t),
                ),
            },
    {
        let t = buf.get_u8();
        if t == PEER_STOP_ID {
            let pid = buf.get_u64();
            Ok(StopMsg::Peer(pid))
        } else if t == CLIENT_STOP_ID {
            Ok(StopMsg::Client)
        } else {
            Err(SerError::InvalidType(t))
        }
    }
}

impl PartitioningExpMsg {
    pub fn ser_id(&self) -> (id: u64)
        ensures
            id == PARTITIONING_EXP_ID,
    {
        PARTITIONING_EXP_ID
    }

    pub fn size_hint(&self) -> (h: Option<usize>)
        ensures
            h is None,
    {
        None
    }

    pub fn serialise(&self, buf: &mut Vec<u8>) -> (res: Result<(), SerError>)
        requires
            self@ matches PartitioningExpMsgView::DisconnectPeers(peers, _, _) ==> peers.len()
                <= u32::MAX,
        ensures
            res is Ok,
            final(buf)@ == old(buf)@ + partitioning_bytes(self@),
    {
        match self {
            PartitioningExpMsg::DisconnectPeers((peers, delay), lagging_peer) => {
                put_u8(buf, DISCONNECT_ID);
                if *delay {
                    put_u8(buf, 1);
                } else {
                    put_u8(buf, 0);
                }
                put_u64_list(buf, peers);
                match lagging_peer {
                    Some(lp) => put_u64(buf, *lp),
                    None => put_u64(buf, 0),
                }
            },
            PartitioningExpMsg::RecoverPeers => {
                put_u8(buf, RECOVER_ID);
            },
        }
        assert(buf@ =~= old(buf)@ + partitioning_bytes(self@));
        Ok(())
    }
}

impl PartitioningExpMsgDeser {
    pub const SER_ID: u64 = PARTITIONING_EXP_ID;

    pub fn deserialise(buf: &mut Reader) -> (res: Result<PartitioningExpMsg, SerError>)
        requires
            old(buf).wf(),
            take_partitioning(old(buf).rest()) is Some,
        ensures
            final(buf).wf(),
            final(buf).data == old(buf).data,
            match res {
                Ok(m) => take_partitioning(old(buf).rest()) == lift(Some((m@, final(buf).rest()))),
                Err(SerError::InvalidType(t)) => take_partitioning(old(buf).rest()) == Some(
                    Err::<(PartitioningExpMsgView, Seq<u8>), u8>(t),
                ),
            },
    {
        let t = buf.get_u8();
        if t == DISCONNECT_ID {
            let delay = buf.get_u8() > 0;
            let peers = get_u64_list(buf);
            let dp = buf.get_u64();
            let delayed_peer = if dp > 0 {
                Some(dp)
            } else {
                None
            };
            Ok(PartitioningExpMsg::DisconnectPeers((peers, delay), delayed_peer))
        } else if t == RECOVER_ID {
            Ok(PartitioningExpMsg::RecoverPeers)
        } else {
            Err(SerError::InvalidType(t))
        }
    }
}

impl Ping {
    pub fn ser_id(&self) -> (id: u64)
        ensures
            id == MP_PARTICIPANT_ID,
    {
        MP_PARTICIPANT_ID
    }

    pub fn size_hint(&self) -> (h: Option<usize>)
        ensures
            h is None,
    {
        None
    }

    pub fn serialise(&self, buf: &mut Vec<u8>) -> (res: Result<(), SerError>)
        ensures
            res is Ok,
            final(buf)@ == old(buf)@ + ping_bytes(*self),
    {
        put_u64(buf, self.round);
        put_u64(buf, self.leader_index);
        assert(buf@ =~= old(buf)@ + ping_bytes(*self));
        Ok(())
    }
}

impl MPLeaderSer {
    pub const SER_ID: u64 = MP_PARTICIPANT_ID;

    pub fn deserialise(buf: &mut Reader) -> (res: Result<Ping, SerError>)
        requires
            old(buf).wf(),
            take_ping(old(buf).rest()) is Some,
        ensures
            final(buf).wf(),
            final(buf).data == old(buf).data,
            res is Ok,
            take_ping(old(buf).rest()) == Some((res->Ok_0, final(buf).rest())),
    {
        let round = buf.get_u64();
        let leader_index = buf.get_u64();
        Ok(Ping { round, leader_index })
    }
}

impl HeartbeatMsg {
    pub fn ser_id(&self) -> (id: u64)
        ensures
            id == BLE_ID,
    {
        BLE_ID
    }

    pub fn size_hint(&self) -> (h: Option<usize>)
        ensures
            h == Some(55usize),
    {
        Some(55)
    }

    pub fn serialise(&self, buf: &mut Vec<u8>) -> (res: Result<(), SerError>)
        ensures
            res is Ok,
            final(buf)@ == old(buf)@ + heartbeat_bytes(*self),
    {
        match self {
            HeartbeatMsg::Request(req) => {
                put_u8(buf, HB_REQ_ID);
                put_u32(buf, req.round);
            },
            HeartbeatMsg::Reply(rep) => {
                put_u8(buf, HB_REP_ID);
                put_u32(buf, rep.round);
                put_u32(buf, rep.ballot.n);
                put_u64(buf, rep.ballot.pid);
                if rep.candidate {
                    put_u8(buf, 1);
                } else {
                    put_u8(buf, 0);
                }
            },
        }
        assert(buf@ =~= old(buf)@ + heartbeat_bytes(*self));
        Ok(())
    }
}

impl BallotLeaderSer {
    pub const SER_ID: u64 = BLE_ID;

    pub fn deserialise(buf: &mut Reader) -> (res: Result<HeartbeatMsg, SerError>)
        requires
            old(buf).wf(),
            take_heartbeat(old(buf).rest()) is Some,
        ensures
            final(buf).wf(),
            final(buf).data == old(buf).data,
            match res {
                Ok(m) => take_heartbeat(old(buf).rest()) == lift(Some((m, final(buf).rest()))),
                Err(SerError::InvalidType(t)) => take_heartbeat(old(buf).rest()) == Some(
                    Err::<(HeartbeatMsg, Seq<u8>), u8>(t),
                ),
            },
    {
        let t = buf.get_u8();
        if t == HB_REQ_ID {
            let round = buf.get_u32();
            Ok(HeartbeatMsg::Request(HeartbeatRequest::with(round)))
        } else if t == HB_REP_ID {
            let round = buf.get_u32();
            let n = buf.get_u32();
            let pid = buf.get_u64();
            let ballot = Ballot::with(n, pid);
            let candidate = buf.get_u8() >= 1;
            Ok(HeartbeatMsg::Reply(HeartbeatReply::with(round, ballot, candidate)))
        } else {
            Err(SerError::InvalidType(t))
        }
    }
}

impl VRMsg {
    pub fn ser_id(&self) -> (id: u64)
        ensures
            id == VR_ID,
    {
        VR_ID
    }

    pub fn size_hint(&self) -> (h: Option<usize>)
        ensures
            h == Some(55usize),
    {
        Some(55)
    }

    pub fn serialise(&self, buf: &mut Vec<u8>) -> (res: Result<(), SerError>)
        ensures
            res is Ok,
            final(buf)@ == old(buf)@ + vr_bytes(*self),
    {
        match self {
            VRMsg::StartViewChange(b, from) => {
                put_u8(buf, START_VIEWCHANGE_ID);
                put_u32(buf, b.n);
                put_u64(buf, b.pid);
                put_u64(buf, *from);
            },
            VRMsg::DoViewChange(b, from) => {
                put_u8(buf, DO_VIEWCHANGE_ID);
                put_u32(buf, b.n);
                put_u64(buf, b.pid);
                put_u64(buf, *from);
            },
        }
        assert(buf@ =~= old(buf)@ + vr_bytes(*self));
        Ok(())
    }
}

impl VRDeser {
    pub const SER_ID: u64 = VR_ID;

    pub fn deserialise(buf: &mut Reader) -> (res: Result<VRMsg, SerError>)
        requires
            old(buf).wf(),
            take_vr(old(buf).rest()) is Some,
        ensures
            final(buf).wf(),
            final(buf).data == old(buf).data,
            match res {
                Ok(m) => take_vr(old(buf).rest()) == lift(Some((m, final(buf).rest()))),
                Err(SerError::InvalidType(t)) => take_vr(old(buf).rest()) == Some(
                    Err::<(VRMsg, Seq<u8>), u8>(t),
                ),
            },
    {
        let t = buf.get_u8();
        if t == START_VIEWCHANGE_ID {
            let n = buf.get_u32();
            let pid = buf.get_u64();
            let from = buf.get_u64();
            Ok(VRMsg::StartViewChange(Ballot::with(n, pid), from))
        } else if t == DO_VIEWCHANGE_ID {
            let n = buf.get_u32();
            let pid = buf.get_u64();
            let from = buf.get_u64();
            Ok(VRMsg::DoViewChange(Ballot::with(n, pid), from))
        } else {
            Err(SerError::InvalidType(t))
        }
    }
}

} // verus!
