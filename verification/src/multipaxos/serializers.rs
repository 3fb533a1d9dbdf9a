//! Wire format of the Multi-Paxos messages: each message is a tag byte
//! followed by big-endian fields; command batches and proposal lists are
//! `u32`-counted lists of `u32`-length-prefixed byte strings.
use vstd::prelude::*;
use crate::abcast::messages::{Proposal, proposals_view};
use crate::multipaxos::messages::{
    AcceptorInbound, AcceptorInboundView, BatcherInbound, BatcherInboundView, Chosen, ChosenView,
    ChosenWatermark, CommandBatchOrNoop, CommandView, LeaderInbound, LeaderInboundView, Nack,
    Phase1a, Phase1b, Phase1bSlotInfo, Phase1bView, Phase2a, Phase2aView, Phase2b,
    ProxyLeaderInbound, ProxyLeaderInboundView, Recover, ReplicaInbound, ReplicaInboundView,
    SlotInfoView, infos_view,
};
use crate::wire::{
    Reader, SerError, blob_item, blobs_fit, get_blob_list, lemma_take_blob_list,
    lemma_take_list, lemma_take_u64, lemma_take_u8, list_bytes, put_blob_list, put_u32, put_u64,
    put_u8, take_blob_item, take_list, take_u64, take_u8, u64_bytes, concat_map,
    lemma_concat_map_push, lemma_take_many_len, lemma_take_many_step, take_many, put_blob,
};

verus! {

pub const LI_P1B: u8 = 0;
pub const LI_NACK: u8 = 1;
pub const LI_CW: u8 = 2;
pub const LI_R: u8 = 3;
pub const LI_CRB: u8 = 4;
pub const LI_LIRB: u8 = 5;

pub const AI_P1A: u8 = 0;
pub const AI_P2A: u8 = 1;

pub const BI_NLP: u8 = 0;
pub const BI_LIRB: u8 = 1;

pub const PI_P2A: u8 = 0;
pub const PI_P2B: u8 = 1;

/// Serialisation ids of the Multi-Paxos messages.
pub const MP_LEADER_ID: u64 = 67;
pub const MP_ACCEPTOR_ID: u64 = 68;
pub const MP_REPLICA_ID: u64 = 69;
pub const MP_BATCHER_ID: u64 = 70;
pub const MP_PROXY_LEADER_ID: u64 = 71;

pub struct LeaderInboundSer;

pub struct AcceptorInboundSer;

pub struct ReplicaInboundSer;

pub struct BatcherInboundSer;

pub struct ProxyLeaderInboundSer;

/* ---------------------------------------------------------------------- */
/* The format, as bytes written and bytes read back.                       */
/* ---------------------------------------------------------------------- */

pub open spec fn blob_list_bytes(bs: Seq<Seq<u8>>) -> Seq<u8> {
    list_bytes(bs, |b: Seq<u8>| blob_item(b))
}

pub open spec fn take_blob_list(s: Seq<u8>) -> Option<(Seq<Seq<u8>>, Seq<u8>)> {
    take_list(s, |s: Seq<u8>| take_blob_item(s))
}

/// A no-op is the byte 0; a batch is the byte 1 and its commands.
pub open spec fn cmd_bytes(c: CommandView) -> Seq<u8> {
    match c {
        CommandView::Noop => seq![0u8],
        CommandView::Batch(cs) => seq![1u8] + blob_list_bytes(cs),
    }
}

/// Reads a command batch or no-op; `None` where the tag byte is neither 0 nor 1
/// or the bytes end early.
pub open spec fn take_cmd(s: Seq<u8>) -> Option<(CommandView, Seq<u8>)> {
    match take_u8(s) {
        Some((t, s1)) => if t == 0 {
            Some((CommandView::Noop, s1))
        } else if t == 1 {
            match take_blob_list(s1) {
                Some((cs, s2)) => Some((CommandView::Batch(cs), s2)),
                None => None,
            }
        } else {
            None
        },
        None => None,
    }
}

/// Every length in a command fits its `u32` prefix.
pub open spec fn cmd_fits(c: CommandView) -> bool {
    match c {
        CommandView::Noop => true,
        CommandView::Batch(cs) => blobs_fit(cs),
    }
}

pub open spec fn slot_info_bytes(i: SlotInfoView) -> Seq<u8> {
    u64_bytes(i.slot) + u64_bytes(i.vote_round) + cmd_bytes(i.vote_value)
}

pub open spec fn take_slot_info(s: Seq<u8>) -> Option<(SlotInfoView, Seq<u8>)> {
    match take_u64(s) {
        Some((slot, s1)) => match take_u64(s1) {
            Some((vote_round, s2)) => match take_cmd(s2) {
                Some((vote_value, s3)) => Some((SlotInfoView { slot, vote_round, vote_value }, s3)),
                None => None,
            },
            None => None,
        },
        None => None,
    }
}

pub open spec fn infos_fit(infos: Seq<SlotInfoView>) -> bool {
    &&& infos.len() <= u32::MAX
    &&& forall|i: int| 0 <= i < infos.len() ==> cmd_fits(#[trigger] infos[i].vote_value)
}

pub open spec fn infos_bytes(infos: Seq<SlotInfoView>) -> Seq<u8> {
    list_bytes(infos, |i: SlotInfoView| slot_info_bytes(i))
}

pub open spec fn take_infos(s: Seq<u8>) -> Option<(Seq<SlotInfoView>, Seq<u8>)> {
    take_list(s, |s: Seq<u8>| take_slot_info(s))
}

pub open spec fn leader_inbound_fits(m: LeaderInboundView) -> bool {
    match m {
        LeaderInboundView::Phase1b(p) => infos_fit(p.info),
        LeaderInboundView::ClientRequestBatch(ps) => blobs_fit(ps),
        _ => true,
    }
}

pub open spec fn leader_inbound_bytes(m: LeaderInboundView) -> Seq<u8> {
    match m {
        LeaderInboundView::Phase1b(p) => seq![LI_P1B] + u64_bytes(p.round) + u64_bytes(
            p.acceptor_index,
        ) + infos_bytes(p.info),
        LeaderInboundView::Nack(n) => seq![LI_NACK] + u64_bytes(n.round),
        LeaderInboundView::ChosenWatermark(c) => seq![LI_CW] + u64_bytes(c.slot),
        LeaderInboundView::Recover(r) => seq![LI_R] + u64_bytes(r.slot),
        LeaderInboundView::ClientRequestBatch(ps) => seq![LI_CRB] + blob_list_bytes(ps),
        LeaderInboundView::LeaderInfoRequestBatcher(src) => seq![LI_LIRB] + u64_bytes(src),
    }
}

/// What reading a tagged message gives: `None` where the reader would run past
/// the end of the bytes (or meets a bad inner tag); `Some(Err(t))` for an unknown tag `t`.
pub type Taken<T> = Option<Result<(T, Seq<u8>), u8>>;

pub open spec fn lift<T>(o: Option<(T, Seq<u8>)>) -> Taken<T> {
    match o {
        Some(x) => Some(Ok(x)),
        None => None,
    }
}

pub open spec fn take_leader_inbound(s: Seq<u8>) -> Taken<LeaderInboundView> {
    match take_u8(s) {
        Some((t, s1)) => if t == LI_P1B {
            match take_u64(s1) {
                Some((round, s2)) => match take_u64(s2) {
                    Some((acceptor_index, s3)) => match take_infos(s3) {
                        Some((info, s4)) => Some(
                            Ok(
                                (
                                    LeaderInboundView::Phase1b(
                                        Phase1bView { acceptor_index, round, info },
                                    ),
                                    s4,
                                ),
                            ),
                        ),
                        None => None,
                    },
                    None => None,
                },
                None => None,
            }
        } else if t == LI_NACK {
            match take_u64(s1) {
                Some((round, s2)) => Some(Ok((LeaderInboundView::Nack(Nack { round }), s2))),
                None => None,
            }
        } else if t == LI_CW {
            match take_u64(s1) {
                Some((slot, s2)) => Some(
                    Ok((LeaderInboundView::ChosenWatermark(ChosenWatermark { slot }), s2)),
                ),
                None => None,
            }
        } else if t == LI_R {
            match take_u64(s1) {
                Some((slot, s2)) => Some(Ok((LeaderInboundView::Recover(Recover { slot }), s2))),
                None => None,
            }
        } else if t == LI_CRB {
            match take_blob_list(s1) {
                Some((ps, s2)) => Some(Ok((LeaderInboundView::ClientRequestBatch(ps), s2))),
                None => None,
            }
        } else if t == LI_LIRB {
            match take_u64(s1) {
                Some((src, s2)) => Some(Ok((LeaderInboundView::LeaderInfoRequestBatcher(src), s2))),
                None => None,
            }
        } else {
            Some(Err(t))
        },
        None => None,
    }
}

pub open spec fn acceptor_inbound_fits(m: AcceptorInboundView) -> bool {
    match m {
        AcceptorInboundView::Phase2a(p) => cmd_fits(p.value),
        _ => true,
    }
}

pub open spec fn acceptor_inbound_bytes(m: AcceptorInboundView) -> Seq<u8> {
    match m {
        AcceptorInboundView::Phase1a(p) => seq![AI_P1A] + u64_bytes(p.src) + u64_bytes(p.round)
            + u64_bytes(p.chosen_watermark),
        AcceptorInboundView::Phase2a(p) => seq![AI_P2A] + u64_bytes(p.src) + u64_bytes(p.round)
            + u64_bytes(p.slot) + cmd_bytes(p.value),
    }
}

pub open spec fn take_acceptor_inbound(s: Seq<u8>) -> Taken<AcceptorInboundView> {
    match take_u8(s) {
        Some((t, s1)) => if t == AI_P1A {
            match take_u64(s1) {
                Some((src, s2)) => match take_u64(s2) {
                    Some((round, s3)) => match take_u64(s3) {
                        Some((chosen_watermark, s4)) => Some(
                            Ok(
                                (
                                    AcceptorInboundView::Phase1a(
                                        Phase1a { src, round, chosen_watermark },
                                    ),
                                    s4,
                                ),
                            ),
                        ),
                        None => None,
                    },
                    None => None,
                },
                None => None,
            }
        } else if t == AI_P2A {
            match take_u64(s1) {
                Some((src, s2)) => match take_u64(s2) {
                    Some((round, s3)) => match take_u64(s3) {
                        Some((slot, s4)) => match take_cmd(s4) {
                            Some((value, s5)) => Some(
                                Ok(
                                    (
                                        AcceptorInboundView::Phase2a(
                                            Phase2aView { src, slot, round, value },
                                        ),
                                        s5,
                                    ),
                                ),
                            ),
                            None => None,
                        },
                        None => None,
                    },
                    None => None,
                },
                None => None,
            }
        } else {
            Some(Err(t))
        },
        None => None,
    }
}

pub open spec fn replica_inbound_bytes(m: ReplicaInboundView) -> Seq<u8> {
    match m {
        ReplicaInboundView::Chosen(c) => u64_bytes(c.slot) + cmd_bytes(c.value),
    }
}

pub open spec fn replica_inbound_fits(m: ReplicaInboundView) -> bool {
    match m {
        ReplicaInboundView::Chosen(c) => cmd_fits(c.value),
    }
}

pub open spec fn take_replica_inbound(s: Seq<u8>) -> Option<(ReplicaInboundView, Seq<u8>)> {
    match take_u64(s) {
        Some((slot, s1)) => match take_cmd(s1) {
            Some((value, s2)) => Some((ReplicaInboundView::Chosen(ChosenView { slot, value }), s2)),
            None => None,
        },
        None => None,
    }
}

pub open spec fn batcher_inbound_fits(m: BatcherInboundView) -> bool {
    match m {
        BatcherInboundView::NotLeaderBatcher(ps) => blobs_fit(ps),
        _ => true,
    }
}

pub open spec fn batcher_inbound_bytes(m: BatcherInboundView) -> Seq<u8> {
    match m {
        BatcherInboundView::NotLeaderBatcher(ps) => seq![BI_NLP] + blob_list_bytes(ps),
        BatcherInboundView::LeaderInfoReplyBatcher(r) => seq![BI_LIRB] + u64_bytes(r),
    }
}

pub open spec fn take_batcher_inbound(s: Seq<u8>) -> Taken<BatcherInboundView> {
    match take_u8(s) {
        Some((t, s1)) => if t == BI_NLP {
            match take_blob_list(s1) {
                Some((ps, s2)) => Some(Ok((BatcherInboundView::NotLeaderBatcher(ps), s2))),
                None => None,
            }
        } else if t == BI_LIRB {
            match take_u64(s1) {
                Some((r, s2)) => Some(Ok((BatcherInboundView::LeaderInfoReplyBatcher(r), s2))),
                None => None,
            }
        } else {
            Some(Err(t))
        },
        None => None,
    }
}

pub open spec fn proxy_leader_inbound_fits(m: ProxyLeaderInboundView) -> bool {
    match m {
        ProxyLeaderInboundView::Phase2a(p) => cmd_fits(p.value),
        _ => true,
    }
}

pub open spec fn proxy_leader_inbound_bytes(m: ProxyLeaderInboundView) -> Seq<u8> {
    match m {
        ProxyLeaderInboundView::Phase2a(p) => seq![PI_P2A] + u64_bytes(p.src) + u64_bytes(p.slot)
            + u64_bytes(p.round) + cmd_bytes(p.value),
        ProxyLeaderInboundView::Phase2b(p) => seq![PI_P2B] + u64_bytes(p.slot) + u64_bytes(
            p.round,
        ) + u64_bytes(p.acceptor_index),
    }
}

pub open spec fn take_proxy_leader_inbound(s: Seq<u8>) -> Taken<ProxyLeaderInboundView> {
    match take_u8(s) {
        Some((t, s1)) => if t == PI_P2A {
            match take_u64(s1) {
                Some((src, s2)) => match take_u64(s2) {
                    Some((slot, s3)) => match take_u64(s3) {
                        Some((round, s4)) => match take_cmd(s4) {
                            Some((value, s5)) => Some(
                                Ok(
                                    (
                                        ProxyLeaderInboundView::Phase2a(
                                            Phase2aView { src, slot, round, value },
                                        ),
                                        s5,
                                    ),
                                ),
                            ),
                            None => None,
                        },
                        None => None,
                    },
                    None => None,
                },
                None => None,
            }
        } else if t == PI_P2B {
            match take_u64(s1) {
                Some((slot, s2)) => match take_u64(s2) {
                    Some((round, s3)) => match take_u64(s3) {
                        Some((acceptor_index, s4)) => Some(
                            Ok(
                                (
                                    ProxyLeaderInboundView::Phase2b(
                                        Phase2b { acceptor_index, slot, round },
                                    ),
                                    s4,
                                ),
                            ),
                        ),
                        None => None,
                    },
                    None => None,
                },
                None => None,
            }
        } else {
            Some(Err(t))
        },
        None => None,
    }
}

/* ---------------------------------------------------------------------- */
/* What is written reads back as itself.                                  */
/* ---------------------------------------------------------------------- */

pub proof fn lemma_take_cmd(c: CommandView, rest: Seq<u8>)
    requires
        cmd_fits(c),
    ensures
        take_cmd(cmd_bytes(c) + rest) == Some((c, rest)),
{
    match c {
        CommandView::Noop => {
            lemma_take_u8(0u8, rest);
        },
        CommandView::Batch(cs) => {
            assert(cmd_bytes(c) + rest =~= seq![1u8] + (blob_list_bytes(cs) + rest));
            lemma_take_u8(1u8, blob_list_bytes(cs) + rest);
            lemma_take_blob_list(cs, rest);
        },
    }
}

pub proof fn lemma_take_slot_info(i: SlotInfoView, rest: Seq<u8>)
    requires
        cmd_fits(i.vote_value),
    ensures
        take_slot_info(slot_info_bytes(i) + rest) == Some((i, rest)),
{
    let r2 = cmd_bytes(i.vote_value) + rest;
    let r1 = u64_bytes(i.vote_round) + r2;
    assert(slot_info_bytes(i) + rest =~= u64_bytes(i.slot) + r1);
    lemma_take_u64(i.slot, r1);
    lemma_take_u64(i.vote_round, r2);
    lemma_take_cmd(i.vote_value, rest);
}

pub proof fn lemma_take_infos(infos: Seq<SlotInfoView>, rest: Seq<u8>)
    requires
        infos_fit(infos),
    ensures
        take_infos(infos_bytes(infos) + rest) == Some((infos, rest)),
{
    let f = |i: SlotInfoView| slot_info_bytes(i);
    let p = |s: Seq<u8>| take_slot_info(s);
    assert forall|k: int, r: Seq<u8>| 0 <= k < infos.len() implies #[trigger] p(f(infos[k]) + r)
        == Some((infos[k], r)) by {
        lemma_take_slot_info(infos[k], r);
    }
    lemma_take_list(infos, rest, f, p);
}

proof fn lemma_leader_phase1b_roundtrip(p: Phase1bView, rest: Seq<u8>)
    requires
        infos_fit(p.info),
    ensures
        take_leader_inbound(leader_inbound_bytes(LeaderInboundView::Phase1b(p)) + rest) == lift(
            Some((LeaderInboundView::Phase1b(p), rest)),
        ),
{
    let r3 = infos_bytes(p.info) + rest;
    let r2 = u64_bytes(p.acceptor_index) + r3;
    let r1 = u64_bytes(p.round) + r2;
    assert(leader_inbound_bytes(LeaderInboundView::Phase1b(p)) + rest =~= seq![LI_P1B] + r1);
    lemma_take_u8(LI_P1B, r1);
    lemma_take_u64(p.round, r2);
    lemma_take_u64(p.acceptor_index, r3);
    lemma_take_infos(p.info, rest);
}

proof fn lemma_leader_u64_roundtrip(m: LeaderInboundView, t: u8, x: u64, rest: Seq<u8>)
    requires
        leader_inbound_bytes(m) == seq![t] + u64_bytes(x),
        t != LI_P1B && t != LI_CRB,
        t == LI_NACK ==> m == LeaderInboundView::Nack(Nack { round: x }),
        t == LI_CW ==> m == LeaderInboundView::ChosenWatermark(ChosenWatermark { slot: x }),
        t == LI_R ==> m == LeaderInboundView::Recover(Recover { slot: x }),
        t == LI_LIRB ==> m == LeaderInboundView::LeaderInfoRequestBatcher(x),
        t == LI_NACK || t == LI_CW || t == LI_R || t == LI_LIRB,
    ensures
        take_leader_inbound(leader_inbound_bytes(m) + rest) == lift(Some((m, rest))),
{
    assert(leader_inbound_bytes(m) + rest =~= seq![t] + (u64_bytes(x) + rest));
    lemma_take_u8(t, u64_bytes(x) + rest);
    lemma_take_u64(x, rest);
}

/// Every Multi-Paxos leader message reads back as itself.
pub proof fn lemma_leader_inbound_roundtrip(m: LeaderInboundView, rest: Seq<u8>)
    requires
        leader_inbound_fits(m),
    ensures
        take_leader_inbound(leader_inbound_bytes(m) + rest) == lift(Some((m, rest))),
{
    match m {
        LeaderInboundView::Phase1b(p) => lemma_leader_phase1b_roundtrip(p, rest),
        LeaderInboundView::Nack(n) => lemma_leader_u64_roundtrip(m, LI_NACK, n.round, rest),
        LeaderInboundView::ChosenWatermark(c) => lemma_leader_u64_roundtrip(m, LI_CW, c.slot, rest),
        LeaderInboundView::Recover(r) => lemma_leader_u64_roundtrip(m, LI_R, r.slot, rest),
        LeaderInboundView::ClientRequestBatch(ps) => {
            assert(leader_inbound_bytes(m) + rest =~= seq![LI_CRB] + (blob_list_bytes(ps) + rest));
            lemma_take_u8(LI_CRB, blob_list_bytes(ps) + rest);
            lemma_take_blob_list(ps, rest);
        },
        LeaderInboundView::LeaderInfoRequestBatcher(src) => lemma_leader_u64_roundtrip(
            m,
            LI_LIRB,
            src,
            rest,
        ),
    }
}

/// Every acceptor message reads back as itself.
#[verifier::rlimit(60)]
pub proof fn lemma_acceptor_inbound_roundtrip(m: AcceptorInboundView, rest: Seq<u8>)
    requires
        acceptor_inbound_fits(m),
    ensures
        take_acceptor_inbound(acceptor_inbound_bytes(m) + rest) == lift(Some((m, rest))),
{
    match m {
        AcceptorInboundView::Phase1a(p) => {
            let r3 = u64_bytes(p.chosen_watermark) + rest;
            let r2 = u64_bytes(p.round) + r3;
            let r1 = u64_bytes(p.src) + r2;
            assert(acceptor_inbound_bytes(m) + rest =~= seq![AI_P1A] + r1);
            lemma_take_u8(AI_P1A, r1);
            lemma_take_u64(p.src, r2);
            lemma_take_u64(p.round, r3);
            lemma_take_u64(p.chosen_watermark, rest);
        },
        AcceptorInboundView::Phase2a(p) => {
            let r4 = cmd_bytes(p.value) + rest;
            let r3 = u64_bytes(p.slot) + r4;
            let r2 = u64_bytes(p.round) + r3;
            let r1 = u64_bytes(p.src) + r2;
            assert(acceptor_inbound_bytes(m) + rest =~= seq![AI_P2A] + r1);
            lemma_take_u8(AI_P2A, r1);
            lemma_take_u64(p.src, r2);
            lemma_take_u64(p.round, r3);
            lemma_take_u64(p.slot, r4);
            lemma_take_cmd(p.value, rest);
        },
    }
}

/// Every replica message reads back as itself.
pub proof fn lemma_replica_inbound_roundtrip(m: ReplicaInboundView, rest: Seq<u8>)
    requires
        replica_inbound_fits(m),
    ensures
        take_replica_inbound(replica_inbound_bytes(m) + rest) == Some((m, rest)),
{
    match m {
        ReplicaInboundView::Chosen(c) => {
            let r1 = cmd_bytes(c.value) + rest;
            assert(replica_inbound_bytes(m) + rest =~= u64_bytes(c.slot) + r1);
            lemma_take_u64(c.slot, r1);
            lemma_take_cmd(c.value, rest);
        },
    }
}

/// Every batcher message reads back as itself.
pub proof fn lemma_batcher_inbound_roundtrip(m: BatcherInboundView, rest: Seq<u8>)
    requires
        batcher_inbound_fits(m),
    ensures
        take_batcher_inbound(batcher_inbound_bytes(m) + rest) == lift(Some((m, rest))),
{
    match m {
        BatcherInboundView::NotLeaderBatcher(ps) => {
            assert(batcher_inbound_bytes(m) + rest =~= seq![BI_NLP] + (blob_list_bytes(ps) + rest));
            lemma_take_u8(BI_NLP, blob_list_bytes(ps) + rest);
            lemma_take_blob_list(ps, rest);
        },
        BatcherInboundView::LeaderInfoReplyBatcher(r) => {
            assert(batcher_inbound_bytes(m) + rest =~= seq![BI_LIRB] + (u64_bytes(r) + rest));
            lemma_take_u8(BI_LIRB, u64_bytes(r) + rest);
            lemma_take_u64(r, rest);
        },
    }
}

proof fn lemma_phase2a_inbound_roundtrip(p: Phase2aView, rest: Seq<u8>)
    requires
        cmd_fits(p.value),
    ensures
        take_proxy_leader_inbound(proxy_leader_inbound_bytes(ProxyLeaderInboundView::Phase2a(p)) + rest)
            == lift(Some((ProxyLeaderInboundView::Phase2a(p), rest))),
{
    let r4 = cmd_bytes(p.value) + rest;
    let r3 = u64_bytes(p.round) + r4;
    let r2 = u64_bytes(p.slot) + r3;
    let r1 = u64_bytes(p.src) + r2;
    assert(proxy_leader_inbound_bytes(ProxyLeaderInboundView::Phase2a(p)) + rest =~= seq![PI_P2A] + r1);
    lemma_take_u8(PI_P2A, r1);
    lemma_take_u64(p.src, r2);
    lemma_take_u64(p.slot, r3);
    lemma_take_u64(p.round, r4);
    lemma_take_cmd(p.value, rest);
}

proof fn lemma_phase2b_inbound_roundtrip(p: Phase2b, rest: Seq<u8>)
    ensures
        take_proxy_leader_inbound(proxy_leader_inbound_bytes(ProxyLeaderInboundView::Phase2b(p)) + rest)
            == lift(Some((ProxyLeaderInboundView::Phase2b(p), rest))),
{
    let r3 = u64_bytes(p.acceptor_index) + rest;
    let r2 = u64_bytes(p.round) + r3;
    let r1 = u64_bytes(p.slot) + r2;
    assert(proxy_leader_inbound_bytes(ProxyLeaderInboundView::Phase2b(p)) + rest =~= seq![PI_P2B] + r1);
    lemma_take_u8(PI_P2B, r1);
    lemma_take_u64(p.slot, r2);
    lemma_take_u64(p.round, r3);
    lemma_take_u64(p.acceptor_index, rest);
}

/// Every proxy-leader message reads back as itself.
pub proof fn lemma_proxy_leader_inbound_roundtrip(m: ProxyLeaderInboundView, rest: Seq<u8>)
    requires
        proxy_leader_inbound_fits(m),
    ensures
        take_proxy_leader_inbound(proxy_leader_inbound_bytes(m) + rest) == lift(Some((m, rest))),
{
    match m {
        ProxyLeaderInboundView::Phase2a(p) => lemma_phase2a_inbound_roundtrip(p, rest),
        ProxyLeaderInboundView::Phase2b(p) => lemma_phase2b_inbound_roundtrip(p, rest),
    }
}

/* ---------------------------------------------------------------------- */
/* Writing and reading.                                                   */
/* ---------------------------------------------------------------------- */

/// Writes a command batch or no-op.
pub fn serialise_command_batch_or_noop(c: &CommandBatchOrNoop, buf: &mut Vec<u8>)
    requires
        cmd_fits(c@),
    ensures
        final(buf)@ == old(buf)@ + cmd_bytes(c@),
{
    match c {
        CommandBatchOrNoop::CommandBatch(v) => {
            put_u8(buf, 1);
            put_blob_list(buf, v);
            assert(buf@ =~= old(buf)@ + cmd_bytes(c@));
        },
        CommandBatchOrNoop::Noop => put_u8(buf, 0),
    }
}

/// Reads a command batch or no-op.
pub fn deserialise_command_batch_or_noop(r: &mut Reader) -> (c: CommandBatchOrNoop)
    requires
        old(r).wf(),
        take_cmd(old(r).rest()) is Some,
    ensures
        final(r).wf(),
        final(r).data == old(r).data,
        take_cmd(old(r).rest()) == Some((c@, final(r).rest())),
{
    let t = r.get_u8();
    if t == 0 {
        CommandBatchOrNoop::Noop
    } else {
        let batch = get_blob_list(r);
        CommandBatchOrNoop::CommandBatch(batch)
    }
}

/// Writes the vote of an acceptor in one slot.
pub fn serialise_phase1b_slot_info(p1b_slot_info: &Phase1bSlotInfo, buf: &mut Vec<u8>)
    requires
        cmd_fits(p1b_slot_info@.vote_value),
    ensures
        final(buf)@ == old(buf)@ + slot_info_bytes(p1b_slot_info@),
{
    put_u64(buf, p1b_slot_info.slot);
    put_u64(buf, p1b_slot_info.vote_round);
    serialise_command_batch_or_noop(&p1b_slot_info.vote_value, buf);
    assert(buf@ =~= old(buf)@ + slot_info_bytes(p1b_slot_info@));
}

/// Reads the vote of an acceptor in one slot.
pub fn deserialise_phase1b_slot_info(r: &mut Reader) -> (i: Phase1bSlotInfo)
    requires
        old(r).wf(),
        take_slot_info(old(r).rest()) is Some,
    ensures
        final(r).wf(),
        final(r).data == old(r).data,
        take_slot_info(old(r).rest()) == Some((i@, final(r).rest())),
{
    let slot = r.get_u64();
    let vote_round = r.get_u64();
    let vote_value = deserialise_command_batch_or_noop(r);
    Phase1bSlotInfo { slot, vote_round, vote_value }
}

fn put_infos(buf: &mut Vec<u8>, v: &Vec<Phase1bSlotInfo>)
    requires
        infos_fit(infos_view(v@)),
    ensures
        final(buf)@ == old(buf)@ + infos_bytes(infos_view(v@)),
{
    let ghost f = |i: SlotInfoView| slot_info_bytes(i);
    let ghost xs = infos_view(v@);
    put_u32(buf, v.len() as u32);
    let ghost start = buf@;
    let mut i: usize = 0;
    while i < v.len()
        invariant
            i <= v@.len(),
            xs == infos_view(v@),
            infos_fit(xs),
            f == (|i: SlotInfoView| slot_info_bytes(i)),
            buf@ == start + concat_map(xs.take(i as int), f),
        decreases v@.len() - i,
    {
        proof {
            lemma_concat_map_push(xs.take(i as int), xs[i as int], f);
            assert(xs.take(i as int).push(xs[i as int]) =~= xs.take(i + 1));
            assert(xs[i as int] == v@[i as int]@);
            assert(cmd_fits(xs[i as int].vote_value));
        }
        serialise_phase1b_slot_info(&v[i], buf);
        i = i + 1;
        proof {
            assert(start + concat_map(xs.take(i as int), f) =~= buf@);
        }
    }
    assert(xs.take(v@.len() as int) =~= xs);
    assert(buf@ =~= old(buf)@ + infos_bytes(xs));
}

fn get_infos(r: &mut Reader) -> (v: Vec<Phase1bSlotInfo>)
    requires
        old(r).wf(),
        take_infos(old(r).rest()) is Some,
    ensures
        final(r).wf(),
        final(r).data == old(r).data,
        take_infos(old(r).rest()) == Some((infos_view(v@), final(r).rest())),
{
    let ghost p = |s: Seq<u8>| take_slot_info(s);
    let n = r.get_u32();
    let ghost all = take_many(n as nat, r.rest(), p).unwrap().0;
    let ghost end = take_many(n as nat, r.rest(), p).unwrap().1;
    proof {
        lemma_take_many_len(n as nat, r.rest(), p);
    }
    let mut v: Vec<Phase1bSlotInfo> = Vec::new();
    let mut i: u32 = 0;
    while i < n
        invariant
            r.wf(),
            r.data == old(r).data,
            p == (|s: Seq<u8>| take_slot_info(s)),
            i <= n,
            all.len() == n,
            infos_view(v@) == all.take(i as int),
            take_many((n - i) as nat, r.rest(), p) == Some((all.skip(i as int), end)),
        decreases n - i,
    {
        proof {
            lemma_take_many_step((n - i) as nat, r.rest(), p);
            assert(all.skip(i as int)[0] == all[i as int]);
            assert(all.skip(i as int).skip(1) =~= all.skip(i + 1));
            assert(seq![all[i as int]] + take_many((n - i - 1) as nat, p(r.rest()).unwrap().1, p).unwrap().0
                == all.skip(i as int));
            assert(take_many((n - i - 1) as nat, p(r.rest()).unwrap().1, p).unwrap().0 =~= all.skip(i + 1));
        }
        let ghost before = r.rest();
        let x = deserialise_phase1b_slot_info(r);
        proof {
            assert(p(before) == take_slot_info(before));
            assert(x@ == all[i as int]);
        }
        let ghost old_v = v@;
        v.push(x);
        i = i + 1;
        proof {
            assert(infos_view(v@) =~= infos_view(old_v).push(x@));
            assert(infos_view(v@) =~= all.take(i as int));
        }
    }
    assert(all.take(n as int) =~= all);
    v
}

/// Writes a `u32`-counted list of proposals, each as a length-prefixed byte string.
pub fn put_proposals(buf: &mut Vec<u8>, v: &Vec<Proposal>)
    requires
        blobs_fit(proposals_view(v@)),
    ensures
        final(buf)@ == old(buf)@ + blob_list_bytes(proposals_view(v@)),
{
    let ghost f = |b: Seq<u8>| blob_item(b);
    let ghost bs = proposals_view(v@);
    put_u32(buf, v.len() as u32);
    let ghost start = buf@;
    let mut i: usize = 0;
    while i < v.len()
        invariant
            i <= v@.len(),
            bs == proposals_view(v@),
            blobs_fit(bs),
            f == (|b: Seq<u8>| blob_item(b)),
            buf@ == start + concat_map(bs.take(i as int), f),
        decreases v@.len() - i,
    {
        proof {
            lemma_concat_map_push(bs.take(i as int), bs[i as int], f);
            assert(bs.take(i as int).push(bs[i as int]) =~= bs.take(i + 1));
            assert(bs[i as int] == v@[i as int].data@);
        }
        put_blob(buf, v[i].data.as_slice());
        i = i + 1;
        proof {
            assert(start + concat_map(bs.take(i as int), f) =~= buf@);
        }
    }
    assert(bs.take(v@.len() as int) =~= bs);
    assert(buf@ =~= old(buf)@ + blob_list_bytes(bs));
}

/// Reads a `u32`-counted list of proposals.
pub fn get_proposals(r: &mut Reader) -> (v: Vec<Proposal>)
    requires
        old(r).wf(),
        take_blob_list(old(r).rest()) is Some,
    ensures
        final(r).wf(),
        final(r).data == old(r).data,
        take_blob_list(old(r).rest()) == Some((proposals_view(v@), final(r).rest())),
{
    let ghost p = |s: Seq<u8>| take_blob_item(s);
    let n = r.get_u32();
    let ghost all = take_many(n as nat, r.rest(), p).unwrap().0;
    let ghost end = take_many(n as nat, r.rest(), p).unwrap().1;
    proof {
        lemma_take_many_len(n as nat, r.rest(), p);
    }
    let mut v: Vec<Proposal> = Vec::new();
    let mut i: u32 = 0;
    while i < n
        invariant
            r.wf(),
            r.data == old(r).data,
            p == (|s: Seq<u8>| take_blob_item(s)),
            i <= n,
            all.len() == n,
            proposals_view(v@) == all.take(i as int),
            take_many((n - i) as nat, r.rest(), p) == Some((all.skip(i as int), end)),
        decreases n - i,
    {
        proof {
            lemma_take_many_step((n - i) as nat, r.rest(), p);
            assert(all.skip(i as int)[0] == all[i as int]);
            assert(all.skip(i as int).skip(1) =~= all.skip(i + 1));
            assert(seq![all[i as int]] + take_many((n - i - 1) as nat, p(r.rest()).unwrap().1, p).unwrap().0
                == all.skip(i as int));
            assert(take_many((n - i - 1) as nat, p(r.rest()).unwrap().1, p).unwrap().0 =~= all.skip(i + 1));
        }
        let ghost before = r.rest();
        let b = r.get_blob();
        proof {
            assert(p(before) == take_blob_item(before));
            assert(b@ == all[i as int]);
        }
        let ghost old_v = v@;
        v.push(Proposal { data: b });
        i = i + 1;
        proof {
            assert(proposals_view(v@) =~= proposals_view(old_v).push(b@));
            assert(proposals_view(v@) =~= all.take(i as int));
        }
    }
    assert(all.take(n as int) =~= all);
    v
}

impl LeaderInbound {
    pub fn ser_id(&self) -> (id: u64)
        ensures
            id == MP_LEADER_ID,
    {
        MP_LEADER_ID
    }

    pub fn size_hint(&self) -> (h: Option<usize>)
        ensures
            h is None,
    {
        None
    }

    /// Writes this message in the Multi-Paxos leader format.
    pub fn serialise(&self, buf: &mut Vec<u8>) -> (res: Result<(), SerError>)
        requires
            leader_inbound_fits(self@),
        ensures
            res is Ok,
            final(buf)@ == old(buf)@ + leader_inbound_bytes(self@),
    {
        match self {
            LeaderInbound::Phase1b(p1b) => {
                put_u8(buf, LI_P1B);
                put_u64(buf, p1b.round);
                put_u64(buf, p1b.acceptor_index);
                put_infos(buf, &p1b.info);
            },
            LeaderInbound::Nack(n) => {
                put_u8(buf, LI_NACK);
                put_u64(buf, n.round);
            },
            LeaderInbound::ChosenWatermark(c) => {
                put_u8(buf, LI_CW);
                put_u64(buf, c.slot);
            },
            LeaderInbound::Recover(r) => {
                put_u8(buf, LI_R);
                put_u64(buf, r.slot);
            },
            LeaderInbound::ClientRequestBatch(c) => {
                put_u8(buf, LI_CRB);
                put_proposals(buf, c);
            },
            LeaderInbound::LeaderInfoRequestBatcher(src) => {
                put_u8(buf, LI_LIRB);
                put_u64(buf, *src);
            },
        }
        assert(buf@ =~= old(buf)@ + leader_inbound_bytes(self@));
        Ok(())
    }
}

impl LeaderInboundSer {
    pub const SER_ID: u64 = MP_LEADER_ID;

    /// Reads a Multi-Paxos leader message; an unknown tag is an `InvalidType` error.
    pub fn deserialise(buf: &mut Reader) -> (res: Result<LeaderInbound, SerError>)
        requires
            old(buf).wf(),
            take_leader_inbound(old(buf).rest()) is Some,
        ensures
            final(buf).wf(),
            final(buf).data == old(buf).data,
            match res {
                Ok(m) => take_leader_inbound(old(buf).rest()) == lift(Some((m@, final(buf).rest()))),
                Err(SerError::InvalidType(t)) => take_leader_inbound(old(buf).rest()) == Some(
                    Err::<(LeaderInboundView, Seq<u8>), u8>(t),
                ),
            },
    {
        let t = buf.get_u8();
        if t == LI_P1B {
            let round = buf.get_u64();
            let acceptor_index = buf.get_u64();
            let info = get_infos(buf);
            Ok(LeaderInbound::Phase1b(Phase1b { acceptor_index, round, info }))
        } else if t == LI_NACK {
            let round = buf.get_u64();
            Ok(LeaderInbound::Nack(Nack { round }))
        } else if t == LI_CW {
            let slot = buf.get_u64();
            Ok(LeaderInbound::ChosenWatermark(ChosenWatermark { slot }))
        } else if t == LI_R {
            let slot = buf.get_u64();
            Ok(LeaderInbound::Recover(Recover { slot }))
        } else if t == LI_CRB {
            let proposals = get_proposals(buf);
            Ok(LeaderInbound::ClientRequestBatch(proposals))
        } else if t == LI_LIRB {
            let src = buf.get_u64();
            Ok(LeaderInbound::LeaderInfoRequestBatcher(src))
        } else {
            Err(SerError::InvalidType(t))
        }
    }
}

impl AcceptorInbound {
    pub fn ser_id(&self) -> (id: u64)
        ensures
            id == MP_ACCEPTOR_ID,
    {
        MP_ACCEPTOR_ID
    }

    pub fn size_hint(&self) -> (h: Option<usize>)
        ensures
            h is None,
    {
        None
    }

    /// Writes this message in the acceptor format.
    pub fn serialise(&self, buf: &mut Vec<u8>) -> (res: Result<(), SerError>)
        requires
            acceptor_inbound_fits(self@),
        ensures
            res is Ok,
            final(buf)@ == old(buf)@ + acceptor_inbound_bytes(self@),
    {
        match self {
            AcceptorInbound::Phase1a(p1a) => {
                put_u8(buf, AI_P1A);
                put_u64(buf, p1a.src);
                put_u64(buf, p1a.round);
                put_u64(buf, p1a.chosen_watermark);
            },
            AcceptorInbound::Phase2a(p2a) => {
                put_u8(buf, AI_P2A);
                put_u64(buf, p2a.src);
                put_u64(buf, p2a.round);
                put_u64(buf, p2a.slot);
                serialise_command_batch_or_noop(&p2a.command_batch_or_noop, buf);
            },
        }
        assert(buf@ =~= old(buf)@ + acceptor_inbound_bytes(self@));
        Ok(())
    }
}

impl AcceptorInboundSer {
    pub const SER_ID: u64 = MP_ACCEPTOR_ID;

    /// Reads an acceptor message; an unknown tag is an `InvalidType` error.
    pub fn deserialise(buf: &mut Reader) -> (res: Result<AcceptorInbound, SerError>)
        requires
            old(buf).wf(),
            take_acceptor_inbound(old(buf).rest()) is Some,
        ensures
            final(buf).wf(),
            final(buf).data == old(buf).data,
            match res {
                Ok(m) => take_acceptor_inbound(old(buf).rest()) == lift(Some((m@, final(buf).rest()))),
                Err(SerError::InvalidType(t)) => take_acceptor_inbound(old(buf).rest()) == Some(
                    Err::<(AcceptorInboundView, Seq<u8>), u8>(t),
                ),
            },
    {
        let t = buf.get_u8();
        if t == AI_P1A {
            let src = buf.get_u64();
            let round = buf.get_u64();
            let chosen_watermark = buf.get_u64();
            Ok(AcceptorInbound::Phase1a(Phase1a { src, round, chosen_watermark }))
        } else if t == AI_P2A {
            let src = buf.get_u64();
            let round = buf.get_u64();
            let slot = buf.get_u64();
            let command_batch_or_noop = deserialise_command_batch_or_noop(buf);
            Ok(AcceptorInbound::Phase2a(Phase2a { src, slot, round, command_batch_or_noop }))
        } else {
            Err(SerError::InvalidType(t))
        }
    }
}

impl ReplicaInbound {
    pub fn ser_id(&self) -> (id: u64)
        ensures
            id == MP_REPLICA_ID,
    {
        MP_REPLICA_ID
    }

    pub fn size_hint(&self) -> (h: Option<usize>)
        ensures
            h is None,
    {
        None
    }

    /// Writes this message in the replica format (no tag byte).
    pub fn serialise(&self, buf: &mut Vec<u8>) -> (res: Result<(), SerError>)
        requires
            replica_inbound_fits(self@),
        ensures
            res is Ok,
            final(buf)@ == old(buf)@ + replica_inbound_bytes(self@),
    {
        match self {
            ReplicaInbound::Chosen(c) => {
                put_u64(buf, c.slot);
                serialise_command_batch_or_noop(&c.command_batch_or_noop, buf);
            },
        }
        assert(buf@ =~= old(buf)@ + replica_inbound_bytes(self@));
        Ok(())
    }
}

impl ReplicaInboundSer {
    pub const SER_ID: u64 = MP_REPLICA_ID;

    /// Reads a replica message.
    pub fn deserialise(buf: &mut Reader) -> (res: Result<ReplicaInbound, SerError>)
        requires
            old(buf).wf(),
            take_replica_inbound(old(buf).rest()) is Some,
        ensures
            final(buf).wf(),
            final(buf).data == old(buf).data,
            res is Ok,
            take_replica_inbound(old(buf).rest()) == Some((res->Ok_0@, final(buf).rest())),
    {
        let slot = buf.get_u64();
        let command_batch_or_noop = deserialise_command_batch_or_noop(buf);
        Ok(ReplicaInbound::Chosen(Chosen { slot, command_batch_or_noop }))
    }
}

impl BatcherInbound {
    pub fn ser_id(&self) -> (id: u64)
        ensures
            id == MP_BATCHER_ID,
    {
        MP_BATCHER_ID
    }

    pub fn size_hint(&self) -> (h: Option<usize>)
        ensures
            h is None,
    {
        None
    }

    /// Writes this message in the batcher format.
    pub fn serialise(&self, buf: &mut Vec<u8>) -> (res: Result<(), SerError>)
        requires
            batcher_inbound_fits(self@),
        ensures
            res is Ok,
            final(buf)@ == old(buf)@ + batcher_inbound_bytes(self@),
    {
        match self {
            BatcherInbound::NotLeaderBatcher(proposals) => {
                put_u8(buf, BI_NLP);
                put_proposals(buf, proposals);
            },
            BatcherInbound::LeaderInfoReplyBatcher(l) => {
                put_u8(buf, BI_LIRB);
                put_u64(buf, *l);
            },
        }
        assert(buf@ =~= old(buf)@ + batcher_inbound_bytes(self@));
        Ok(())
    }
}

impl BatcherInboundSer {
    pub const SER_ID: u64 = MP_BATCHER_ID;

    /// Reads a batcher message; an unknown tag is an `InvalidType` error.
    pub fn deserialise(buf: &mut Reader) -> (res: Result<BatcherInbound, SerError>)
        requires
            old(buf).wf(),
            take_batcher_inbound(old(buf).rest()) is Some,
        ensures
            final(buf).wf(),
            final(buf).data == old(buf).data,
            match res {
                Ok(m) => take_batcher_inbound(old(buf).rest()) == lift(Some((m@, final(buf).rest()))),
                Err(SerError::InvalidType(t)) => take_batcher_inbound(old(buf).rest()) == Some(
                    Err::<(BatcherInboundView, Seq<u8>), u8>(t),
                ),
            },
    {
        let t = buf.get_u8();
        if t == BI_NLP {
            let proposals = get_proposals(buf);
            Ok(BatcherInbound::NotLeaderBatcher(proposals))
        } else if t == BI_LIRB {
            let round = buf.get_u64();
            Ok(BatcherInbound::LeaderInfoReplyBatcher(round))
        } else {
            Err(SerError::InvalidType(t))
        }
    }
}

impl ProxyLeaderInbound {
    pub fn ser_id(&self) -> (id: u64)
        ensures
            id == MP_PROXY_LEADER_ID,
    {
        MP_PROXY_LEADER_ID
    }

    pub fn size_hint(&self) -> (h: Option<usize>)
        ensures
            h is None,
    {
        None
    }

    /// Writes this message in the proxy-leader format.
    pub fn serialise(&self, buf: &mut Vec<u8>) -> (res: Result<(), SerError>)
        requires
            proxy_leader_inbound_fits(self@),
        ensures
            res is Ok,
            final(buf)@ == old(buf)@ + proxy_leader_inbound_bytes(self@),
    {
        match self {
            ProxyLeaderInbound::Phase2a(p2a) => {
                put_u8(buf, PI_P2A);
                put_u64(buf, p2a.src);
                put_u64(buf, p2a.slot);
                put_u64(buf, p2a.round);
                serialise_command_batch_or_noop(&p2a.command_batch_or_noop, buf);
            },
            ProxyLeaderInbound::Phase2b(p2b) => {
                put_u8(buf, PI_P2B);
                put_u64(buf, p2b.slot);
                put_u64(buf, p2b.round);
                put_u64(buf, p2b.acceptor_index);
            },
        }
        assert(buf@ =~= old(buf)@ + proxy_leader_inbound_bytes(self@));
        Ok(())
    }
}

impl ProxyLeaderInboundSer {
    pub const SER_ID: u64 = MP_PROXY_LEADER_ID;

    /// Reads a proxy-leader message; an unknown tag is an `InvalidType` error.
    pub fn deserialise(buf: &mut Reader) -> (res: Result<ProxyLeaderInbound, SerError>)
        requires
            old(buf).wf(),
            take_proxy_leader_inbound(old(buf).rest()) is Some,
        ensures
            final(buf).wf(),
            final(buf).data == old(buf).data,
            match res {
                Ok(m) => take_proxy_leader_inbound(old(buf).rest()) == lift(
                    Some((m@, final(buf).rest())),
                ),
                Err(SerError::InvalidType(t)) => take_proxy_leader_inbound(old(buf).rest()) == Some(
                    Err::<(ProxyLeaderInboundView, Seq<u8>), u8>(t),
                ),
            },
    {
        let t = buf.get_u8();
        if t == PI_P2A {
            let src = buf.get_u64();
            let slot = buf.get_u64();
            let round = buf.get_u64();
            let command_batch_or_noop = deserialise_command_batch_or_noop(buf);
            Ok(ProxyLeaderInbound::Phase2a(Phase2a { src, slot, round, command_batch_or_noop }))
        } else if t == PI_P2B {
            let slot = buf.get_u64();
            let round = buf.get_u64();
            let acceptor_index = buf.get_u64();
            Ok(ProxyLeaderInbound::Phase2b(Phase2b { acceptor_index, slot, round }))
        } else {
            Err(SerError::InvalidType(t))
        }
    }
}

} // verus!
