//! Wire formats of the replicated log: its entries (a proposal's bytes, or
//! the stop sign that ends a configuration), the messages between replicas,
//! and the reconfiguration messages that hand the decided sequence on.
use vstd::prelude::*;
use crate::abcast::ble::Ballot;
use crate::abcast::transfer::{Reconfig, SegmentIndex, SegmentRequest, SequenceMetaData, SequenceSegment};
use crate::abcast::serializers::{lemma_take_u64_list, take_u64_list, u64_list_bytes};
use crate::multipaxos::serializers::{Taken, lift};
use crate::wire::{
    Reader, SerError, blob_bytes, concat_map, get_u64_list, lemma_concat_map_push, lemma_take_blob,
    lemma_take_list, lemma_take_many_len, lemma_take_many_step, lemma_take_u32, lemma_take_u64,
    lemma_take_u8, list_bytes, put_blob, put_u32, put_u64, put_u64_list, put_u8, take_blob,
    take_list, take_many, take_u32, take_u64, take_u8, u32_bytes, u64_bytes,
};

verus! {

pub const NORMAL_ENTRY_ID: u8 = 1;
pub const SS_ENTRY_ID: u8 = 2;

/// The stop sign that ends a configuration: the id and nodes of the next
/// one, and the leader (its pid and ballot) it may start with.
pub struct StopSign {
    pub config_id: u32,
    pub nodes: Vec<u64>,
    pub skip_prepare_use_leader: Option<(u64, Ballot)>,
}

/// An entry of the replicated log.
pub enum Entry {
    Normal(Vec<u8>),
    StopSign(StopSign),
}

/// Abstract value of an [`Entry`].
pub enum EntryView {
    Normal(Seq<u8>),
    StopSign(u32, Seq<u64>, Option<(u64, Ballot)>),
}

impl View for Entry {
    type V = EntryView;

    open spec fn view(&self) -> EntryView {
        match self {
            Entry::Normal(d) => EntryView::Normal(d@),
            Entry::StopSign(ss) => EntryView::StopSign(ss.config_id, ss.nodes@, ss.skip_prepare_use_leader),
        }
    }
}

/// The abstract values of a list of entries.
pub open spec fn entries_view(v: Seq<Entry>) -> Seq<EntryView> {
    v.map_values(|e: Entry| e@)
}

/// Every length in the entry fits its `u32` prefix.
pub open spec fn entry_fits(e: EntryView) -> bool {
    match e {
        EntryView::Normal(d) => d.len() <= u32::MAX,
        EntryView::StopSign(_, nodes, _) => nodes.len() <= u32::MAX,
    }
}

/// The entries and their number fit their `u32` prefixes.
pub open spec fn entries_fit(es: Seq<EntryView>) -> bool {
    &&& es.len() <= u32::MAX
    &&& forall|i: int| 0 <= i < es.len() ==> #[trigger] entry_fits(es[i])
}

pub open spec fn ballot_bytes(b: Ballot) -> Seq<u8> {
    u32_bytes(b.n) + u64_bytes(b.pid)
}

pub open spec fn take_ballot(s: Seq<u8>) -> Option<(Ballot, Seq<u8>)> {
    match take_u32(s) {
        Some((n, s1)) => match take_u64(s1) {
            Some((pid, s2)) => Some((Ballot { n, pid }, s2)),
            None => None,
        },
        None => None,
    }
}

/// A leader to start with: a 1 then its pid and ballot, or a 0.
pub open spec fn leader_bytes(l: Option<(u64, Ballot)>) -> Seq<u8> {
    match l {
        Some((pid, b)) => seq![1u8] + u64_bytes(pid) + ballot_bytes(b),
        None => seq![0u8],
    }
}

/// Reads a leader to start with: any byte but 1 reads as none.
pub open spec fn take_leader(s: Seq<u8>) -> Option<(Option<(u64, Ballot)>, Seq<u8>)> {
    match take_u8(s) {
        Some((t, s1)) => if t == 1 {
            match take_u64(s1) {
                Some((pid, s2)) => match take_ballot(s2) {
                    Some((b, s3)) => Some((Some((pid, b)), s3)),
                    None => None,
                },
                None => None,
            }
        } else {
            Some((None, s1))
        },
        None => None,
    }
}

pub open spec fn entry_bytes(e: EntryView) -> Seq<u8> {
    match e {
        EntryView::Normal(d) => seq![NORMAL_ENTRY_ID] + blob_bytes(d),
        EntryView::StopSign(config_id, nodes, leader) => seq![SS_ENTRY_ID] + u32_bytes(config_id)
            + u64_list_bytes(nodes) + leader_bytes(leader),
    }
}

/// Reads an entry; an unknown tag reads as nothing.
pub open spec fn take_entry(s: Seq<u8>) -> Option<(EntryView, Seq<u8>)> {
    match take_u8(s) {
        Some((t, s1)) => if t == NORMAL_ENTRY_ID {
            match take_blob(s1) {
                Some((d, s2)) => Some((EntryView::Normal(d), s2)),
                None => None,
            }
        } else if t == SS_ENTRY_ID {
            match take_u32(s1) {
                Some((config_id, s2)) => match take_u64_list(s2) {
                    Some((nodes, s3)) => match take_leader(s3) {
                        Some((leader, s4)) => Some((EntryView::StopSign(config_id, nodes, leader), s4)),
                        None => None,
                    },
                    None => None,
                },
                None => None,
            }
        } else {
            None
        },
        None => None,
    }
}

pub open spec fn entries_bytes(es: Seq<EntryView>) -> Seq<u8> {
    list_bytes(es, |e: EntryView| entry_bytes(e))
}

pub open spec fn take_entries(s: Seq<u8>) -> Option<(Seq<EntryView>, Seq<u8>)> {
    take_list(s, |s: Seq<u8>| take_entry(s))
}

pub proof fn lemma_ballot_roundtrip(b: Ballot, rest: Seq<u8>)
    ensures
        take_ballot(ballot_bytes(b) + rest) == Some((b, rest)),
{
    assert(ballot_bytes(b) + rest =~= u32_bytes(b.n) + (u64_bytes(b.pid) + rest));
    lemma_take_u32(b.n, u64_bytes(b.pid) + rest);
    lemma_take_u64(b.pid, rest);
}

pub proof fn lemma_leader_roundtrip(l: Option<(u64, Ballot)>, rest: Seq<u8>)
    ensures
        take_leader(leader_bytes(l) + rest) == Some((l, rest)),
{
    match l {
        Some((pid, b)) => {
            assert(leader_bytes(l) + rest =~= seq![1u8] + (u64_bytes(pid) + (ballot_bytes(b) + rest)));
            lemma_take_u8(1u8, u64_bytes(pid) + (ballot_bytes(b) + rest));
            lemma_take_u64(pid, ballot_bytes(b) + rest);
            lemma_ballot_roundtrip(b, rest);
        },
        None => {
            assert(leader_bytes(l) + rest =~= seq![0u8] + rest);
            lemma_take_u8(0u8, rest);
        },
    }
}

proof fn lemma_normal_entry_roundtrip(d: Seq<u8>, rest: Seq<u8>)
    requires
        d.len() <= u32::MAX,
    ensures
        take_entry(entry_bytes(EntryView::Normal(d)) + rest) == Some((EntryView::Normal(d), rest)),
{
    assert(entry_bytes(EntryView::Normal(d)) + rest =~= seq![NORMAL_ENTRY_ID] + (blob_bytes(d) + rest));
    lemma_take_u8(NORMAL_ENTRY_ID, blob_bytes(d) + rest);
    lemma_take_blob(d, rest);
}

proof fn lemma_stop_sign_entry_roundtrip(
    config_id: u32,
    nodes: Seq<u64>,
    leader: Option<(u64, Ballot)>,
    rest: Seq<u8>,
)
    requires
        nodes.len() <= u32::MAX,
    ensures
        take_entry(entry_bytes(EntryView::StopSign(config_id, nodes, leader)) + rest) == Some(
            (EntryView::StopSign(config_id, nodes, leader), rest),
        ),
{
    let r3 = leader_bytes(leader) + rest;
    let r2 = u64_list_bytes(nodes) + r3;
    let r1 = u32_bytes(config_id) + r2;
    assert(entry_bytes(EntryView::StopSign(config_id, nodes, leader)) + rest =~= seq![SS_ENTRY_ID] + r1);
    lemma_take_u8(SS_ENTRY_ID, r1);
    lemma_take_u32(config_id, r2);
    lemma_take_u64_list(nodes, r3);
    lemma_leader_roundtrip(leader, rest);
}

/// Every entry reads back as itself.
pub proof fn lemma_entry_roundtrip(e: EntryView, rest: Seq<u8>)
    requires
        entry_fits(e),
    ensures
        take_entry(entry_bytes(e) + rest) == Some((e, rest)),
{
    match e {
        EntryView::Normal(d) => lemma_normal_entry_roundtrip(d, rest),
        EntryView::StopSign(config_id, nodes, leader) => lemma_stop_sign_entry_roundtrip(
            config_id,
            nodes,
            leader,
            rest,
        ),
    }
}

/// Every list of entries reads back as itself.
pub proof fn lemma_entries_roundtrip(es: Seq<EntryView>, rest: Seq<u8>)
    requires
        entries_fit(es),
    ensures
        take_entries(entries_bytes(es) + rest) == Some((es, rest)),
{
    let f = |e: EntryView| entry_bytes(e);
    let p = |s: Seq<u8>| take_entry(s);
    assert forall|i: int, r: Seq<u8>| 0 <= i < es.len() implies #[trigger] p(f(es[i]) + r) == Some(
        (es[i], r),
    ) by {
        lemma_entry_roundtrip(es[i], r);
    }
    lemma_take_list(es, rest, f, p);
}

/// Appends a ballot.
pub fn serialise_ballot(b: &Ballot, buf: &mut Vec<u8>)
    ensures
        final(buf)@ == old(buf)@ + ballot_bytes(*b),
{
    put_u32(buf, b.n);
    put_u64(buf, b.pid);
    assert(buf@ =~= old(buf)@ + ballot_bytes(*b));
}

/// Reads a ballot.
pub fn deserialise_ballot(r: &mut Reader) -> (b: Ballot)
    requires
        old(r).wf(),
        take_ballot(old(r).rest()) is Some,
    ensures
        final(r).wf(),
        final(r).data == old(r).data,
        take_ballot(old(r).rest()) == Some((b, final(r).rest())),
{
    let n = r.get_u32();
    let pid = r.get_u64();
    Ballot::with(n, pid)
}

/// Appends a leader to start with.
pub fn serialise_leader(l: &Option<(u64, Ballot)>, buf: &mut Vec<u8>)
    ensures
        final(buf)@ == old(buf)@ + leader_bytes(*l),
{
    match l {
        Some((pid, b)) => {
            put_u8(buf, 1);
            put_u64(buf, *pid);
            serialise_ballot(b, buf);
        },
        None => put_u8(buf, 0),
    }
    assert(buf@ =~= old(buf)@ + leader_bytes(*l));
}

/// Reads a leader to start with.
pub fn deserialise_leader(r: &mut Reader) -> (l: Option<(u64, Ballot)>)
    requires
        old(r).wf(),
        take_leader(old(r).rest()) is Some,
    ensures
        final(r).wf(),
        final(r).data == old(r).data,
        take_leader(old(r).rest()) == Some((l, final(r).rest())),
{
    let t = r.get_u8();
    if t == 1 {
        let pid = r.get_u64();
        let b = deserialise_ballot(r);
        Some((pid, b))
    } else {
        None
    }
}

/// Appends an entry.
pub fn serialise_entry(e: &Entry, buf: &mut Vec<u8>)
    requires
        entry_fits(e@),
    ensures
        final(buf)@ == old(buf)@ + entry_bytes(e@),
{
    match e {
        Entry::Normal(d) => {
            put_u8(buf, NORMAL_ENTRY_ID);
            put_blob(buf, d.as_slice());
        },
        Entry::StopSign(ss) => {
            put_u8(buf, SS_ENTRY_ID);
            put_u32(buf, ss.config_id);
            put_u64_list(buf, &ss.nodes);
            serialise_leader(&ss.skip_prepare_use_leader, buf);
        },
    }
    assert(buf@ =~= old(buf)@ + entry_bytes(e@));
}

/// Reads an entry.
pub fn deserialise_entry(r: &mut Reader) -> (e: Entry)
    requires
        old(r).wf(),
        take_entry(old(r).rest()) is Some,
    ensures
        final(r).wf(),
        final(r).data == old(r).data,
        take_entry(old(r).rest()) == Some((e@, final(r).rest())),
{
    let t = r.get_u8();
    if t == NORMAL_ENTRY_ID {
        let d = r.get_blob();
        Entry::Normal(d)
    } else {
        let config_id = r.get_u32();
        let nodes = get_u64_list(r);
        let leader = deserialise_leader(r);
        Entry::StopSign(StopSign { config_id, nodes, skip_prepare_use_leader: leader })
    }
}

/// Appends a `u32`-counted list of entries.
pub fn serialise_entries(es: &Vec<Entry>, buf: &mut Vec<u8>)
    requires
        entries_fit(entries_view(es@)),
    ensures
        final(buf)@ == old(buf)@ + entries_bytes(entries_view(es@)),
{
    let ghost f = |e: EntryView| entry_bytes(e);
    let ghost ev = entries_view(es@);
    put_u32(buf, es.len() as u32);
    let ghost start = buf@;
    let mut i: usize = 0;
    while i < es.len()
        invariant
            i <= es@.len(),
            ev == entries_view(es@),
            entries_fit(ev),
            f == (|e: EntryView| entry_bytes(e)),
            buf@ == start + concat_map(ev.take(i as int), f),
        decreases es@.len() - i,
    {
        proof {
            lemma_concat_map_push(ev.take(i as int), ev[i as int], f);
            assert(ev.take(i as int).push(ev[i as int]) =~= ev.take(i + 1));
            assert(ev[i as int] == es@[i as int]@);
            assert(entry_fits(ev[i as int]));
        }
        serialise_entry(&es[i], buf);
        i = i + 1;
        proof {
            assert(start + concat_map(ev.take(i as int), f) =~= buf@);
        }
    }
    assert(ev.take(es@.len() as int) =~= ev);
    assert(buf@ =~= old(buf)@ + entries_bytes(ev));
}

/// Reads a `u32`-counted list of entries.
pub fn deserialise_entries(r: &mut Reader) -> (es: Vec<Entry>)
    requires
        old(r).wf(),
        take_entries(old(r).rest()) is Some,
    ensures
        final(r).wf(),
        final(r).data == old(r).data,
        take_entries(old(r).rest()) == Some((entries_view(es@), final(r).rest())),
{
    let ghost p = |s: Seq<u8>| take_entry(s);
    let n = r.get_u32();
    let ghost all = take_many(n as nat, r.rest(), p).unwrap().0;
    let ghost end = take_many(n as nat, r.rest(), p).unwrap().1;
    proof {
        lemma_take_many_len(n as nat, r.rest(), p);
    }
    let mut es: Vec<Entry> = Vec::new();
    let mut i: u32 = 0;
    while i < n
        invariant
            r.wf(),
            r.data == old(r).data,
            p == (|s: Seq<u8>| take_entry(s)),
            i <= n,
            all.len() == n,
            entries_view(es@) == all.take(i as int),
            take_many((n - i) as nat, r.rest(), p) == Some((all.skip(i as int), end)),
        decreases n - i,
    {
        proof {
            lemma_take_many_step((n - i) as nat, r.rest(), p);
            assert(all.skip(i as int)[0] == all[i as int]);
            assert(all.skip(i as int).skip(1) =~= all.skip(i + 1));
            assert(seq![all[i as int]] + take_many((n - i - 1) as nat, p(r.rest()).unwrap().1, p).unwrap().0
                == all.skip(i as int));
            assert(take_many((n - i - 1) as nat, p(r.rest()).unwrap().1, p).unwrap().0 =~= all.skip(i + 1));
        }
        let ghost before = r.rest();
        let e = deserialise_entry(r);
        proof {
            assert(p(before) == take_entry(before));
            assert(e@ == all[i as int]);
        }
        let ghost old_es = es@;
        es.push(e);
        i = i + 1;
        proof {
            assert(entries_view(es@) =~= entries_view(old_es).push(e@));
            assert(all.take(i as int) =~= all.take(i - 1).push(all[i - 1]));
        }
    }
    proof {
        assert(all.take(n as int) =~= all);
        assert(all.skip(n as int) =~= Seq::<EntryView>::empty());
    }
    es
}

pub const PREPARE_ID: u8 = 1;
pub const PROMISE_ID: u8 = 2;
pub const ACCEPTSYNC_ID: u8 = 3;
pub const ACCEPTDECIDE_ID: u8 = 4;
pub const ACCEPTED_ID: u8 = 5;
pub const DECIDE_ID: u8 = 6;
pub const PROPOSALFORWARD_ID: u8 = 7;
pub const FIRSTACCEPT_ID: u8 = 8;
pub const PREPAREREQ_ID: u8 = 9;

/// Serialisation id of the messages between replicas.
pub const PAXOS_ID: u64 = 60;

/// A message between the replicas of a configuration. `ld` is a decided
/// index, `la` an accepted one, `n` the sender's ballot.
pub enum PaxosMsg {
    PrepareReq,
    Prepare { n: Ballot, ld: u64, n_accepted: Ballot, la: u64 },
    Promise { n: Ballot, n_accepted: Ballot, sfx: Vec<Entry>, ld: u64, la: u64 },
    AcceptSync { n: Ballot, entries: Vec<Entry>, sync_idx: u64 },
    FirstAccept { n: Ballot, entries: Vec<Entry> },
    AcceptDecide { n: Ballot, ld: u64, entries: Vec<Entry> },
    Accepted { n: Ballot, la: u64 },
    Decide { ld: u64, n: Ballot },
    ProposalForward(Vec<Entry>),
}

/// Abstract value of a [`PaxosMsg`].
pub enum PaxosMsgView {
    PrepareReq,
    Prepare { n: Ballot, ld: u64, n_accepted: Ballot, la: u64 },
    Promise { n: Ballot, n_accepted: Ballot, sfx: Seq<EntryView>, ld: u64, la: u64 },
    AcceptSync { n: Ballot, entries: Seq<EntryView>, sync_idx: u64 },
    FirstAccept { n: Ballot, entries: Seq<EntryView> },
    AcceptDecide { n: Ballot, ld: u64, entries: Seq<EntryView> },
    Accepted { n: Ballot, la: u64 },
    Decide { ld: u64, n: Ballot },
    ProposalForward(Seq<EntryView>),
}

impl View for PaxosMsg {
    type V = PaxosMsgView;

    open spec fn view(&self) -> PaxosMsgView {
        match self {
            PaxosMsg::PrepareReq => PaxosMsgView::PrepareReq,
            PaxosMsg::Prepare { n, ld, n_accepted, la } => PaxosMsgView::Prepare {
                n: *n,
                ld: *ld,
                n_accepted: *n_accepted,
                la: *la,
            },
            PaxosMsg::Promise { n, n_accepted, sfx, ld, la } => PaxosMsgView::Promise {
                n: *n,
                n_accepted: *n_accepted,
                sfx: entries_view(sfx@),
                ld: *ld,
                la: *la,
            },
            PaxosMsg::AcceptSync { n, entries, sync_idx } => PaxosMsgView::AcceptSync {
                n: *n,
                entries: entries_view(entries@),
                sync_idx: *sync_idx,
            },
            PaxosMsg::FirstAccept { n, entries } => PaxosMsgView::FirstAccept {
                n: *n,
                entries: entries_view(entries@),
            },
            PaxosMsg::AcceptDecide { n, ld, entries } => PaxosMsgView::AcceptDecide {
                n: *n,
                ld: *ld,
                entries: entries_view(entries@),
            },
            PaxosMsg::Accepted { n, la } => PaxosMsgView::Accepted { n: *n, la: *la },
            PaxosMsg::Decide { ld, n } => PaxosMsgView::Decide { ld: *ld, n: *n },
            PaxosMsg::ProposalForward(es) => PaxosMsgView::ProposalForward(entries_view(es@)),
        }
    }
}

/// A message between replicas, with its sender and receiver pids.
pub struct PaxosMessage {
    pub from: u64,
    pub to: u64,
    pub msg: PaxosMsg,
}

pub open spec fn paxos_msg_fits(m: PaxosMsgView) -> bool {
    match m {
        PaxosMsgView::Promise { sfx, .. } => entries_fit(sfx),
        PaxosMsgView::AcceptSync { entries, .. } => entries_fit(entries),
        PaxosMsgView::FirstAccept { entries, .. } => entries_fit(entries),
        PaxosMsgView::AcceptDecide { entries, .. } => entries_fit(entries),
        PaxosMsgView::ProposalForward(entries) => entries_fit(entries),
        _ => true,
    }
}

pub open spec fn paxos_body_bytes(m: PaxosMsgView) -> Seq<u8> {
    match m {
        PaxosMsgView::PrepareReq => seq![PREPAREREQ_ID],
        PaxosMsgView::Prepare { n, ld, n_accepted, la } => seq![PREPARE_ID] + u64_bytes(ld) + u64_bytes(
            la,
        ) + ballot_bytes(n) + ballot_bytes(n_accepted),
        PaxosMsgView::Promise { n, n_accepted, sfx, ld, la } => seq![PROMISE_ID] + u64_bytes(ld)
            + u64_bytes(la) + ballot_bytes(n) + ballot_bytes(n_accepted) + entries_bytes(sfx),
        PaxosMsgView::AcceptSync { n, entries, sync_idx } => seq![ACCEPTSYNC_ID] + u64_bytes(sync_idx)
            + ballot_bytes(n) + entries_bytes(entries),
        PaxosMsgView::FirstAccept { n, entries } => seq![FIRSTACCEPT_ID] + ballot_bytes(n)
            + entries_bytes(entries),
        PaxosMsgView::AcceptDecide { n, ld, entries } => seq![ACCEPTDECIDE_ID] + u64_bytes(ld)
            + ballot_bytes(n) + entries_bytes(entries),
        PaxosMsgView::Accepted { n, la } => seq![ACCEPTED_ID] + ballot_bytes(n) + u64_bytes(la),
        PaxosMsgView::Decide { ld, n } => seq![DECIDE_ID] + ballot_bytes(n) + u64_bytes(ld),
        PaxosMsgView::ProposalForward(entries) => seq![PROPOSALFORWARD_ID] + entries_bytes(entries),
    }
}

/// The bytes of a message: sender, receiver, then the tagged body.
pub open spec fn paxos_bytes(from: u64, to: u64, m: PaxosMsgView) -> Seq<u8> {
    u64_bytes(from) + u64_bytes(to) + paxos_body_bytes(m)
}

/// Reads the two ballots after two indices, as a prepare and a promise begin.
pub open spec fn take_two_idx_two_ballots(s: Seq<u8>) -> Option<((u64, u64, Ballot, Ballot), Seq<u8>)> {
    match take_u64(s) {
        Some((ld, s1)) => match take_u64(s1) {
            Some((la, s2)) => match take_ballot(s2) {
                Some((n, s3)) => match take_ballot(s3) {
                    Some((na, s4)) => Some(((ld, la, n, na), s4)),
                    None => None,
                },
                None => None,
            },
            None => None,
        },
        None => None,
    }
}

pub open spec fn take_prepare(s: Seq<u8>) -> Option<(PaxosMsgView, Seq<u8>)> {
    match take_two_idx_two_ballots(s) {
        Some(((ld, la, n, na), s1)) => Some((PaxosMsgView::Prepare { n, ld, n_accepted: na, la }, s1)),
        None => None,
    }
}

pub open spec fn take_promise(s: Seq<u8>) -> Option<(PaxosMsgView, Seq<u8>)> {
    match take_two_idx_two_ballots(s) {
        Some(((ld, la, n, na), s1)) => match take_entries(s1) {
            Some((sfx, s2)) => Some((PaxosMsgView::Promise { n, n_accepted: na, sfx, ld, la }, s2)),
            None => None,
        },
        None => None,
    }
}

pub open spec fn take_accept_sync(s: Seq<u8>) -> Option<(PaxosMsgView, Seq<u8>)> {
    match take_u64(s) {
        Some((sync_idx, s1)) => match take_ballot(s1) {
            Some((n, s2)) => match take_entries(s2) {
                Some((entries, s3)) => Some((PaxosMsgView::AcceptSync { n, entries, sync_idx }, s3)),
                None => None,
            },
            None => None,
        },
        None => None,
    }
}

pub open spec fn take_accept_decide(s: Seq<u8>) -> Option<(PaxosMsgView, Seq<u8>)> {
    match take_u64(s) {
        Some((ld, s1)) => match take_ballot(s1) {
            Some((n, s2)) => match take_entries(s2) {
                Some((entries, s3)) => Some((PaxosMsgView::AcceptDecide { n, ld, entries }, s3)),
                None => None,
            },
            None => None,
        },
        None => None,
    }
}

pub open spec fn take_accepted(s: Seq<u8>) -> Option<(PaxosMsgView, Seq<u8>)> {
    match take_ballot(s) {
        Some((n, s1)) => match take_u64(s1) {
            Some((la, s2)) => Some((PaxosMsgView::Accepted { n, la }, s2)),
            None => None,
        },
        None => None,
    }
}

pub open spec fn take_decide(s: Seq<u8>) -> Option<(PaxosMsgView, Seq<u8>)> {
    match take_ballot(s) {
        Some((n, s1)) => match take_u64(s1) {
            Some((ld, s2)) => Some((PaxosMsgView::Decide { ld, n }, s2)),
            None => None,
        },
        None => None,
    }
}

pub open spec fn take_proposal_forward(s: Seq<u8>) -> Option<(PaxosMsgView, Seq<u8>)> {
    match take_entries(s) {
        Some((entries, s1)) => Some((PaxosMsgView::ProposalForward(entries), s1)),
        None => None,
    }
}

pub open spec fn take_first_accept(s: Seq<u8>) -> Option<(PaxosMsgView, Seq<u8>)> {
    match take_ballot(s) {
        Some((n, s1)) => match take_entries(s1) {
            Some((entries, s2)) => Some((PaxosMsgView::FirstAccept { n, entries }, s2)),
            None => None,
        },
        None => None,
    }
}

/// Reads the body that follows tag `t`; an unknown tag is an error.
#[verifier::opaque]
pub open spec fn take_body_of(t: u8, s: Seq<u8>) -> Taken<PaxosMsgView> {
    if t == PREPAREREQ_ID {
        lift(Some((PaxosMsgView::PrepareReq, s)))
    } else if t == PREPARE_ID {
        lift(take_prepare(s))
    } else if t == PROMISE_ID {
        lift(take_promise(s))
    } else if t == ACCEPTSYNC_ID {
        lift(take_accept_sync(s))
    } else if t == ACCEPTDECIDE_ID {
        lift(take_accept_decide(s))
    } else if t == ACCEPTED_ID {
        lift(take_accepted(s))
    } else if t == DECIDE_ID {
        lift(take_decide(s))
    } else if t == PROPOSALFORWARD_ID {
        lift(take_proposal_forward(s))
    } else if t == FIRSTACCEPT_ID {
        lift(take_first_accept(s))
    } else {
        Some(Err(t))
    }
}

pub open spec fn take_paxos_body(s: Seq<u8>) -> Taken<PaxosMsgView> {
    match take_u8(s) {
        None => None,
        Some((t, s1)) => take_body_of(t, s1),
    }
}

/// Reads a message: sender, receiver and body; an unknown tag is an error.
pub open spec fn take_paxos(s: Seq<u8>) -> Taken<(u64, u64, PaxosMsgView)> {
    match take_u64(s) {
        Some((from, s1)) => match take_u64(s1) {
            Some((to, s2)) => match take_paxos_body(s2) {
                Some(Ok((m, s3))) => Some(Ok(((from, to, m), s3))),
                Some(Err(t)) => Some(Err(t)),
                None => None,
            },
            None => None,
        },
        None => None,
    }
}

proof fn lemma_two_idx_two_ballots(ld: u64, la: u64, n: Ballot, na: Ballot, rest: Seq<u8>)
    ensures
        take_two_idx_two_ballots(u64_bytes(ld) + u64_bytes(la) + ballot_bytes(n) + ballot_bytes(na) + rest)
            == Some(((ld, la, n, na), rest)),
{
    let r3 = ballot_bytes(na) + rest;
    let r2 = ballot_bytes(n) + r3;
    let r1 = u64_bytes(la) + r2;
    assert(u64_bytes(ld) + u64_bytes(la) + ballot_bytes(n) + ballot_bytes(na) + rest =~= u64_bytes(ld)
        + r1);
    lemma_take_u64(ld, r1);
    lemma_take_u64(la, r2);
    lemma_ballot_roundtrip(n, r3);
    lemma_ballot_roundtrip(na, rest);
}

proof fn lemma_dispatch_prepare_req(s: Seq<u8>)
    ensures
        take_body_of(PREPAREREQ_ID, s) == lift(Some((PaxosMsgView::PrepareReq, s))),
{
    reveal(take_body_of);
}

proof fn lemma_dispatch_prepare(s: Seq<u8>)
    ensures
        take_body_of(PREPARE_ID, s) == lift(take_prepare(s)),
{
    reveal(take_body_of);
}

proof fn lemma_dispatch_promise(s: Seq<u8>)
    ensures
        take_body_of(PROMISE_ID, s) == lift(take_promise(s)),
{
    reveal(take_body_of);
}

proof fn lemma_dispatch_accept_sync(s: Seq<u8>)
    ensures
        take_body_of(ACCEPTSYNC_ID, s) == lift(take_accept_sync(s)),
{
    reveal(take_body_of);
}

proof fn lemma_dispatch_accept_decide(s: Seq<u8>)
    ensures
        take_body_of(ACCEPTDECIDE_ID, s) == lift(take_accept_decide(s)),
{
    reveal(take_body_of);
}

proof fn lemma_dispatch_accepted(s: Seq<u8>)
    ensures
        take_body_of(ACCEPTED_ID, s) == lift(take_accepted(s)),
{
    reveal(take_body_of);
}

proof fn lemma_dispatch_decide(s: Seq<u8>)
    ensures
        take_body_of(DECIDE_ID, s) == lift(take_decide(s)),
{
    reveal(take_body_of);
}

proof fn lemma_dispatch_proposal_forward(s: Seq<u8>)
    ensures
        take_body_of(PROPOSALFORWARD_ID, s) == lift(take_proposal_forward(s)),
{
    reveal(take_body_of);
}

proof fn lemma_dispatch_first_accept(s: Seq<u8>)
    ensures
        take_body_of(FIRSTACCEPT_ID, s) == lift(take_first_accept(s)),
{
    reveal(take_body_of);
}

proof fn lemma_rt_tag(t: u8, fields: Seq<u8>, rest: Seq<u8>)
    ensures
        take_paxos_body(seq![t] + fields + rest) == take_body_of(t, fields + rest),
{
    assert(seq![t] + fields + rest =~= seq![t] + (fields + rest));
    lemma_take_u8(t, fields + rest);
}

proof fn lemma_rt_prepare(n: Ballot, ld: u64, na: Ballot, la: u64, rest: Seq<u8>)
    ensures
        ({
            let m = PaxosMsgView::Prepare { n, ld, n_accepted: na, la };
            take_paxos_body(paxos_body_bytes(m) + rest) == lift(Some((m, rest)))
        }),
{
    let f = u64_bytes(ld) + u64_bytes(la) + ballot_bytes(n) + ballot_bytes(na);
    assert(paxos_body_bytes(PaxosMsgView::Prepare { n, ld, n_accepted: na, la }) =~= seq![PREPARE_ID] + f);
    lemma_rt_tag(PREPARE_ID, f, rest);
    lemma_dispatch_prepare(f + rest);
    lemma_two_idx_two_ballots(ld, la, n, na, rest);
}

proof fn lemma_promise_fields(n: Ballot, na: Ballot, sfx: Seq<EntryView>, ld: u64, la: u64, rest: Seq<u8>)
    requires
        entries_fit(sfx),
    ensures
        take_promise(u64_bytes(ld) + u64_bytes(la) + ballot_bytes(n) + ballot_bytes(na) + entries_bytes(sfx)
            + rest) == Some((PaxosMsgView::Promise { n, n_accepted: na, sfx, ld, la }, rest)),
{
    let r2 = entries_bytes(sfx) + rest;
    assert(u64_bytes(ld) + u64_bytes(la) + ballot_bytes(n) + ballot_bytes(na) + entries_bytes(sfx) + rest
        =~= u64_bytes(ld) + u64_bytes(la) + ballot_bytes(n) + ballot_bytes(na) + r2);
    lemma_two_idx_two_ballots(ld, la, n, na, r2);
    lemma_entries_roundtrip(sfx, rest);
}

proof fn lemma_rt_promise(n: Ballot, na: Ballot, sfx: Seq<EntryView>, ld: u64, la: u64, rest: Seq<u8>)
    requires
        entries_fit(sfx),
    ensures
        ({
            let m = PaxosMsgView::Promise { n, n_accepted: na, sfx, ld, la };
            take_paxos_body(paxos_body_bytes(m) + rest) == lift(Some((m, rest)))
        }),
{
    let f = u64_bytes(ld) + u64_bytes(la) + ballot_bytes(n) + ballot_bytes(na) + entries_bytes(sfx);
    assert(paxos_body_bytes(PaxosMsgView::Promise { n, n_accepted: na, sfx, ld, la }) =~= seq![PROMISE_ID] + f);
    lemma_rt_tag(PROMISE_ID, f, rest);
    lemma_dispatch_promise(f + rest);
    lemma_promise_fields(n, na, sfx, ld, la, rest);
}

proof fn lemma_accept_sync_fields(n: Ballot, entries: Seq<EntryView>, sync_idx: u64, rest: Seq<u8>)
    requires
        entries_fit(entries),
    ensures
        take_accept_sync(u64_bytes(sync_idx) + ballot_bytes(n) + entries_bytes(entries) + rest) == Some(
            (PaxosMsgView::AcceptSync { n, entries, sync_idx }, rest),
        ),
{
    let r1 = ballot_bytes(n) + entries_bytes(entries) + rest;
    assert(u64_bytes(sync_idx) + ballot_bytes(n) + entries_bytes(entries) + rest =~= u64_bytes(sync_idx) + r1);
    lemma_take_u64(sync_idx, r1);
    lemma_entries_fields(n, entries, rest);
}

proof fn lemma_rt_accept_sync(n: Ballot, entries: Seq<EntryView>, sync_idx: u64, rest: Seq<u8>)
    requires
        entries_fit(entries),
    ensures
        ({
            let m = PaxosMsgView::AcceptSync { n, entries, sync_idx };
            take_paxos_body(paxos_body_bytes(m) + rest) == lift(Some((m, rest)))
        }),
{
    let f = u64_bytes(sync_idx) + ballot_bytes(n) + entries_bytes(entries);
    assert(paxos_body_bytes(PaxosMsgView::AcceptSync { n, entries, sync_idx }) =~= seq![ACCEPTSYNC_ID] + f);
    lemma_rt_tag(ACCEPTSYNC_ID, f, rest);
    lemma_dispatch_accept_sync(f + rest);
    lemma_accept_sync_fields(n, entries, sync_idx, rest);
}

proof fn lemma_accept_decide_fields(n: Ballot, ld: u64, entries: Seq<EntryView>, rest: Seq<u8>)
    requires
        entries_fit(entries),
    ensures
        take_accept_decide(u64_bytes(ld) + ballot_bytes(n) + entries_bytes(entries) + rest) == Some(
            (PaxosMsgView::AcceptDecide { n, ld, entries }, rest),
        ),
{
    let r1 = ballot_bytes(n) + entries_bytes(entries) + rest;
    assert(u64_bytes(ld) + ballot_bytes(n) + entries_bytes(entries) + rest =~= u64_bytes(ld) + r1);
    lemma_take_u64(ld, r1);
    lemma_entries_fields(n, entries, rest);
}

proof fn lemma_rt_accept_decide(n: Ballot, ld: u64, entries: Seq<EntryView>, rest: Seq<u8>)
    requires
        entries_fit(entries),
    ensures
        ({
            let m = PaxosMsgView::AcceptDecide { n, ld, entries };
            take_paxos_body(paxos_body_bytes(m) + rest) == lift(Some((m, rest)))
        }),
{
    let f = u64_bytes(ld) + ballot_bytes(n) + entries_bytes(entries);
    assert(paxos_body_bytes(PaxosMsgView::AcceptDecide { n, ld, entries }) =~= seq![ACCEPTDECIDE_ID] + f);
    lemma_rt_tag(ACCEPTDECIDE_ID, f, rest);
    lemma_dispatch_accept_decide(f + rest);
    lemma_accept_decide_fields(n, ld, entries, rest);
}

proof fn lemma_first_accept_fields(n: Ballot, entries: Seq<EntryView>, rest: Seq<u8>)
    requires
        entries_fit(entries),
    ensures
        take_first_accept(ballot_bytes(n) + entries_bytes(entries) + rest) == Some(
            (PaxosMsgView::FirstAccept { n, entries }, rest),
        ),
{
    lemma_entries_fields(n, entries, rest);
}

proof fn lemma_rt_first_accept(n: Ballot, entries: Seq<EntryView>, rest: Seq<u8>)
    requires
        entries_fit(entries),
    ensures
        ({
            let m = PaxosMsgView::FirstAccept { n, entries };
            take_paxos_body(paxos_body_bytes(m) + rest) == lift(Some((m, rest)))
        }),
{
    let f = ballot_bytes(n) + entries_bytes(entries);
    assert(paxos_body_bytes(PaxosMsgView::FirstAccept { n, entries }) =~= seq![FIRSTACCEPT_ID] + f);
    lemma_rt_tag(FIRSTACCEPT_ID, f, rest);
    lemma_dispatch_first_accept(f + rest);
    lemma_first_accept_fields(n, entries, rest);
}

proof fn lemma_rt_accepted(n: Ballot, la: u64, rest: Seq<u8>)
    ensures
        ({
            let m = PaxosMsgView::Accepted { n, la };
            take_paxos_body(paxos_body_bytes(m) + rest) == lift(Some((m, rest)))
        }),
{
    let f = ballot_bytes(n) + u64_bytes(la);
    assert(paxos_body_bytes(PaxosMsgView::Accepted { n, la }) =~= seq![ACCEPTED_ID] + f);
    lemma_rt_tag(ACCEPTED_ID, f, rest);
    lemma_dispatch_accepted(f + rest);
    assert(f + rest =~= ballot_bytes(n) + (u64_bytes(la) + rest));
    lemma_ballot_roundtrip(n, u64_bytes(la) + rest);
    lemma_take_u64(la, rest);
}

proof fn lemma_rt_decide(ld: u64, n: Ballot, rest: Seq<u8>)
    ensures
        ({
            let m = PaxosMsgView::Decide { ld, n };
            take_paxos_body(paxos_body_bytes(m) + rest) == lift(Some((m, rest)))
        }),
{
    let f = ballot_bytes(n) + u64_bytes(ld);
    assert(paxos_body_bytes(PaxosMsgView::Decide { ld, n }) =~= seq![DECIDE_ID] + f);
    lemma_rt_tag(DECIDE_ID, f, rest);
    lemma_dispatch_decide(f + rest);
    assert(f + rest =~= ballot_bytes(n) + (u64_bytes(ld) + rest));
    lemma_ballot_roundtrip(n, u64_bytes(ld) + rest);
    lemma_take_u64(ld, rest);
}

proof fn lemma_rt_proposal_forward(entries: Seq<EntryView>, rest: Seq<u8>)
    requires
        entries_fit(entries),
    ensures
        ({
            let m = PaxosMsgView::ProposalForward(entries);
            take_paxos_body(paxos_body_bytes(m) + rest) == lift(Some((m, rest)))
        }),
{
    let f = entries_bytes(entries);
    assert(paxos_body_bytes(PaxosMsgView::ProposalForward(entries)) =~= seq![PROPOSALFORWARD_ID] + f);
    lemma_rt_tag(PROPOSALFORWARD_ID, f, rest);
    lemma_dispatch_proposal_forward(f + rest);
    lemma_entries_roundtrip(entries, rest);
}

proof fn lemma_rt_prepare_req(rest: Seq<u8>)
    ensures
        take_paxos_body(paxos_body_bytes(PaxosMsgView::PrepareReq) + rest) == lift(
            Some((PaxosMsgView::PrepareReq, rest)),
        ),
{
    assert(paxos_body_bytes(PaxosMsgView::PrepareReq) =~= seq![PREPAREREQ_ID] + Seq::<u8>::empty());
    lemma_rt_tag(PREPAREREQ_ID, Seq::<u8>::empty(), rest);
    assert(Seq::<u8>::empty() + rest =~= rest);
    lemma_dispatch_prepare_req(rest);
}

proof fn lemma_entries_fields(n: Ballot, entries: Seq<EntryView>, rest: Seq<u8>)
    requires
        entries_fit(entries),
    ensures
        take_ballot(ballot_bytes(n) + entries_bytes(entries) + rest) == Some((n, entries_bytes(entries) + rest)),
        take_entries(entries_bytes(entries) + rest) == Some((entries, rest)),
{
    let r2 = entries_bytes(entries) + rest;
    assert(ballot_bytes(n) + entries_bytes(entries) + rest =~= ballot_bytes(n) + r2);
    lemma_ballot_roundtrip(n, r2);
    lemma_entries_roundtrip(entries, rest);
}

/// Every body of a message between replicas reads back as itself.
pub proof fn lemma_paxos_body_roundtrip(m: PaxosMsgView, rest: Seq<u8>)
    requires
        paxos_msg_fits(m),
    ensures
        take_paxos_body(paxos_body_bytes(m) + rest) == lift(Some((m, rest))),
{
    match m {
        PaxosMsgView::PrepareReq => lemma_rt_prepare_req(rest),
        PaxosMsgView::Prepare { n, ld, n_accepted, la } => lemma_rt_prepare(n, ld, n_accepted, la, rest),
        PaxosMsgView::Promise { n, n_accepted, sfx, ld, la } => lemma_rt_promise(n, n_accepted, sfx, ld, la, rest),
        PaxosMsgView::AcceptSync { n, entries, sync_idx } => lemma_rt_accept_sync(n, entries, sync_idx, rest),
        PaxosMsgView::FirstAccept { n, entries } => lemma_rt_first_accept(n, entries, rest),
        PaxosMsgView::AcceptDecide { n, ld, entries } => lemma_rt_accept_decide(n, ld, entries, rest),
        PaxosMsgView::Accepted { n, la } => lemma_rt_accepted(n, la, rest),
        PaxosMsgView::Decide { ld, n } => lemma_rt_decide(ld, n, rest),
        PaxosMsgView::ProposalForward(entries) => lemma_rt_proposal_forward(entries, rest),
    }
}

/// Every message between replicas reads back as itself.
pub proof fn lemma_paxos_roundtrip(from: u64, to: u64, m: PaxosMsgView, rest: Seq<u8>)
    requires
        paxos_msg_fits(m),
    ensures
        take_paxos(paxos_bytes(from, to, m) + rest) == lift(Some(((from, to, m), rest))),
{
    let r2 = paxos_body_bytes(m) + rest;
    let r1 = u64_bytes(to) + r2;
    assert(paxos_bytes(from, to, m) + rest =~= u64_bytes(from) + r1);
    lemma_take_u64(from, r1);
    lemma_take_u64(to, r2);
    lemma_paxos_body_roundtrip(m, rest);
}

/// Appends the tagged body of a message.
#[verifier::rlimit(40)]
fn serialise_body(msg: &PaxosMsg, buf: &mut Vec<u8>)
    requires
        paxos_msg_fits(msg@),
    ensures
        final(buf)@ == old(buf)@ + paxos_body_bytes(msg@),
{
match msg {
        PaxosMsg::PrepareReq => {
            put_u8(buf, PREPAREREQ_ID);
        },
        PaxosMsg::Prepare { n, ld, n_accepted, la } => {
            put_u8(buf, PREPARE_ID);
            put_u64(buf, *ld);
            put_u64(buf, *la);
            serialise_ballot(n, buf);
            serialise_ballot(n_accepted, buf);
        },
        PaxosMsg::Promise { n, n_accepted, sfx, ld, la } => {
            put_u8(buf, PROMISE_ID);
            put_u64(buf, *ld);
            put_u64(buf, *la);
            serialise_ballot(n, buf);
            serialise_ballot(n_accepted, buf);
            serialise_entries(sfx, buf);
        },
        PaxosMsg::AcceptSync { n, entries, sync_idx } => {
            put_u8(buf, ACCEPTSYNC_ID);
            put_u64(buf, *sync_idx);
            serialise_ballot(n, buf);
            serialise_entries(entries, buf);
        },
        PaxosMsg::FirstAccept { n, entries } => {
            put_u8(buf, FIRSTACCEPT_ID);
            serialise_ballot(n, buf);
            serialise_entries(entries, buf);
        },
        PaxosMsg::AcceptDecide { n, ld, entries } => {
            put_u8(buf, ACCEPTDECIDE_ID);
            put_u64(buf, *ld);
            serialise_ballot(n, buf);
            serialise_entries(entries, buf);
        },
        PaxosMsg::Accepted { n, la } => {
            put_u8(buf, ACCEPTED_ID);
            serialise_ballot(n, buf);
            put_u64(buf, *la);
        },
        PaxosMsg::Decide { ld, n } => {
            put_u8(buf, DECIDE_ID);
            serialise_ballot(n, buf);
            put_u64(buf, *ld);
        },
        PaxosMsg::ProposalForward(entries) => {
            put_u8(buf, PROPOSALFORWARD_ID);
            serialise_entries(entries, buf);
        },
    }
    assert(buf@ =~= old(buf)@ + paxos_body_bytes(msg@));
}

/// Reads the tagged body of a message.
#[verifier::rlimit(40)]
fn deserialise_body(buf: &mut Reader) -> (res: Result<PaxosMsg, SerError>)
    requires
        old(buf).wf(),
        take_paxos_body(old(buf).rest()) is Some,
    ensures
        final(buf).wf(),
        final(buf).data == old(buf).data,
        match res {
            Ok(m) => take_paxos_body(old(buf).rest()) == lift(Some((m@, final(buf).rest()))),
            Err(SerError::InvalidType(t)) => take_paxos_body(old(buf).rest()) == Some(
                Err::<(PaxosMsgView, Seq<u8>), u8>(t),
            ),
        },
{
    reveal(take_body_of);
    let t = buf.get_u8();
    let msg = if t == PREPAREREQ_ID {
        PaxosMsg::PrepareReq
    } else if t == PREPARE_ID {
        let ld = buf.get_u64();
        let la = buf.get_u64();
        let n = deserialise_ballot(buf);
        let n_accepted = deserialise_ballot(buf);
        PaxosMsg::Prepare { n, ld, n_accepted, la }
    } else if t == PROMISE_ID {
        let ld = buf.get_u64();
        let la = buf.get_u64();
        let n = deserialise_ballot(buf);
        let n_accepted = deserialise_ballot(buf);
        let sfx = deserialise_entries(buf);
        PaxosMsg::Promise { n, n_accepted, sfx, ld, la }
    } else if t == ACCEPTSYNC_ID {
        let sync_idx = buf.get_u64();
        let n = deserialise_ballot(buf);
        let entries = deserialise_entries(buf);
        PaxosMsg::AcceptSync { n, entries, sync_idx }
    } else if t == ACCEPTDECIDE_ID {
        let ld = buf.get_u64();
        let n = deserialise_ballot(buf);
        let entries = deserialise_entries(buf);
        PaxosMsg::AcceptDecide { n, ld, entries }
    } else if t == ACCEPTED_ID {
        let n = deserialise_ballot(buf);
        let la = buf.get_u64();
        PaxosMsg::Accepted { n, la }
    } else if t == DECIDE_ID {
        let n = deserialise_ballot(buf);
        let ld = buf.get_u64();
        PaxosMsg::Decide { ld, n }
    } else if t == PROPOSALFORWARD_ID {
        let entries = deserialise_entries(buf);
        PaxosMsg::ProposalForward(entries)
    } else if t == FIRSTACCEPT_ID {
        let n = deserialise_ballot(buf);
        let entries = deserialise_entries(buf);
        PaxosMsg::FirstAccept { n, entries }
    } else {
        return Err(SerError::InvalidType(t));
    };
    Ok(msg)
}

/// The size of a proposal's payload in the experiments.
pub const DATA_SIZE: usize = 8;

/// How many entries a message carries.
pub open spec fn num_entries(m: PaxosMsgView) -> nat {
    match m {
        PaxosMsgView::Promise { sfx, .. } => sfx.len(),
        PaxosMsgView::AcceptSync { entries, .. } => entries.len(),
        PaxosMsgView::FirstAccept { entries, .. } => entries.len(),
        PaxosMsgView::AcceptDecide { entries, .. } => entries.len(),
        _ => 0,
    }
}

/// The estimated size of a message between replicas, for the I/O counts:
/// the message itself and a payload per entry it carries.
pub fn estimate_paxos_msg_size(pm: &PaxosMessage) -> (size: usize)
    requires
        num_entries(pm.msg@) * DATA_SIZE + vstd::layout::spec_size_of_val::<PaxosMessage>(pm) <= usize::MAX,
    ensures
        size == num_entries(pm.msg@) * DATA_SIZE + vstd::layout::spec_size_of_val::<PaxosMessage>(pm),
{
    let n = match &pm.msg {
        PaxosMsg::Promise { sfx, .. } => sfx.len(),
        PaxosMsg::AcceptSync { entries, .. } => entries.len(),
        PaxosMsg::FirstAccept { entries, .. } => entries.len(),
        PaxosMsg::AcceptDecide { entries, .. } => entries.len(),
        _ => 0,
    };
    proof {
        assert(n == num_entries(pm.msg@)) by {
            match &pm.msg {
                PaxosMsg::Promise { sfx, .. } => assert(entries_view(sfx@).len() == sfx@.len()),
                PaxosMsg::AcceptSync { entries, .. } => assert(entries_view(entries@).len() == entries@.len()),
                PaxosMsg::FirstAccept { entries, .. } => assert(entries_view(entries@).len() == entries@.len()),
                PaxosMsg::AcceptDecide { entries, .. } => assert(entries_view(entries@).len() == entries@.len()),
                _ => {},
            }
        }
    }
    n * DATA_SIZE + std::mem::size_of_val(pm)
}

pub struct PaxosSer;

impl PaxosMessage {
    pub fn ser_id(&self) -> (id: u64)
        ensures
            id == PAXOS_ID,
    {
        PAXOS_ID
    }

    pub fn size_hint(&self) -> (h: Option<usize>)
        ensures
            h is None,
    {
        None
    }

    pub fn serialise(&self, buf: &mut Vec<u8>) -> (res: Result<(), SerError>)
        requires
            paxos_msg_fits(self.msg@),
        ensures
            res is Ok,
            final(buf)@ == old(buf)@ + paxos_bytes(self.from, self.to, self.msg@),
    {
        put_u64(buf, self.from);
        put_u64(buf, self.to);
        let ghost mid = buf@;
        serialise_body(&self.msg, buf);
        assert(buf@ =~= mid + paxos_body_bytes(self.msg@));
        assert(buf@ =~= old(buf)@ + paxos_bytes(self.from, self.to, self.msg@));
        Ok(())
    }
}

impl PaxosSer {
    pub const SER_ID: u64 = PAXOS_ID;

    /// Reads a message between replicas; an unknown tag is an error.
    pub fn deserialise(buf: &mut Reader) -> (res: Result<PaxosMessage, SerError>)
        requires
            old(buf).wf(),
            take_paxos(old(buf).rest()) is Some,
        ensures
            final(buf).wf(),
            final(buf).data == old(buf).data,
            match res {
                Ok(m) => take_paxos(old(buf).rest()) == lift(
                    Some(((m.from, m.to, m.msg@), final(buf).rest())),
                ),
                Err(SerError::InvalidType(t)) => take_paxos(old(buf).rest()) == Some(
                    Err::<((u64, u64, PaxosMsgView), Seq<u8>), u8>(t),
                ),
            },
    {
        let from = buf.get_u64();
        let to = buf.get_u64();
        let msg = match deserialise_body(buf) {
            Ok(m) => m,
            Err(e) => {
                return Err(e);
            },
        };
        Ok(PaxosMessage { from, to, msg })
    }
}

pub const RECONFIG_INIT_ID: u8 = 1;
pub const SEQ_REQ_ID: u8 = 2;
pub const SEQ_TRANSFER_ID: u8 = 3;

/// Serialisation id of the reconfiguration messages.
pub const RECONFIG_SER_ID: u64 = 61;

/// Tells a node of a new configuration: its id and nodes, the decided
/// sequence before it, the sender, and the leader it may start with.
pub struct ReconfigInit {
    pub config_id: u32,
    pub nodes: Reconfig,
    pub seq_metadata: SequenceMetaData,
    pub from: u64,
    pub skip_prepare_use_leader: Option<(u64, Ballot)>,
}

/// A segment of a decided sequence, or the news that it is not decided yet.
pub struct SegmentTransfer {
    pub config_id: u32,
    pub succeeded: bool,
    pub metadata: SequenceMetaData,
    pub segment: SequenceSegment<Entry>,
}

pub enum ReconfigurationMsg {
    Init(ReconfigInit),
    SegmentRequest(SegmentRequest),
    SegmentTransfer(SegmentTransfer),
}

/// Abstract value of a [`ReconfigurationMsg`].
pub enum ReconfigurationMsgView {
    Init {
        config_id: u32,
        from: u64,
        seq_metadata: SequenceMetaData,
        continued_nodes: Seq<u64>,
        new_nodes: Seq<u64>,
        leader: Option<(u64, Ballot)>,
    },
    SegmentRequest(SegmentRequest),
    SegmentTransfer {
        config_id: u32,
        succeeded: bool,
        idx: SegmentIndex,
        metadata: SequenceMetaData,
        entries: Seq<EntryView>,
    },
}

impl View for ReconfigurationMsg {
    type V = ReconfigurationMsgView;

    open spec fn view(&self) -> ReconfigurationMsgView {
        match self {
            ReconfigurationMsg::Init(r) => ReconfigurationMsgView::Init {
                config_id: r.config_id,
                from: r.from,
                seq_metadata: r.seq_metadata,
                continued_nodes: r.nodes.continued_nodes@,
                new_nodes: r.nodes.new_nodes@,
                leader: r.skip_prepare_use_leader,
            },
            ReconfigurationMsg::SegmentRequest(sr) => ReconfigurationMsgView::SegmentRequest(*sr),
            ReconfigurationMsg::SegmentTransfer(st) => ReconfigurationMsgView::SegmentTransfer {
                config_id: st.config_id,
                succeeded: st.succeeded,
                idx: st.segment.idx,
                metadata: st.metadata,
                entries: entries_view(st.segment.entries@),
            },
        }
    }
}

pub open spec fn reconfig_fits(m: ReconfigurationMsgView) -> bool {
    match m {
        ReconfigurationMsgView::Init { continued_nodes, new_nodes, .. } => continued_nodes.len()
            <= u32::MAX && new_nodes.len() <= u32::MAX,
        ReconfigurationMsgView::SegmentRequest(_) => true,
        ReconfigurationMsgView::SegmentTransfer { entries, .. } => entries_fit(entries),
    }
}

pub open spec fn metadata_bytes(m: SequenceMetaData) -> Seq<u8> {
    u32_bytes(m.config_id) + u64_bytes(m.len)
}

pub open spec fn take_metadata(s: Seq<u8>) -> Option<(SequenceMetaData, Seq<u8>)> {
    match take_u32(s) {
        Some((config_id, s1)) => match take_u64(s1) {
            Some((len, s2)) => Some((SequenceMetaData { config_id, len }, s2)),
            None => None,
        },
        None => None,
    }
}

pub open spec fn reconfig_bytes(m: ReconfigurationMsgView) -> Seq<u8> {
    match m {
        ReconfigurationMsgView::Init { config_id, from, seq_metadata, continued_nodes, new_nodes, leader } =>
            seq![RECONFIG_INIT_ID] + u32_bytes(config_id) + u64_bytes(from) + metadata_bytes(seq_metadata)
            + u64_list_bytes(continued_nodes) + u64_list_bytes(new_nodes) + leader_bytes(leader),
        ReconfigurationMsgView::SegmentRequest(sr) => seq![SEQ_REQ_ID] + u32_bytes(sr.config_id)
            + u64_bytes(sr.idx.from) + u64_bytes(sr.idx.to) + u64_bytes(sr.requestor_pid),
        ReconfigurationMsgView::SegmentTransfer { config_id, succeeded, idx, metadata, entries } =>
            seq![SEQ_TRANSFER_ID] + u32_bytes(config_id) + seq![
            if succeeded {
                1u8
            } else {
                0u8
            },
        ] + u64_bytes(idx.from) + u64_bytes(idx.to) + metadata_bytes(metadata) + entries_bytes(entries),
    }
}

#[verifier::opaque]
pub open spec fn take_init(s: Seq<u8>) -> Option<(ReconfigurationMsgView, Seq<u8>)> {
    match take_u32(s) {
        Some((config_id, s1)) => match take_u64(s1) {
            Some((from, s2)) => match take_metadata(s2) {
                Some((seq_metadata, s3)) => match take_u64_list(s3) {
                    Some((continued_nodes, s4)) => match take_u64_list(s4) {
                        Some((new_nodes, s5)) => match take_leader(s5) {
                            Some((leader, s6)) => Some(
                                (
                                    ReconfigurationMsgView::Init {
                                        config_id,
                                        from,
                                        seq_metadata,
                                        continued_nodes,
                                        new_nodes,
                                        leader,
                                    },
                                    s6,
                                ),
                            ),
                            None => None,
                        },
                        None => None,
                    },
                    None => None,
                },
                None => None,
            },
            None => None,
        },
        None => None,
    }
}

#[verifier::opaque]
pub open spec fn take_request(s: Seq<u8>) -> Option<(ReconfigurationMsgView, Seq<u8>)> {
    match take_u32(s) {
        Some((config_id, s1)) => match take_u64(s1) {
            Some((from, s2)) => match take_u64(s2) {
                Some((to, s3)) => match take_u64(s3) {
                    Some((requestor_pid, s4)) => Some(
                        (
                            ReconfigurationMsgView::SegmentRequest(
                                SegmentRequest { config_id, idx: SegmentIndex { from, to }, requestor_pid },
                            ),
                            s4,
                        ),
                    ),
                    None => None,
                },
                None => None,
            },
            None => None,
        },
        None => None,
    }
}

/// Reads a segment transfer; its success byte reads as true where it is 1.
#[verifier::opaque]
pub open spec fn take_transfer(s: Seq<u8>) -> Option<(ReconfigurationMsgView, Seq<u8>)> {
    match take_u32(s) {
        Some((config_id, s1)) => match take_u8(s1) {
            Some((ok, s2)) => match take_u64(s2) {
                Some((from, s3)) => match take_u64(s3) {
                    Some((to, s4)) => match take_metadata(s4) {
                        Some((metadata, s5)) => match take_entries(s5) {
                            Some((entries, s6)) => Some(
                                (
                                    ReconfigurationMsgView::SegmentTransfer {
                                        config_id,
                                        succeeded: ok == 1,
                                        idx: SegmentIndex { from, to },
                                        metadata,
                                        entries,
                                    },
                                    s6,
                                ),
                            ),
                            None => None,
                        },
                        None => None,
                    },
                    None => None,
                },
                None => None,
            },
            None => None,
        },
        None => None,
    }
}

/// Reads a reconfiguration message; an unknown tag is an error.
pub open spec fn take_reconfig(s: Seq<u8>) -> Taken<ReconfigurationMsgView> {
    match take_u8(s) {
        None => None,
        Some((t, s1)) => if t == RECONFIG_INIT_ID {
            lift(take_init(s1))
        } else if t == SEQ_REQ_ID {
            lift(take_request(s1))
        } else if t == SEQ_TRANSFER_ID {
            lift(take_transfer(s1))
        } else {
            Some(Err(t))
        },
    }
}

proof fn lemma_metadata_roundtrip(m: SequenceMetaData, rest: Seq<u8>)
    ensures
        take_metadata(metadata_bytes(m) + rest) == Some((m, rest)),
{
    assert(metadata_bytes(m) + rest =~= u32_bytes(m.config_id) + (u64_bytes(m.len) + rest));
    lemma_take_u32(m.config_id, u64_bytes(m.len) + rest);
    lemma_take_u64(m.len, rest);
}

proof fn lemma_init_fields(
    config_id: u32,
    from: u64,
    seq_metadata: SequenceMetaData,
    continued_nodes: Seq<u64>,
    new_nodes: Seq<u64>,
    leader: Option<(u64, Ballot)>,
    rest: Seq<u8>,
)
    requires
        continued_nodes.len() <= u32::MAX,
        new_nodes.len() <= u32::MAX,
    ensures
        take_init(u32_bytes(config_id) + (u64_bytes(from) + (metadata_bytes(seq_metadata) + (
        u64_list_bytes(continued_nodes) + (u64_list_bytes(new_nodes) + (leader_bytes(leader)
            + rest)))))) == Some(
            (
                ReconfigurationMsgView::Init {
                    config_id,
                    from,
                    seq_metadata,
                    continued_nodes,
                    new_nodes,
                    leader,
                },
                rest,
            ),
        ),
{
    reveal(take_init);
    let r6 = leader_bytes(leader) + rest;
    let r5 = u64_list_bytes(new_nodes) + r6;
    let r4 = u64_list_bytes(continued_nodes) + r5;
    let r3 = metadata_bytes(seq_metadata) + r4;
    let r2 = u64_bytes(from) + r3;
    lemma_take_u32(config_id, r2);
    lemma_take_u64(from, r3);
    lemma_metadata_roundtrip(seq_metadata, r4);
    lemma_take_u64_list(continued_nodes, r5);
    lemma_take_u64_list(new_nodes, r6);
    lemma_leader_roundtrip(leader, rest);
}

proof fn lemma_init_roundtrip(m: ReconfigurationMsgView, rest: Seq<u8>)
    requires
        reconfig_fits(m),
        m is Init,
    ensures
        take_reconfig(reconfig_bytes(m) + rest) == lift(Some((m, rest))),
{
    match m {
        ReconfigurationMsgView::Init { config_id, from, seq_metadata, continued_nodes, new_nodes, leader } => {
            let r1 = u32_bytes(config_id) + (u64_bytes(from) + (metadata_bytes(seq_metadata) + (
            u64_list_bytes(continued_nodes) + (u64_list_bytes(new_nodes) + (leader_bytes(leader)
                + rest)))));
            assert(reconfig_bytes(m) + rest =~= seq![RECONFIG_INIT_ID] + r1);
            lemma_take_u8(RECONFIG_INIT_ID, r1);
            lemma_init_fields(config_id, from, seq_metadata, continued_nodes, new_nodes, leader, rest);
        },
        _ => {},
    }
}

proof fn lemma_request_roundtrip(sr: SegmentRequest, rest: Seq<u8>)
    ensures
        take_reconfig(reconfig_bytes(ReconfigurationMsgView::SegmentRequest(sr)) + rest) == lift(
            Some((ReconfigurationMsgView::SegmentRequest(sr), rest)),
        ),
{
    reveal(take_request);
    let r4 = u64_bytes(sr.requestor_pid) + rest;
    let r3 = u64_bytes(sr.idx.to) + r4;
    let r2 = u64_bytes(sr.idx.from) + r3;
    let r1 = u32_bytes(sr.config_id) + r2;
    assert(reconfig_bytes(ReconfigurationMsgView::SegmentRequest(sr)) + rest =~= seq![SEQ_REQ_ID] + r1);
    lemma_take_u8(SEQ_REQ_ID, r1);
    lemma_take_u32(sr.config_id, r2);
    lemma_take_u64(sr.idx.from, r3);
    lemma_take_u64(sr.idx.to, r4);
    lemma_take_u64(sr.requestor_pid, rest);
}

proof fn lemma_transfer_fields(
    config_id: u32,
    ok: u8,
    idx: SegmentIndex,
    metadata: SequenceMetaData,
    entries: Seq<EntryView>,
    rest: Seq<u8>,
)
    requires
        entries_fit(entries),
    ensures
        take_transfer(u32_bytes(config_id) + (seq![ok] + (u64_bytes(idx.from) + (u64_bytes(idx.to) + (
        metadata_bytes(metadata) + (entries_bytes(entries) + rest)))))) == Some(
            (
                ReconfigurationMsgView::SegmentTransfer {
                    config_id,
                    succeeded: ok == 1,
                    idx,
                    metadata,
                    entries,
                },
                rest,
            ),
        ),
{
    reveal(take_transfer);
    let r6 = entries_bytes(entries) + rest;
    let r5 = metadata_bytes(metadata) + r6;
    let r4 = u64_bytes(idx.to) + r5;
    let r3 = u64_bytes(idx.from) + r4;
    let r2 = seq![ok] + r3;
    lemma_take_u32(config_id, r2);
    lemma_take_u8(ok, r3);
    lemma_take_u64(idx.from, r4);
    lemma_take_u64(idx.to, r5);
    lemma_metadata_roundtrip(metadata, r6);
    lemma_entries_roundtrip(entries, rest);
}

proof fn lemma_transfer_roundtrip(m: ReconfigurationMsgView, rest: Seq<u8>)
    requires
        reconfig_fits(m),
        m is SegmentTransfer,
    ensures
        take_reconfig(reconfig_bytes(m) + rest) == lift(Some((m, rest))),
{
    match m {
        ReconfigurationMsgView::SegmentTransfer { config_id, succeeded, idx, metadata, entries } => {
            let ok: u8 = if succeeded {
                1
            } else {
                0
            };
            let r1 = u32_bytes(config_id) + (seq![ok] + (u64_bytes(idx.from) + (u64_bytes(idx.to) + (
            metadata_bytes(metadata) + (entries_bytes(entries) + rest)))));
            assert(reconfig_bytes(m) + rest =~= seq![SEQ_TRANSFER_ID] + r1);
            lemma_take_u8(SEQ_TRANSFER_ID, r1);
            lemma_transfer_fields(config_id, ok, idx, metadata, entries, rest);
        },
        _ => {},
    }
}

/// Every reconfiguration message reads back as itself.
pub proof fn lemma_reconfig_roundtrip(m: ReconfigurationMsgView, rest: Seq<u8>)
    requires
        reconfig_fits(m),
    ensures
        take_reconfig(reconfig_bytes(m) + rest) == lift(Some((m, rest))),
{
    match m {
        ReconfigurationMsgView::Init { .. } => lemma_init_roundtrip(m, rest),
        ReconfigurationMsgView::SegmentRequest(sr) => lemma_request_roundtrip(sr, rest),
        ReconfigurationMsgView::SegmentTransfer { .. } => lemma_transfer_roundtrip(m, rest),
    }
}

pub struct ReconfigSer;

impl ReconfigurationMsg {
    pub fn ser_id(&self) -> (id: u64)
        ensures
            id == RECONFIG_SER_ID,
    {
        RECONFIG_SER_ID
    }

    pub fn size_hint(&self) -> (h: Option<usize>)
        ensures
            h is None,
    {
        None
    }

    pub fn serialise(&self, buf: &mut Vec<u8>) -> (res: Result<(), SerError>)
        requires
            reconfig_fits(self@),
        ensures
            res is Ok,
            final(buf)@ == old(buf)@ + reconfig_bytes(self@),
    {
        match self {
            ReconfigurationMsg::Init(r) => {
                put_u8(buf, RECONFIG_INIT_ID);
                put_u32(buf, r.config_id);
                put_u64(buf, r.from);
                put_u32(buf, r.seq_metadata.config_id);
                put_u64(buf, r.seq_metadata.len);
                put_u64_list(buf, &r.nodes.continued_nodes);
                put_u64_list(buf, &r.nodes.new_nodes);
                serialise_leader(&r.skip_prepare_use_leader, buf);
            },
            ReconfigurationMsg::SegmentRequest(sr) => {
                put_u8(buf, SEQ_REQ_ID);
                put_u32(buf, sr.config_id);
                put_u64(buf, sr.idx.from);
                put_u64(buf, sr.idx.to);
                put_u64(buf, sr.requestor_pid);
            },
            ReconfigurationMsg::SegmentTransfer(st) => {
                put_u8(buf, SEQ_TRANSFER_ID);
                put_u32(buf, st.config_id);
                let succeeded: u8 = if st.succeeded {
                    1
                } else {
                    0
                };
                put_u8(buf, succeeded);
                put_u64(buf, st.segment.get_from_idx());
                put_u64(buf, st.segment.get_to_idx());
                put_u32(buf, st.metadata.config_id);
                put_u64(buf, st.metadata.len);
                serialise_entries(&st.segment.entries, buf);
            },
        }
        assert(buf@ =~= old(buf)@ + reconfig_bytes(self@));
        Ok(())
    }
}

impl ReconfigSer {
    pub const SER_ID: u64 = RECONFIG_SER_ID;

    /// Reads a reconfiguration message; an unknown tag is an error.
    pub fn deserialise(buf: &mut Reader) -> (res: Result<ReconfigurationMsg, SerError>)
        requires
            old(buf).wf(),
            take_reconfig(old(buf).rest()) is Some,
        ensures
            final(buf).wf(),
            final(buf).data == old(buf).data,
            match res {
                Ok(m) => take_reconfig(old(buf).rest()) == lift(Some((m@, final(buf).rest()))),
                Err(SerError::InvalidType(t)) => take_reconfig(old(buf).rest()) == Some(
                    Err::<(ReconfigurationMsgView, Seq<u8>), u8>(t),
                ),
            },
    {
        reveal(take_init);
        reveal(take_request);
        reveal(take_transfer);
        let t = buf.get_u8();
        if t == RECONFIG_INIT_ID {
            let config_id = buf.get_u32();
            let from = buf.get_u64();
            let meta_config_id = buf.get_u32();
            let meta_len = buf.get_u64();
            let continued_nodes = get_u64_list(buf);
            let new_nodes = get_u64_list(buf);
            let skip_prepare_use_leader = deserialise_leader(buf);
            Ok(
                ReconfigurationMsg::Init(
                    ReconfigInit {
                        config_id,
                        nodes: Reconfig::with(continued_nodes, new_nodes),
                        seq_metadata: SequenceMetaData::with(meta_config_id, meta_len),
                        from,
                        skip_prepare_use_leader,
                    },
                ),
            )
        } else if t == SEQ_REQ_ID {
            let config_id = buf.get_u32();
            let from_idx = buf.get_u64();
            let to_idx = buf.get_u64();
            let requestor_pid = buf.get_u64();
            Ok(
                ReconfigurationMsg::SegmentRequest(
                    SegmentRequest::with(config_id, SegmentIndex::with(from_idx, to_idx), requestor_pid),
                ),
            )
        } else if t == SEQ_TRANSFER_ID {
            let config_id = buf.get_u32();
            let succeeded = buf.get_u8() == 1;
            let from_idx = buf.get_u64();
            let to_idx = buf.get_u64();
            let meta_config_id = buf.get_u32();
            let meta_len = buf.get_u64();
            let entries = deserialise_entries(buf);
            Ok(
                ReconfigurationMsg::SegmentTransfer(
                    SegmentTransfer {
                        config_id,
                        succeeded,
                        metadata: SequenceMetaData::with(meta_config_id, meta_len),
                        segment: SequenceSegment::with(SegmentIndex::with(from_idx, to_idx), entries),
                    },
                ),
            )
        } else {
            Err(SerError::InvalidType(t))
        }
    }
}

} // verus!
