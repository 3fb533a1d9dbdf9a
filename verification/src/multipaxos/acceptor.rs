//! The Multi-Paxos acceptor: it promises rounds, votes for values in slots,
//! and reports its votes to a leader that starts a new round.
use vstd::prelude::*;
use std::collections::BTreeMap;
use vstd::std_specs::btree::{increasing_seq, spec_btree_map_iter};
use vstd::std_specs::iter::IteratorSpec;
use vstd::std_specs::cmp::OrdSpec;
use crate::multipaxos::messages::{
    CommandBatchOrNoop, CommandView, LeaderInbound, LeaderInboundView, Nack, Phase1a, Phase1b,
    Phase1bSlotInfo, Phase2a, Phase2b, SlotInfoView, infos_view,
};

verus! {

broadcast use vstd::std_specs::btree::group_btree_axioms;

/// The vote an acceptor cast in one slot.
pub struct Vote {
    pub vote_round: u64,
    pub vote_value: CommandBatchOrNoop,
}

/// Abstract value of a [`Vote`].
pub struct VoteView {
    pub vote_round: u64,
    pub vote_value: CommandView,
}

impl View for Vote {
    type V = VoteView;

    open spec fn view(&self) -> VoteView {
        VoteView { vote_round: self.vote_round, vote_value: self.vote_value@ }
    }
}

/// The state of an acceptor.
pub struct Acceptor {
    pub index: u64,
    pub round: u64,
    pub states: BTreeMap<u64, Vote>,
    pub max_voted_slot: u64,
}

/// The answer to a Phase2a: a refusal for the leader or a vote for the proxy leader.
pub enum Phase2aReply {
    Nack(Nack),
    Phase2b(Phase2b),
}

/// The votes of an acceptor, by slot.
pub open spec fn votes_view(m: Map<u64, Vote>) -> Map<u64, VoteView> {
    m.map_values(|v: Vote| v@)
}

/// `info` lists, by increasing slot, exactly the votes in the slots from `from` on.
pub open spec fn reports_votes(info: Seq<SlotInfoView>, votes: Map<u64, VoteView>, from: u64) -> bool {
    &&& forall|i: int, j: int| 0 <= i < j < info.len() ==> info[i].slot < info[j].slot
    &&& forall|i: int|
        0 <= i < info.len() ==> {
            &&& from <= #[trigger] info[i].slot
            &&& votes.contains_key(info[i].slot)
            &&& votes[info[i].slot] == VoteView {
                vote_round: info[i].vote_round,
                vote_value: info[i].vote_value,
            }
        }
    &&& forall|k: u64|
        from <= k && #[trigger] votes.contains_key(k) ==> exists|i: int|
            0 <= i < info.len() && #[trigger] info[i].slot == k
}

/// The slot info of one entry met while iterating the votes.
pub open spec fn slot_info_of(kv: (&u64, &Vote)) -> SlotInfoView {
    SlotInfoView { slot: *kv.0, vote_round: kv.1.vote_round, vote_value: kv.1.vote_value@ }
}

/// The slot infos of the entries of `t` whose slot is at least `from`, in order.
pub open spec fn reported(t: Seq<(&u64, &Vote)>, from: u64) -> Seq<SlotInfoView>
    decreases t.len(),
{
    if t.len() == 0 {
        Seq::empty()
    } else {
        let prev = reported(t.drop_last(), from);
        if from <= *t.last().0 {
            prev.push(slot_info_of(t.last()))
        } else {
            prev
        }
    }
}

/// Keys met by iterating a `BTreeMap` come in increasing order.
proof fn lemma_iter_keys_increasing(s: Seq<(&u64, &Vote)>)
    requires
        increasing_seq(s.map_values(|kv: (&u64, &Vote)| *kv.0)),
    ensures
        forall|a: int, b: int| 0 <= a < b < s.len() ==> *s[a].0 < *s[b].0,
{
    broadcast use vstd::std_specs::btree::axiom_increasing_seq_meaning;
    broadcast use vstd::laws_cmp::group_laws_cmp;
    let ks = s.map_values(|kv: (&u64, &Vote)| *kv.0);
    assert(vstd::laws_cmp::obeys_cmp::<u64>());
    assert(increasing_seq(ks));
    assert forall|a: int, b: int| 0 <= a < b < s.len() implies *s[a].0 < *s[b].0 by {
        assert(ks[a].cmp_spec(&ks[b]) is Less);
        assert(ks[a] == *s[a].0);
        assert(ks[b] == *s[b].0);
    }
}

/// Every reported entry is an entry of `t` from `from` on.
proof fn lemma_reported_member(t: Seq<(&u64, &Vote)>, from: u64, i: int)
    requires
        0 <= i < reported(t, from).len(),
    ensures
        from <= reported(t, from)[i].slot,
        exists|j: int| 0 <= j < t.len() && slot_info_of(t[j]) == reported(t, from)[i],
    decreases t.len(),
{
    let u = t.drop_last();
    let p = reported(u, from);
    if i < p.len() {
        lemma_reported_member(u, from, i);
        let j = choose|j: int| 0 <= j < u.len() && slot_info_of(u[j]) == p[i];
        assert(u[j] == t[j]);
    } else {
        assert(slot_info_of(t[t.len() - 1]) == reported(t, from)[i]);
    }
}

/// Every entry of `t` from `from` on is reported.
proof fn lemma_reported_complete(t: Seq<(&u64, &Vote)>, from: u64, j: int)
    requires
        0 <= j < t.len(),
        from <= *t[j].0,
    ensures
        exists|i: int| 0 <= i < reported(t, from).len() && reported(t, from)[i] == slot_info_of(t[j]),
    decreases t.len(),
{
    let u = t.drop_last();
    let r = reported(t, from);
    if j < t.len() - 1 {
        assert(u[j] == t[j]);
        lemma_reported_complete(u, from, j);
        let i = choose|i: int|
            0 <= i < reported(u, from).len() && reported(u, from)[i] == slot_info_of(u[j]);
        assert(r[i] == reported(u, from)[i]);
    } else {
        assert(r[r.len() - 1] == slot_info_of(t[j]));
    }
}

/// Entries with increasing slots are reported with increasing slots.
proof fn lemma_reported_sorted(t: Seq<(&u64, &Vote)>, from: u64)
    requires
        forall|a: int, b: int| 0 <= a < b < t.len() ==> *t[a].0 < *t[b].0,
    ensures
        forall|i: int, j: int|
            0 <= i < j < reported(t, from).len() ==> reported(t, from)[i].slot < reported(
                t,
                from,
            )[j].slot,
    decreases t.len(),
{
    if t.len() > 0 {
        let u = t.drop_last();
        lemma_reported_sorted(u, from);
        let r = reported(t, from);
        let p = reported(u, from);
        let n = t.len() - 1;
        assert forall|i: int| 0 <= i < p.len() implies #[trigger] p[i].slot < *t[n].0 by {
            lemma_reported_member(u, from, i);
            let j = choose|j: int| 0 <= j < u.len() && slot_info_of(u[j]) == p[i];
            assert(u[j] == t[j]);
        }
        assert forall|i: int, j: int| 0 <= i < j < r.len() implies r[i].slot < r[j].slot by {
            assert(r[i] == p[i]);
            if j < p.len() {
                assert(r[j] == p[j]);
            }
        }
    }
}

/// Inserting into a map of `u64` keys behaves as a map insert.
proof fn lemma_u64_keys_ordered()
    ensures
        vstd::laws_cmp::obeys_cmp::<u64>(),
{
    broadcast use vstd::laws_cmp::group_laws_cmp;
}

impl Acceptor {
    /// Every vote was cast in a round no later than the promised one, and no
    /// vote lies beyond the largest voted slot.
    pub open spec fn wf(&self) -> bool {
        &&& forall|k: u64| #[trigger]
            self.states@.contains_key(k) ==> self.states@[k].vote_round <= self.round
        &&& forall|k: u64| #[trigger] self.states@.contains_key(k) ==> k <= self.max_voted_slot
    }

    pub fn with(pid: u64) -> (a: Acceptor)
        ensures
            a.wf(),
            a.index == pid,
            a.round == 0,
            a.states@ == Map::<u64, Vote>::empty(),
            a.max_voted_slot == 0,
    {
        Acceptor { index: pid, round: 0, states: BTreeMap::new(), max_voted_slot: 0 }
    }

    /// The votes in slots from `from` on, by increasing slot.
    fn votes_from(&self, from: u64) -> (info: Vec<Phase1bSlotInfo>)
        ensures
            reports_votes(infos_view(info@), votes_view(self.states@), from),
    {
        let mut info: Vec<Phase1bSlotInfo> = Vec::new();
        let ghost s = spec_btree_map_iter(&self.states).remaining();
        let ghost mut seen: int = 0;
        for (k, v) in it: self.states.iter()
            invariant
                it.seq() == s,
                seen == it.index(),
                0 <= seen <= s.len(),
                infos_view(info@) == reported(s.take(seen), from),
        {
            let ghost before = infos_view(info@);
            proof {
                assert(s.take(seen + 1).drop_last() =~= s.take(seen));
                assert(s.take(seen + 1).last() == s[seen]);
            }
            if *k >= from {
                let x = Phase1bSlotInfo {
                    slot: *k,
                    vote_round: v.vote_round,
                    vote_value: v.vote_value.copy(),
                };
                info.push(x);
                proof {
                    assert(infos_view(info@) =~= before.push(x@));
                }
            }
            proof {
                seen = seen + 1;
            }
        }
        proof {
            assert(s.take(seen) =~= s);
            lemma_iter_keys_increasing(s);
            lemma_reported_sorted(s, from);
            let m = votes_view(self.states@);
            let iv = infos_view(info@);
            assert forall|i: int| 0 <= i < iv.len() implies {
                &&& from <= #[trigger] iv[i].slot
                &&& m.contains_key(iv[i].slot)
                &&& m[iv[i].slot] == VoteView {
                    vote_round: iv[i].vote_round,
                    vote_value: iv[i].vote_value,
                }
            } by {
                assert(iv[i] == reported(s, from)[i]);
                lemma_reported_member(s, from, i);
                let j = choose|j: int| 0 <= j < s.len() && slot_info_of(s[j]) == reported(s, from)[i];
                assert(self.states@.contains_key(*s[j].0) && self.states@[*s[j].0] == *s[j].1);
            }
            assert forall|k: u64| from <= k && #[trigger] m.contains_key(k) implies exists|i: int|
                0 <= i < iv.len() && #[trigger] iv[i].slot == k by {
                assert(self.states@.contains_key(k));
                assert(s.contains((&k, &self.states@[k])));
                let j = choose|j: int| 0 <= j < s.len() && s[j] == (&k, &self.states@[k]);
                assert(from <= *s[j].0);
                lemma_reported_complete(s, from, j);
                let i = choose|i: int|
                    0 <= i < reported(s, from).len() && reported(s, from)[i] == slot_info_of(s[j]);
                assert(iv[i] == reported(s, from)[i]);
            }
        }
        info
    }

    /// A leader asks for a promise in a new round. An older round is refused
    /// with the promised one; otherwise the acceptor promises the round and
    /// reports its votes from the chosen watermark on.
    pub fn handle_phase1a(&mut self, phase1a: Phase1a) -> (reply: LeaderInbound)
        requires
            old(self).wf(),
        ensures
            final(self).wf(),
            final(self).round >= old(self).round,
            final(self).index == old(self).index,
            final(self).states@ == old(self).states@,
            final(self).max_voted_slot == old(self).max_voted_slot,
            phase1a.round < old(self).round ==> {
                &&& final(self).round == old(self).round
                &&& reply@ == LeaderInboundView::Nack(Nack { round: old(self).round })
            },
            phase1a.round >= old(self).round ==> {
                &&& final(self).round == phase1a.round
                &&& reply@ matches LeaderInboundView::Phase1b(p) && p.acceptor_index
                    == old(self).index && p.round == phase1a.round && reports_votes(
                    p.info,
                    votes_view(old(self).states@),
                    phase1a.chosen_watermark,
                )
            },
    {
        if phase1a.round < self.round {
            return LeaderInbound::Nack(Nack { round: self.round });
        }
        self.round = phase1a.round;
        let info = self.votes_from(phase1a.chosen_watermark);
        LeaderInbound::Phase1b(Phase1b { acceptor_index: self.index, round: self.round, info })
    }

    /// A proxy leader asks for a vote. An older round is refused with the
    /// promised one; otherwise the acceptor promises the round, votes for the
    /// value in the slot, and tells the proxy leader.
    pub fn handle_phase2a(&mut self, phase2a: Phase2a) -> (reply: Phase2aReply)
        requires
            old(self).wf(),
        ensures
            final(self).wf(),
            final(self).round >= old(self).round,
            final(self).index == old(self).index,
            phase2a.round < old(self).round ==> {
                &&& final(self).round == old(self).round
                &&& final(self).states@ == old(self).states@
                &&& final(self).max_voted_slot == old(self).max_voted_slot
                &&& reply == Phase2aReply::Nack(Nack { round: old(self).round })
            },
            phase2a.round >= old(self).round ==> {
                &&& final(self).round == phase2a.round
                &&& votes_view(final(self).states@) == votes_view(old(self).states@).insert(
                    phase2a.slot,
                    VoteView { vote_round: phase2a.round, vote_value: phase2a@.value },
                )
                &&& final(self).max_voted_slot == (if old(self).max_voted_slot < phase2a.slot {
                    phase2a.slot
                } else {
                    old(self).max_voted_slot
                })
                &&& reply == Phase2aReply::Phase2b(
                    Phase2b {
                        acceptor_index: old(self).index,
                        slot: phase2a.slot,
                        round: phase2a.round,
                    },
                )
            },
    {
        if phase2a.round < self.round {
            return Phase2aReply::Nack(Nack { round: self.round });
        }
        self.round = phase2a.round;
        let slot = phase2a.slot;
        let ghost value = phase2a@.value;
        proof {
            lemma_u64_keys_ordered();
        }
        self.states.insert(
            slot,
            Vote { vote_round: self.round, vote_value: phase2a.command_batch_or_noop },
        );
        proof {
            assert(votes_view(self.states@) =~= votes_view(old(self).states@).insert(
                slot,
                VoteView { vote_round: phase2a.round, vote_value: value },
            ));
        }
        if self.max_voted_slot < slot {
            self.max_voted_slot = slot;
        }
        Phase2aReply::Phase2b(Phase2b { acceptor_index: self.index, slot, round: self.round })
    }
}

} // verus!
