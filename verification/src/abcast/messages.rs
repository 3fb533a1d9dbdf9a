//! Messages between the benchmark client and the replicas.
use vstd::prelude::*;
use crate::experiment::ReconfigurationPolicy;
use crate::random::random_in_range;

verus! {

/// A client proposal: opaque bytes whose first eight encode its id.
pub struct Proposal {
    pub data: Vec<u8>,
}

impl View for Proposal {
    type V = Seq<u8>;

    open spec fn view(&self) -> Seq<u8> {
        self.data@
    }
}

impl Proposal {
    pub fn with(data: Vec<u8>) -> (p: Proposal)
        ensures
            p.data == data,
    {
        Proposal { data }
    }
}

/// The byte strings held by a sequence of proposals.
pub open spec fn proposals_view(v: Seq<Proposal>) -> Seq<Seq<u8>> {
    v.map_values(|p: Proposal| p.data@)
}

/// A leader's heartbeat in the Multi-Paxos leader election.
#[derive(PartialEq, Eq, Structural, Clone, Copy)]
pub struct Ping {
    pub round: u64,
    pub leader_index: u64,
}

/// A replica's answer to a decided proposal, naming the leader that decided it.
pub struct ProposalResp {
    pub data: Vec<u8>,
    pub latest_leader: u64,
    pub leader_round: u64,
}

/// Abstract value of a [`ProposalResp`].
pub struct RespView {
    pub data: Seq<u8>,
    pub latest_leader: u64,
    pub leader_round: u64,
}

impl View for ProposalResp {
    type V = RespView;

    open spec fn view(&self) -> RespView {
        RespView {
            data: self.data@,
            latest_leader: self.latest_leader,
            leader_round: self.leader_round,
        }
    }
}

impl ProposalResp {
    pub fn with(data: Vec<u8>, latest_leader: u64, leader_round: u64) -> (r: ProposalResp)
        ensures
            r.data == data,
            r.latest_leader == latest_leader,
            r.leader_round == leader_round,
    {
        ProposalResp { data, latest_leader, leader_round }
    }
}

/// The abstract values of a sequence of responses.
pub open spec fn resps_view(v: Seq<ProposalResp>) -> Seq<RespView> {
    v.map_values(|r: ProposalResp| r@)
}

/// A request to change the configuration.
pub struct ReconfigurationProposal {
    pub policy: ReconfigurationPolicy,
    pub new_nodes: Vec<u64>,
}

/// The answer to a reconfiguration: the leader and the configuration in effect.
pub struct ReconfigurationResp {
    pub latest_leader: u64,
    pub leader_round: u64,
    pub current_configuration: Vec<u64>,
}

impl ReconfigurationProposal {
    pub fn with(policy: ReconfigurationPolicy, new_nodes: Vec<u64>) -> (r: ReconfigurationProposal)
        ensures
            r.policy == policy,
            r.new_nodes@ == new_nodes@,
    {
        ReconfigurationProposal { policy, new_nodes }
    }
}

/// `sub` keeps some of the elements of `s`, in their order.
pub open spec fn is_subsequence(sub: Seq<u64>, s: Seq<u64>) -> bool {
    exists|idx: Seq<int>|
        #![trigger idx.len()]
        idx.len() == sub.len() && (forall|i: int, j: int| 0 <= i < j < idx.len() ==> idx[i] < idx[j])
            && (forall|i: int| 0 <= i < idx.len() ==> 0 <= #[trigger] idx[i] < s.len() && sub[i]
            == s[idx[i]])
}

/// The followers of a configuration: its nodes but the leader, in order.
pub open spec fn followers(config: Seq<u64>, leader_pid: u64) -> Seq<u64> {
    config.filter(|pid: u64| pid != leader_pid)
}

/// How many followers a reconfiguration removes: one per new node, but one
/// fewer where the leader is replaced.
pub open spec fn num_removed(policy: ReconfigurationPolicy, new_nodes: nat) -> int {
    match policy {
        ReconfigurationPolicy::ReplaceFollower => new_nodes as int,
        ReconfigurationPolicy::ReplaceLeader => new_nodes - 1,
    }
}

impl ReconfigurationProposal {
    /// The configuration after this reconfiguration: randomly chosen followers
    /// are removed, the new nodes are added, and where a follower is replaced
    /// the leader stays, last.
    pub fn get_new_configuration(&self, leader_pid: u64, current_configuration: Vec<u64>) -> (nodes: Vec<u64>)
        requires
            self.policy == ReconfigurationPolicy::ReplaceLeader ==> self.new_nodes@.len() >= 1,
            num_removed(self.policy, self.new_nodes@.len()) <= followers(
                current_configuration@,
                leader_pid,
            ).len(),
        ensures
            ({
                let f = followers(current_configuration@, leader_pid);
                let k = (f.len() - num_removed(self.policy, self.new_nodes@.len())) as int;
                let extra: Seq<u64> = if self.policy == ReconfigurationPolicy::ReplaceFollower {
                    seq![leader_pid]
                } else {
                    Seq::empty()
                };
                &&& nodes@.len() == k + self.new_nodes@.len() + extra.len()
                &&& is_subsequence(nodes@.take(k), f)
                &&& nodes@.skip(k) == self.new_nodes@ + extra
            }),
    {
        let ghost f = followers(current_configuration@, leader_pid);
        let mut nodes: Vec<u64> = Vec::new();
        let mut i: usize = 0;
        while i < current_configuration.len()
            invariant
                i <= current_configuration@.len(),
                nodes@ == followers(current_configuration@.take(i as int), leader_pid),
            decreases current_configuration@.len() - i,
        {
            proof {
                assert(current_configuration@.take(i + 1).drop_last() =~= current_configuration@.take(
                    i as int,
                ));
                reveal(Seq::filter);
            }
            if current_configuration[i] != leader_pid {
                nodes.push(current_configuration[i]);
            }
            i = i + 1;
        }
        assert(current_configuration@.take(current_configuration@.len() as int)
            =~= current_configuration@);
        let num_remove: usize = match self.policy {
            ReconfigurationPolicy::ReplaceFollower => self.new_nodes.len(),
            ReconfigurationPolicy::ReplaceLeader => self.new_nodes.len() - 1,
        };
        let ghost mut idx: Seq<int> = Seq::new(f.len(), |j: int| j);
        let mut r: usize = 0;
        while r < num_remove
            invariant
                r <= num_remove,
                num_remove <= f.len(),
                nodes@.len() == f.len() - r,
                idx.len() == nodes@.len(),
                forall|a: int, b: int| 0 <= a < b < idx.len() ==> idx[a] < idx[b],
                forall|a: int| 0 <= a < idx.len() ==> 0 <= #[trigger] idx[a] < f.len() && nodes@[a]
                    == f[idx[a]],
            decreases num_remove - r,
        {
            let num_current_followers = nodes.len();
            let rnd = random_in_range(0, num_current_followers as u64) as usize;
            let ghost before = nodes@;
            nodes.remove(rnd);
            proof {
                let old_idx = idx;
                idx = old_idx.remove(rnd as int);
                assert forall|a: int| 0 <= a < idx.len() implies 0 <= #[trigger] idx[a] < f.len()
                    && nodes@[a] == f[idx[a]] by {
                    if a < rnd {
                        assert(idx[a] == old_idx[a]);
                    } else {
                        assert(idx[a] == old_idx[a + 1]);
                    }
                }
                assert forall|a: int, b: int| 0 <= a < b < idx.len() implies idx[a] < idx[b] by {
                    if a < rnd {
                        assert(idx[a] == old_idx[a]);
                    } else {
                        assert(idx[a] == old_idx[a + 1]);
                    }
                    if b < rnd {
                        assert(idx[b] == old_idx[b]);
                    } else {
                        assert(idx[b] == old_idx[b + 1]);
                    }
                }
            }
            r = r + 1;
        }
        let ghost kept = nodes@;
        let mut j: usize = 0;
        while j < self.new_nodes.len()
            invariant
                j <= self.new_nodes@.len(),
                nodes@ == kept + self.new_nodes@.take(j as int),
            decreases self.new_nodes@.len() - j,
        {
            nodes.push(self.new_nodes[j]);
            j = j + 1;
            assert(nodes@ =~= kept + self.new_nodes@.take(j as int));
        }
        assert(self.new_nodes@.take(self.new_nodes@.len() as int) =~= self.new_nodes@);
        match self.policy {
            ReconfigurationPolicy::ReplaceFollower => nodes.push(leader_pid),
            ReconfigurationPolicy::ReplaceLeader => {},
        }
        proof {
            let k = kept.len() as int;
            assert(nodes@.take(k) =~= kept);
            assert(idx.len() == kept.len());
            assert(is_subsequence(kept, f));
            if self.policy == ReconfigurationPolicy::ReplaceFollower {
                assert(nodes@.skip(k) =~= self.new_nodes@ + seq![leader_pid]);
            } else {
                assert(nodes@.skip(k) =~= self.new_nodes@ + Seq::<u64>::empty());
            }
        }
        nodes
    }
}

impl ReconfigurationResp {
    pub fn with(latest_leader: u64, leader_round: u64, current_configuration: Vec<u64>) -> (r: ReconfigurationResp)
        ensures
            r.latest_leader == latest_leader,
            r.leader_round == leader_round,
            r.current_configuration@ == current_configuration@,
    {
        ReconfigurationResp { latest_leader, leader_round, current_configuration }
    }
}

/// The messages between the clients and the replicas.
pub enum AtomicBroadcastMsg {
    Proposal(Proposal),
    ReconfigurationProposal(ReconfigurationProposal),
    ProposalResp(ProposalResp),
    ReconfigurationResp(ReconfigurationResp),
    /// A new leader: its pid and round.
    Leader(u64, u64),
}

/// Abstract value of an [`AtomicBroadcastMsg`].
pub enum AtomicBroadcastMsgView {
    Proposal(Seq<u8>),
    ReconfigurationProposal(ReconfigurationPolicy, Seq<u64>),
    ProposalResp(RespView),
    ReconfigurationResp(u64, u64, Seq<u64>),
    Leader(u64, u64),
}

impl View for AtomicBroadcastMsg {
    type V = AtomicBroadcastMsgView;

    open spec fn view(&self) -> AtomicBroadcastMsgView {
        match self {
            AtomicBroadcastMsg::Proposal(p) => AtomicBroadcastMsgView::Proposal(p.data@),
            AtomicBroadcastMsg::ReconfigurationProposal(rp) => AtomicBroadcastMsgView::ReconfigurationProposal(
                rp.policy,
                rp.new_nodes@,
            ),
            AtomicBroadcastMsg::ProposalResp(pr) => AtomicBroadcastMsgView::ProposalResp(pr@),
            AtomicBroadcastMsg::ReconfigurationResp(rr) => AtomicBroadcastMsgView::ReconfigurationResp(
                rr.latest_leader,
                rr.leader_round,
                rr.current_configuration@,
            ),
            AtomicBroadcastMsg::Leader(pid, round) => AtomicBroadcastMsgView::Leader(*pid, *round),
        }
    }
}

/// A stop: from a peer, with its pid, or from the client.
#[derive(PartialEq, Eq, Structural, Clone, Copy)]
pub enum StopMsg {
    Peer(u64),
    Client,
}

/// A partitioning experiment step: disconnect from the peers (at once or
/// after a delay), maybe from one lagging peer first; or reconnect to all.
pub enum PartitioningExpMsg {
    DisconnectPeers((Vec<u64>, bool), Option<u64>),
    RecoverPeers,
}

/// Abstract value of a [`PartitioningExpMsg`].
pub enum PartitioningExpMsgView {
    DisconnectPeers(Seq<u64>, bool, Option<u64>),
    RecoverPeers,
}

impl View for PartitioningExpMsg {
    type V = PartitioningExpMsgView;

    open spec fn view(&self) -> PartitioningExpMsgView {
        match self {
            PartitioningExpMsg::DisconnectPeers((peers, delay), lagging) => PartitioningExpMsgView::DisconnectPeers(
                peers@,
                *delay,
                *lagging,
            ),
            PartitioningExpMsg::RecoverPeers => PartitioningExpMsgView::RecoverPeers,
        }
    }
}

} // verus!
