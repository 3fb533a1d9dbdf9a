//! The network partitions of the experiments: which node is told to drop
//! which peers, decided from the scenario, the leader and the nodes.
use vstd::prelude::*;
use crate::abcast::messages::{PartitioningExpMsg, PartitioningExpMsgView};
use crate::experiment::NetworkScenario;

verus! {

/// The nodes but `pid`, in order.
pub open spec fn others(nodes: Seq<u64>, pid: u64) -> Seq<u64> {
    nodes.filter(|p: u64| p != pid)
}

/// Returns the nodes but `pid`, in order.
pub fn without(nodes: &Vec<u64>, pid: u64) -> (rest: Vec<u64>)
    ensures
        rest@ == others(nodes@, pid),
{
    let mut rest: Vec<u64> = Vec::new();
    let mut i: usize = 0;
    while i < nodes.len()
        invariant
            i <= nodes@.len(),
            rest@ == others(nodes@.take(i as int), pid),
        decreases nodes@.len() - i,
    {
        proof {
            assert(nodes@.take(i + 1).drop_last() =~= nodes@.take(i as int));
            reveal(Seq::filter);
        }
        if nodes[i] != pid {
            rest.push(nodes[i]);
        }
        i = i + 1;
    }
    assert(nodes@.take(nodes@.len() as int) =~= nodes@);
    rest
}

/// What a partition does: messages to send at once, messages to send after
/// the lagging delay, and after how many seconds the partition is healed.
/// Each message goes to the node whose pid stands beside it.
pub struct PartitionPlan {
    pub immediate: Vec<(u64, PartitioningExpMsg)>,
    pub delayed: Vec<(u64, PartitioningExpMsg)>,
    pub recover_after_secs: Option<u64>,
}

/// The messages of a plan, by their abstract values.
pub open spec fn msgs_view(v: Seq<(u64, PartitioningExpMsg)>) -> Seq<(u64, PartitioningExpMsgView)> {
    v.map_values(|m: (u64, PartitioningExpMsg)| (m.0, m.1@))
}

/// Disconnecting from `peers` at once, with no lagging peer.
pub open spec fn cut(peers: Seq<u64>) -> PartitioningExpMsgView {
    PartitioningExpMsgView::DisconnectPeers(peers, false, None)
}

/// One message per pid of `targets`: that pid disconnects from the
/// nodes but `keep` and itself.
pub open spec fn isolate_each(targets: Seq<u64>, nodes: Seq<u64>, keep: u64) -> Seq<(u64, PartitioningExpMsgView)> {
    targets.map_values(|t: u64| (t, cut(others(others(nodes, keep), t))))
}

/// One message per pid of `targets`: that pid disconnects from `peers`.
pub open spec fn cut_all(targets: Seq<u64>, peers: Seq<u64>) -> Seq<(u64, PartitioningExpMsgView)> {
    targets.map_values(|t: u64| (t, cut(peers)))
}

/// One message per pid of `targets`: that pid reconnects to all its peers.
pub open spec fn recover_all(targets: Seq<u64>) -> Seq<(u64, PartitioningExpMsgView)> {
    targets.map_values(|t: u64| (t, PartitioningExpMsgView::RecoverPeers))
}

/// The plan of a scenario: the first follower is the one singled out.
/// - quorum loss: every node but that follower drops every node but it;
/// - constrained election: the follower lags, cut from the leader, which
///   is told of it; after the delay every other follower drops all but the
///   lagging one and itself, and the leader drops the other followers;
/// - chained: the follower and the leader drop each other;
/// - fully connected: nothing.
pub open spec fn plan_spec(scenario: NetworkScenario, leader: u64, nodes: Seq<u64>) -> (
    Seq<(u64, PartitioningExpMsgView)>,
    Seq<(u64, PartitioningExpMsgView)>,
    Option<u64>,
) {
    let followers = others(nodes, leader);
    let first = followers[0];
    match scenario {
        NetworkScenario::QuorumLoss(d) => {
            let rest = others(nodes, first);
            (cut_all(rest, rest), Seq::empty(), Some(d))
        },
        NetworkScenario::ConstrainedElection(d) => {
            let non_lagging = others(followers, first);
            (
                seq![
                    (first, cut(seq![leader])),
                    (leader, PartitioningExpMsgView::DisconnectPeers(Seq::empty(), false, Some(first))),
                ],
                isolate_each(non_lagging, nodes, first).push(
                    (leader, PartitioningExpMsgView::DisconnectPeers(non_lagging, false, Some(first))),
                ),
                Some(d),
            )
        },
        NetworkScenario::Chained(d) => (
            seq![(first, cut(seq![leader])), (leader, cut(seq![first]))],
            Seq::empty(),
            Some(d),
        ),
        _ => (Seq::empty(), Seq::empty(), None),
    }
}

/// Plans the partition of `scenario` around the current leader. `nodes` are
/// the pids of all nodes, in the order in which the client walks them.
pub fn partition_plan(scenario: NetworkScenario, leader: u64, nodes: &Vec<u64>) -> (plan: PartitionPlan)
    requires
        leader != 0,
        nodes@.contains(leader),
        !(scenario is PeriodicFull),
        !(scenario is FullyConnected) ==> others(nodes@, leader).len() > 0,
    ensures
        (msgs_view(plan.immediate@), msgs_view(plan.delayed@), plan.recover_after_secs)
            == plan_spec(scenario, leader, nodes@),
{
    let mut immediate: Vec<(u64, PartitioningExpMsg)> = Vec::new();
    let mut delayed: Vec<(u64, PartitioningExpMsg)> = Vec::new();
    match scenario {
        NetworkScenario::QuorumLoss(d) => {
            let followers = without(nodes, leader);
            let first = followers[0];
            let rest = without(nodes, first);
            let mut i: usize = 0;
            while i < rest.len()
                invariant
                    i <= rest@.len(),
                    msgs_view(immediate@) == cut_all(rest@.take(i as int), rest@),
                decreases rest@.len() - i,
            {
                let peers = copy_pids(&rest);
                immediate.push((rest[i], PartitioningExpMsg::DisconnectPeers((peers, false), None)));
                proof {
                    assert(rest@.take(i + 1) =~= rest@.take(i as int).push(rest@[i as int]));
                    assert(cut_all(rest@.take(i + 1), rest@) =~= cut_all(rest@.take(i as int), rest@).push(
                        (rest@[i as int], cut(rest@)),
                    ));
                    assert(msgs_view(immediate@) =~= msgs_view(immediate@.drop_last()).push(
                        (rest@[i as int], cut(rest@)),
                    ));
                }
                i = i + 1;
            }
            assert(rest@.take(rest@.len() as int) =~= rest@);
            PartitionPlan { immediate, delayed, recover_after_secs: Some(d) }
        },
        NetworkScenario::ConstrainedElection(d) => {
            let followers = without(nodes, leader);
            let lagging = followers[0];
            let mut to_leader: Vec<u64> = Vec::new();
            to_leader.push(leader);
            immediate.push((lagging, PartitioningExpMsg::DisconnectPeers((to_leader, false), None)));
            immediate.push((leader, PartitioningExpMsg::DisconnectPeers((Vec::new(), false), Some(lagging))));
            let non_lagging = without(&followers, lagging);
            let mut i: usize = 0;
            while i < non_lagging.len()
                invariant
                    i <= non_lagging@.len(),
                    msgs_view(delayed@) == isolate_each(non_lagging@.take(i as int), nodes@, lagging),
                decreases non_lagging@.len() - i,
            {
                let nl = non_lagging[i];
                let kept = without(nodes, lagging);
                let peers = without(&kept, nl);
                delayed.push((nl, PartitioningExpMsg::DisconnectPeers((peers, false), None)));
                proof {
                    assert(non_lagging@.take(i + 1) =~= non_lagging@.take(i as int).push(nl));
                    assert(msgs_view(delayed@) =~= msgs_view(delayed@.drop_last()).push(
                        (nl, cut(others(others(nodes@, lagging), nl))),
                    ));
                    assert(isolate_each(non_lagging@.take(i + 1), nodes@, lagging)
                        =~= isolate_each(non_lagging@.take(i as int), nodes@, lagging).push(
                        (nl, cut(others(others(nodes@, lagging), nl))),
                    ));
                }
                i = i + 1;
            }
            assert(non_lagging@.take(non_lagging@.len() as int) =~= non_lagging@);
            let ghost before = delayed@;
            delayed.push((leader, PartitioningExpMsg::DisconnectPeers((non_lagging, false), Some(lagging))));
            proof {
                assert(msgs_view(delayed@) =~= msgs_view(before).push(
                    (leader, PartitioningExpMsgView::DisconnectPeers(others(others(nodes@, leader), lagging), false, Some(lagging))),
                ));
                let ghost imm = msgs_view(immediate@);
                assert(imm =~= seq![
                    (lagging, cut(seq![leader])),
                    (leader, PartitioningExpMsgView::DisconnectPeers(Seq::empty(), false, Some(lagging))),
                ]);
            }
            PartitionPlan { immediate, delayed, recover_after_secs: Some(d) }
        },
        NetworkScenario::Chained(d) => {
            let followers = without(nodes, leader);
            let disconnected = followers[0];
            let mut to_leader: Vec<u64> = Vec::new();
            to_leader.push(leader);
            let mut to_follower: Vec<u64> = Vec::new();
            to_follower.push(disconnected);
            immediate.push((disconnected, PartitioningExpMsg::DisconnectPeers((to_leader, false), None)));
            immediate.push((leader, PartitioningExpMsg::DisconnectPeers((to_follower, false), None)));
            proof {
                assert(msgs_view(immediate@) =~= seq![
                    (disconnected, cut(seq![leader])),
                    (leader, cut(seq![disconnected])),
                ]);
            }
            PartitionPlan { immediate, delayed, recover_after_secs: Some(d) }
        },
        _ => {
            proof {
                assert(msgs_view(immediate@) =~= Seq::empty());
                assert(msgs_view(delayed@) =~= Seq::empty());
            }
            PartitionPlan { immediate, delayed, recover_after_secs: None }
        },
    }
}

/// A copy of a list of pids.
pub fn copy_pids(pids: &Vec<u64>) -> (c: Vec<u64>)
    ensures
        c@ == pids@,
{
    let mut c: Vec<u64> = Vec::new();
    let mut i: usize = 0;
    while i < pids.len()
        invariant
            i <= pids@.len(),
            c@ == pids@.take(i as int),
        decreases pids@.len() - i,
    {
        c.push(pids[i]);
        i = i + 1;
        proof {
            assert(c@ =~= pids@.take(i as int));
        }
    }
    assert(pids@.take(pids@.len() as int) =~= pids@);
    c
}

/// Healing a partition: every node reconnects to all its peers.
pub fn recovery_plan(nodes: &Vec<u64>) -> (msgs: Vec<(u64, PartitioningExpMsg)>)
    ensures
        msgs_view(msgs@) == recover_all(nodes@),
{
    let mut msgs: Vec<(u64, PartitioningExpMsg)> = Vec::new();
    let mut i: usize = 0;
    while i < nodes.len()
        invariant
            i <= nodes@.len(),
            msgs_view(msgs@) == recover_all(nodes@.take(i as int)),
        decreases nodes@.len() - i,
    {
        msgs.push((nodes[i], PartitioningExpMsg::RecoverPeers));
        proof {
            assert(nodes@.take(i + 1) =~= nodes@.take(i as int).push(nodes@[i as int]));
            assert(recover_all(nodes@.take(i + 1)) =~= recover_all(nodes@.take(i as int)).push(
                (nodes@[i as int], PartitioningExpMsgView::RecoverPeers),
            ));
            assert(msgs_view(msgs@) =~= msgs_view(msgs@.drop_last()).push(
                (nodes@[i as int], PartitioningExpMsgView::RecoverPeers),
            ));
        }
        i = i + 1;
    }
    assert(nodes@.take(nodes@.len() as int) =~= nodes@);
    msgs
}

/// What a node does after the lagging delay, once told to disconnect.
pub enum LaterDisconnect {
    Nothing,
    /// Drop these peers too.
    Append(Vec<u64>),
    /// Drop exactly these peers.
    Replace(Vec<u64>),
}

/// The peers a component drops messages to and from, under a partition.
pub struct Disconnection {
    pub peers: Vec<u64>,
}

impl Disconnection {
    pub fn new() -> (d: Disconnection)
        ensures
            d.peers@.len() == 0,
    {
        Disconnection { peers: Vec::new() }
    }

    /// Told to disconnect from `peers`: with a lagging peer, that one is
    /// dropped at once and the others after the delay; else the peers are
    /// dropped after the delay where `delay`, at once otherwise.
    pub fn disconnect_peers(&mut self, peers: Vec<u64>, delay: bool, lagging_peer: Option<u64>) -> (later: LaterDisconnect)
        ensures
            lagging_peer matches Some(lp) ==> final(self).peers@ == old(self).peers@.push(lp) && (
            later matches LaterDisconnect::Append(a) && a@ == peers@),
            lagging_peer is None && delay ==> final(self).peers@ == old(self).peers@ && (
            later matches LaterDisconnect::Replace(a) && a@ == peers@),
            lagging_peer is None && !delay ==> final(self).peers@ == peers@ && later is Nothing,
    {
        match lagging_peer {
            Some(lp) => {
                self.peers.push(lp);
                LaterDisconnect::Append(peers)
            },
            None => {
                if delay {
                    LaterDisconnect::Replace(peers)
                } else {
                    self.peers = peers;
                    LaterDisconnect::Nothing
                }
            },
        }
    }

    /// The lagging delay has passed.
    pub fn after_delay(&mut self, later: LaterDisconnect)
        ensures
            later matches LaterDisconnect::Append(a) ==> final(self).peers@ == old(self).peers@ + a@,
            later matches LaterDisconnect::Replace(a) ==> final(self).peers@ == a@,
            later is Nothing ==> final(self).peers@ == old(self).peers@,
    {
        match later {
            LaterDisconnect::Append(a) => {
                let mut i: usize = 0;
                let ghost start = self.peers@;
                while i < a.len()
                    invariant
                        i <= a@.len(),
                        self.peers@ == start + a@.take(i as int),
                    decreases a@.len() - i,
                {
                    self.peers.push(a[i]);
                    i = i + 1;
                    proof {
                        assert(self.peers@ =~= start + a@.take(i as int));
                    }
                }
                assert(a@.take(a@.len() as int) =~= a@);
            },
            LaterDisconnect::Replace(a) => {
                self.peers = a;
            },
            LaterDisconnect::Nothing => {},
        }
    }

    /// The partition heals: no peer is dropped.
    pub fn recover_peers(&mut self)
        ensures
            final(self).peers@.len() == 0,
    {
        self.peers = Vec::new();
    }

    /// Whether messages to and from `pid` are dropped.
    pub fn is_disconnected(&self, pid: u64) -> (d: bool)
        ensures
            d == self.peers@.contains(pid),
    {
        let mut found = false;
        let mut i: usize = 0;
        while i < self.peers.len()
            invariant
                i <= self.peers@.len(),
                found == exists|k: int| 0 <= k < i && self.peers@[k] == pid,
            decreases self.peers@.len() - i,
        {
            if self.peers[i] == pid {
                found = true;
            }
            i = i + 1;
        }
        found
    }
}

/// The peers a node of the replicated log records as cut, to tell its
/// replicas once the partition heals: the peers, and the lagging one last.
pub fn cut_peers(peers: Vec<u64>, lagging_peer: Option<u64>) -> (cut: Vec<u64>)
    ensures
        lagging_peer matches Some(lp) ==> cut@ == peers@.push(lp),
        lagging_peer is None ==> cut@ == peers@,
{
    let mut cut = peers;
    if let Some(lp) = lagging_peer {
        cut.push(lp);
    }
    cut
}

} // verus!
