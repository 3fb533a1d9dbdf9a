//! A replica of the replicated log in one configuration, around the Paxos
//! instance that orders its entries: which leader it follows, what it tells
//! the client of decided entries, and what a decided stop sign ends.
use vstd::prelude::*;
use crate::abcast::ble::Ballot;
use crate::abcast::messages::{ProposalResp, ReconfigurationProposal, ReconfigurationResp, followers, num_removed};
use crate::abcast::partition::copy_pids;
use crate::abcast::paxos_wire::{Entry, EntryView, StopSign, entries_view};
use crate::abcast::transfer::{Reconfig, has_pid};
use crate::experiment::ReconfigurationPolicy;

verus! {

/// Ballots are ordered by their number, then by their leader.
pub open spec fn ballot_gt(a: Ballot, b: Ballot) -> bool {
    a.n > b.n || (a.n == b.n && a.pid > b.pid)
}

/// The order of ballots is strict and total: no ballot is greater than
/// itself, of two different ballots exactly one is the greater, it is
/// transitive, and a greater number makes a greater ballot whatever the
/// leaders.
pub proof fn lemma_ballot_order(a: Ballot, b: Ballot, c: Ballot)
    ensures
        !ballot_gt(a, a),
        ballot_gt(a, b) ==> !ballot_gt(b, a),
        a != b ==> ballot_gt(a, b) || ballot_gt(b, a),
        ballot_gt(a, b) && ballot_gt(b, c) ==> ballot_gt(a, c),
        a.n > b.n ==> ballot_gt(a, b),
        ballot_gt(a, b) ==> a.n >= b.n,
{
}

/// Whether ballot `a` is greater than ballot `b`.
pub fn ballot_greater(a: Ballot, b: Ballot) -> (r: bool)
    ensures
        r == ballot_gt(a, b),
        a == b ==> !r,
        a.n > b.n ==> r,
        a.n < b.n ==> !r,
        a.n == b.n ==> (r <==> a.pid > b.pid),
{
    a.n > b.n || (a.n == b.n && a.pid > b.pid)
}

/// What a replica does with a decided stop sign: the nodes of the next
/// configuration split into those that continue (this one and its peers)
/// and those that join, and the answer for the client.
pub struct StopSignOutcome {
    pub config_id: u32,
    pub nodes: Reconfig,
    pub skip_prepare_use_leader: Option<(u64, Ballot)>,
    pub response: ReconfigurationResp,
}

/// What a replica does with one decided entry.
pub enum DecidedAction {
    /// Tell the client a proposal was decided.
    Respond(ProposalResp),
    /// The configuration ends.
    Stop(StopSignOutcome),
}

/// The state of a replica around its Paxos instance.
pub struct PaxosReplicaState {
    pub pid: u64,
    pub config_id: u32,
    pub peers: Vec<u64>,
    pub current_leader: u64,
    pub leader_ballot: Ballot,
}

/// The nodes of `nodes` that continue from a configuration of `pid` and
/// its `peers`, in order, and those that join.
pub open spec fn continued(nodes: Seq<u64>, pid: u64, peers: Seq<u64>) -> Seq<u64> {
    nodes.filter(|p: u64| p == pid || peers.contains(p))
}

pub open spec fn joining(nodes: Seq<u64>, pid: u64, peers: Seq<u64>) -> Seq<u64> {
    nodes.filter(|p: u64| !(p == pid || peers.contains(p)))
}

/// The leader pid a stop sign names, 0 where none.
pub open spec fn stop_sign_leader(l: Option<(u64, Ballot)>) -> u64 {
    match l {
        Some((pid, _)) => pid,
        None => 0,
    }
}

/// The actions for the decided entries `es`: for the leader, an answer per
/// proposal and the end of the configuration at a stop sign; for a
/// follower, only a stop sign that comes last.
pub open spec fn decided_views(es: Seq<EntryView>, leads: bool) -> Seq<EntryView> {
    if leads {
        es
    } else if es.len() > 0 && es.last() is StopSign {
        seq![es.last()]
    } else {
        Seq::empty()
    }
}

/// An action by what it is about: an answer's data, or a stop sign.
pub open spec fn action_view(a: DecidedAction) -> EntryView {
    match a {
        DecidedAction::Respond(r) => EntryView::Normal(r.data@),
        DecidedAction::Stop(o) => EntryView::StopSign(
            o.config_id,
            o.response.current_configuration@,
            o.skip_prepare_use_leader,
        ),
    }
}

impl PaxosReplicaState {
    pub fn with(pid: u64, config_id: u32, peers: Vec<u64>) -> (s: PaxosReplicaState)
        ensures
            s.pid == pid,
            s.config_id == config_id,
            s.peers@ == peers@,
            s.current_leader == 0,
            s.leader_ballot == (Ballot { n: 0, pid: 0 }),
    {
        PaxosReplicaState { pid, config_id, peers, current_leader: 0, leader_ballot: Ballot::zero() }
    }

    /// The end of the configuration at a decided stop sign.
    pub fn stop_sign_outcome(&self, ss: StopSign) -> (o: StopSignOutcome)
        ensures
            o.config_id == ss.config_id,
            o.nodes.continued_nodes@ == continued(ss.nodes@, self.pid, self.peers@),
            o.nodes.new_nodes@ == joining(ss.nodes@, self.pid, self.peers@),
            o.skip_prepare_use_leader == ss.skip_prepare_use_leader,
            o.response.latest_leader == stop_sign_leader(ss.skip_prepare_use_leader),
            o.response.leader_round == self.leader_ballot.n,
            o.response.current_configuration@ == ss.nodes@,
    {
        let mut cont: Vec<u64> = Vec::new();
        let mut new: Vec<u64> = Vec::new();
        let mut i: usize = 0;
        while i < ss.nodes.len()
            invariant
                i <= ss.nodes@.len(),
                cont@ == continued(ss.nodes@.take(i as int), self.pid, self.peers@),
                new@ == joining(ss.nodes@.take(i as int), self.pid, self.peers@),
            decreases ss.nodes@.len() - i,
        {
            proof {
                assert(ss.nodes@.take(i + 1).drop_last() =~= ss.nodes@.take(i as int));
                reveal(Seq::filter);
            }
            let p = ss.nodes[i];
            if p == self.pid || has_pid(&self.peers, p) {
                cont.push(p);
            } else {
                new.push(p);
            }
            i = i + 1;
        }
        assert(ss.nodes@.take(ss.nodes@.len() as int) =~= ss.nodes@);
        let leader = match ss.skip_prepare_use_leader {
            Some((l, _)) => l,
            None => 0,
        };
        let response = ReconfigurationResp::with(leader, self.leader_ballot.n as u64, copy_pids(&ss.nodes));
        StopSignOutcome {
            config_id: ss.config_id,
            nodes: Reconfig::with(cont, new),
            skip_prepare_use_leader: ss.skip_prepare_use_leader,
            response,
        }
    }

    /// The Paxos instance was polled: its promise `promise`, the leader it
    /// follows, and the entries decided since. A greater promise makes its
    /// leader the one this replica follows, to be announced (with the
    /// configuration and the promise's number). The leader answers each
    /// decided proposal (with the promise's number as round) and ends the
    /// configuration at a stop sign; a follower only ends it at a stop sign
    /// decided last.
    pub fn get_decided(&mut self, promise: Ballot, promise_leader: u64, decided: Vec<Entry>) -> (out: (
        Option<(u32, u64, u32)>,
        Vec<DecidedAction>,
    ))
        ensures
            final(self).pid == old(self).pid,
            final(self).config_id == old(self).config_id,
            final(self).peers@ == old(self).peers@,
            ballot_gt(promise, old(self).leader_ballot) ==> final(self).leader_ballot == promise
                && final(self).current_leader == promise_leader && out.0 == Some(
                (old(self).config_id, promise_leader, promise.n),
            ),
            !ballot_gt(promise, old(self).leader_ballot) ==> final(self).leader_ballot == old(
                self,
            ).leader_ballot && final(self).current_leader == old(self).current_leader
                && out.0 is None,
            promise == old(self).leader_ballot ==> out.0 is None && final(self).leader_ballot
                == old(self).leader_ballot,
            promise.n > old(self).leader_ballot.n ==> out.0 == Some(
                (old(self).config_id, promise_leader, promise.n),
            ),
            promise.n < old(self).leader_ballot.n ==> out.0 is None,
            out.1@.map_values(|a: DecidedAction| action_view(a)) == decided_views(
                entries_view(decided@),
                final(self).current_leader == old(self).pid,
            ),
            forall|i: int|
                0 <= i < out.1@.len() ==> match #[trigger] out.1@[i] {
                    DecidedAction::Respond(r) => r.latest_leader == old(self).pid && r.leader_round
                        == promise.n,
                    DecidedAction::Stop(o) => o.response.leader_round == final(self).leader_ballot.n
                        && o.nodes.continued_nodes@ == continued(
                        o.response.current_configuration@,
                        old(self).pid,
                        old(self).peers@,
                    ),
                },
    {
        let mut news: Option<(u32, u64, u32)> = None;
        if ballot_greater(promise, self.leader_ballot) {
            self.leader_ballot = promise;
            self.current_leader = promise_leader;
            news = Some((self.config_id, self.current_leader, promise.n));
        }
        let ghost ev = entries_view(decided@);
        let ghost leads = self.current_leader == self.pid;
        let mut actions: Vec<DecidedAction> = Vec::new();
        if self.current_leader == self.pid {
            let mut rest = decided;
            let ghost mut done: int = 0;
            assert(entries_view(rest@) =~= ev.skip(0));
            assert(actions@.map_values(|a: DecidedAction| action_view(a)) =~= ev.take(0));
            while rest.len() > 0
                invariant
                    0 <= done <= ev.len(),
                    entries_view(rest@) == ev.skip(done),
                    actions@.map_values(|a: DecidedAction| action_view(a)) == ev.take(done),
                    forall|i: int|
                        0 <= i < actions@.len() ==> match #[trigger] actions@[i] {
                            DecidedAction::Respond(r) => r.latest_leader == self.pid && r.leader_round
                                == promise.n,
                            DecidedAction::Stop(o) => o.response.leader_round == self.leader_ballot.n
                                && o.nodes.continued_nodes@ == continued(
                                o.response.current_configuration@,
                                self.pid,
                                self.peers@,
                            ),
                        },
                    self.pid == old(self).pid,
                    self.peers@ == old(self).peers@,
                decreases rest@.len(),
            {
                let ghost before = actions@;
                let ghost r0 = rest@;
                let e = rest.remove(0);
                let ghost ee = e@;
                proof {
                    assert(entries_view(r0)[0] == ee);
                    assert(entries_view(r0).len() == r0.len());
                    assert(ev.skip(done)[0] == ev[done]);
                    assert(rest@ =~= r0.skip(1));
                    assert(entries_view(rest@) =~= entries_view(r0).skip(1));
                    assert(entries_view(rest@) =~= ev.skip(done + 1));
                }
                let a = match e {
                    Entry::Normal(data) => {
                        let r = ProposalResp::with(data, self.pid, promise.n as u64);
                        assert(action_view(DecidedAction::Respond(r)) == ee);
                        DecidedAction::Respond(r)
                    },
                    Entry::StopSign(ss) => {
                        let o = self.stop_sign_outcome(ss);
                        assert(action_view(DecidedAction::Stop(o)) == ee);
                        DecidedAction::Stop(o)
                    },
                };
                actions.push(a);
                proof {
                    assert(action_view(a) == ev[done]);
                    assert(actions@.map_values(|a: DecidedAction| action_view(a)) =~= before.map_values(
                        |a: DecidedAction| action_view(a),
                    ).push(action_view(a)));
                    assert(ev.take(done + 1) =~= ev.take(done).push(ev[done]));
                    done = done + 1;
                }
            }
            proof {
                assert(ev.skip(done).len() == 0);
                assert(ev.take(done) =~= ev);
            }
        } else {
            let mut rest = decided;
            let last = rest.pop();
            match last {
                Some(Entry::StopSign(ss)) => {
                    let a = DecidedAction::Stop(self.stop_sign_outcome(ss));
                    actions.push(a);
                    proof {
                        assert(ev.last() == EntryView::StopSign(ss.config_id, ss.nodes@, ss.skip_prepare_use_leader));
                        assert(actions@.map_values(|a: DecidedAction| action_view(a)) =~= seq![ev.last()]);
                    }
                },
                _ => {
                    proof {
                        assert(actions@.map_values(|a: DecidedAction| action_view(a)) =~= Seq::<EntryView>::empty());
                    }
                },
            }
        }
        (news, actions)
    }

    /// The leader election elected `leader` with `round`: while the Paxos
    /// instance runs, a greater ballot is followed and announced.
    pub fn handle_leader(&mut self, leader: u64, round: Ballot, paxos_stopped: bool) -> (news: Option<(u32, u64, u32)>)
        ensures
            final(self).pid == old(self).pid,
            final(self).config_id == old(self).config_id,
            final(self).peers@ == old(self).peers@,
            (ballot_gt(round, old(self).leader_ballot) && !paxos_stopped) ==> final(self).current_leader
                == leader && final(self).leader_ballot == round && news == Some(
                (old(self).config_id, leader, round.n),
            ),
            !(ballot_gt(round, old(self).leader_ballot) && !paxos_stopped) ==> final(self).current_leader
                == old(self).current_leader && final(self).leader_ballot == old(self).leader_ballot
                && news is None,
            round == old(self).leader_ballot ==> news is None,
            round.n < old(self).leader_ballot.n ==> news is None,
            (round.n > old(self).leader_ballot.n && !paxos_stopped) ==> news == Some(
                (old(self).config_id, leader, round.n),
            ),
    {
        if ballot_greater(round, self.leader_ballot) && !paxos_stopped {
            self.current_leader = leader;
            self.leader_ballot = round;
            Some((self.config_id, leader, round.n))
        } else {
            None
        }
    }

    /// The configuration a reconfiguration proposal asks for, from this
    /// replica's: its peers and itself, last.
    pub fn reconfiguration_target(&self, rp: &ReconfigurationProposal) -> (nodes: Vec<u64>)
        requires
            rp.policy == ReconfigurationPolicy::ReplaceLeader ==> rp.new_nodes@.len() >= 1,
            num_removed(rp.policy, rp.new_nodes@.len()) <= followers(
                self.peers@.push(self.pid),
                self.current_leader,
            ).len(),
        ensures
            ({
                let f = followers(self.peers@.push(self.pid), self.current_leader);
                let k = (f.len() - num_removed(rp.policy, rp.new_nodes@.len())) as int;
                let extra: Seq<u64> = if rp.policy == ReconfigurationPolicy::ReplaceFollower {
                    seq![self.current_leader]
                } else {
                    Seq::empty()
                };
                &&& nodes@.len() == k + rp.new_nodes@.len() + extra.len()
                &&& nodes@.skip(k) == rp.new_nodes@ + extra
            }),
    {
        let mut current_config = copy_pids(&self.peers);
        current_config.push(self.pid);
        rp.get_new_configuration(self.current_leader, current_config)
    }
}

} // verus!
