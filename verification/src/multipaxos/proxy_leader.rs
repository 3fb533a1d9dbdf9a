//! The Multi-Paxos proxy leader: it relays a leader's Phase2a to the
//! acceptors, gathers their Phase2b votes, and announces the value once a
//! majority of acceptors voted for it in that slot and round.
use vstd::prelude::*;
use hashbrown::HashMap;
use crate::multipaxos::messages::{Chosen, Phase2a, Phase2aView, Phase2b};

verus! {

/// The Phase2b votes a proxy leader has gathered in one slot and round, by acceptor.
pub type VoteMap = HashMap<u64, Phase2b>;

/// The state of each (slot, round) a proxy leader has heard of.
pub type SlotRoundMap = HashMap<(u64, u64), ProxyState>;

/// What a [`VoteMap`] holds.
pub uninterp spec fn votes_of(m: VoteMap) -> Map<u64, Phase2b>;

/// What a [`SlotRoundMap`] holds.
pub uninterp spec fn slot_rounds_of(m: SlotRoundMap) -> Map<(u64, u64), ProxyState>;

/// Calls `hashbrown::HashMap::new`: an empty map.
#[verifier::external_body]
fn new_votes() -> (votes: VoteMap)
    ensures
        votes_of(votes).dom() == Set::<u64>::empty(),
{
    HashMap::new()
}

/// Calls `hashbrown::HashMap::insert`: the acceptor's vote replaces any earlier one.
#[verifier::external_body]
fn insert_vote(votes: &mut VoteMap, acceptor: u64, vote: Phase2b)
    ensures
        votes_of(*final(votes)) == votes_of(*old(votes)).insert(acceptor, vote),
{
    votes.insert(acceptor, vote);
}

/// Calls `hashbrown::HashMap::len`: the number of acceptors that voted.
#[verifier::external_body]
fn vote_count(votes: &VoteMap) -> (count: usize)
    ensures
        count == votes_of(*votes).dom().len(),
{
    votes.len()
}

/// Calls `hashbrown::HashMap::new`: an empty map.
#[verifier::external_body]
fn new_slot_rounds() -> (states: SlotRoundMap)
    ensures
        slot_rounds_of(states).dom() == Set::<(u64, u64)>::empty(),
{
    HashMap::new()
}

/// Calls `hashbrown::HashMap::contains_key`.
#[verifier::external_body]
fn has_slot_round(states: &SlotRoundMap, key: (u64, u64)) -> (b: bool)
    ensures
        b == slot_rounds_of(*states).contains_key(key),
{
    states.contains_key(&key)
}

/// Calls `hashbrown::HashMap::remove`: takes out the state of a slot and round.
#[verifier::external_body]
fn remove_slot_round(states: &mut SlotRoundMap, key: (u64, u64)) -> (s: Option<ProxyState>)
    ensures
        slot_rounds_of(*final(states)) == slot_rounds_of(*old(states)).remove(key),
        s == (if slot_rounds_of(*old(states)).contains_key(key) {
            Some(slot_rounds_of(*old(states))[key])
        } else {
            None
        }),
{
    states.remove(&key)
}

/// Calls `hashbrown::HashMap::insert`: sets the state of a slot and round.
#[verifier::external_body]
fn insert_slot_round(states: &mut SlotRoundMap, key: (u64, u64), s: ProxyState)
    ensures
        slot_rounds_of(*final(states)) == slot_rounds_of(*old(states)).insert(key, s),
{
    states.insert(key, s);
}

/// A Phase2a being voted on and the votes gathered for it.
pub struct Pending {
    pub phase2a: Phase2a,
    pub phase2bs: VoteMap,
}

pub enum ProxyState {
    Pending(Pending),
    Done,
}

/// Abstract value of a [`ProxyState`].
pub enum ProxyStateView {
    Pending { phase2a: Phase2aView, votes: Map<u64, Phase2b> },
    Done,
}

impl View for ProxyState {
    type V = ProxyStateView;

    open spec fn view(&self) -> ProxyStateView {
        match self {
            ProxyState::Pending(p) => ProxyStateView::Pending {
                phase2a: p.phase2a@,
                votes: votes_of(p.phase2bs),
            },
            ProxyState::Done => ProxyStateView::Done,
        }
    }
}

/// The state of a proxy leader.
pub struct ProxyLeader {
    pub states: SlotRoundMap,
    pub majority: usize,
}

impl ProxyLeader {
    /// The states of the slots and rounds, by (slot, round).
    pub open spec fn states_view(&self) -> Map<(u64, u64), ProxyStateView> {
        slot_rounds_of(self.states).map_values(|s: ProxyState| s@)
    }

    /// A proxy leader for `num_acceptors` acceptors: a majority is more than half.
    pub fn with(num_acceptors: usize) -> (p: ProxyLeader)
        ensures
            p.majority == num_acceptors / 2 + 1,
            p.states_view().dom() == Set::<(u64, u64)>::empty(),
    {
        let p = ProxyLeader { states: new_slot_rounds(), majority: num_acceptors / 2 + 1 };
        assert(p.states_view().dom() =~= Set::<(u64, u64)>::empty());
        p
    }

    /// A leader hands over a Phase2a. The first one for its slot and round is
    /// returned to be sent to every acceptor and starts gathering votes; a
    /// repeated one is ignored.
    pub fn handle_phase2a(&mut self, phase2a: Phase2a) -> (out: Option<Phase2a>)
        ensures
            final(self).majority == old(self).majority,
            old(self).states_view().contains_key((phase2a.slot, phase2a.round)) ==> {
                &&& out is None
                &&& final(self).states_view() == old(self).states_view()
            },
            !old(self).states_view().contains_key((phase2a.slot, phase2a.round)) ==> {
                &&& out matches Some(p) && p@ == phase2a@
                &&& final(self).states_view() == old(self).states_view().insert(
                    (phase2a.slot, phase2a.round),
                    ProxyStateView::Pending { phase2a: phase2a@, votes: Map::empty() },
                )
            },
    {
        let key = (phase2a.slot, phase2a.round);
        if has_slot_round(&self.states, key) {
            return None;
        }
        let out = phase2a.copy();
        let phase2bs = new_votes();
        let ghost pv = phase2a@;
        proof {
            assert(votes_of(phase2bs) =~= Map::<u64, Phase2b>::empty());
        }
        insert_slot_round(&mut self.states, key, ProxyState::Pending(Pending { phase2a, phase2bs }));
        proof {
            assert(self.states_view() =~= old(self).states_view().insert(
                key,
                ProxyStateView::Pending { phase2a: pv, votes: Map::empty() },
            ));
        }
        Some(out)
    }

    /// An acceptor votes. A vote for a slot and round never relayed, or
    /// already decided, is ignored. Otherwise it is recorded, and once a
    /// majority of acceptors voted the value is chosen: it is returned to be
    /// sent to every replica and the slot and round are done.
    pub fn handle_phase2b(&mut self, phase2b: Phase2b) -> (out: Option<Chosen>)
        ensures
            final(self).majority == old(self).majority,
            ({
                let key = (phase2b.slot, phase2b.round);
                let before = old(self).states_view();
                let after = final(self).states_view();
                match (if before.contains_key(key) {
                    Some(before[key])
                } else {
                    None
                }) {
                    None => out is None && after == before,
                    Some(ProxyStateView::Done) => out is None && after == before,
                    Some(ProxyStateView::Pending { phase2a, votes }) => {
                        let votes2 = votes.insert(phase2b.acceptor_index, phase2b);
                        if votes2.dom().len() < old(self).majority {
                            &&& out is None
                            &&& after == before.insert(
                                key,
                                ProxyStateView::Pending { phase2a, votes: votes2 },
                            )
                        } else {
                            &&& out matches Some(c) && c@.slot == phase2b.slot && c@.value
                                == phase2a.value
                            &&& after == before.insert(key, ProxyStateView::Done)
                        }
                    },
                }
            }),
    {
        let key = (phase2b.slot, phase2b.round);
        let ghost before = self.states_view();
        match remove_slot_round(&mut self.states, key) {
            None => {
                proof {
                    assert(self.states_view() =~= before);
                }
                None
            },
            Some(ProxyState::Done) => {
                insert_slot_round(&mut self.states, key, ProxyState::Done);
                proof {
                    assert(self.states_view() =~= before);
                }
                None
            },
            Some(ProxyState::Pending(pending)) => {
                let Pending { phase2a, phase2bs } = pending;
                let mut phase2bs = phase2bs;
                insert_vote(&mut phase2bs, phase2b.acceptor_index, phase2b);
                if vote_count(&phase2bs) < self.majority {
                    let ghost pv = phase2a@;
                    let ghost vv = votes_of(phase2bs);
                    insert_slot_round(
                        &mut self.states,
                        key,
                        ProxyState::Pending(Pending { phase2a, phase2bs }),
                    );
                    proof {
                        assert(self.states_view() =~= before.insert(
                            key,
                            ProxyStateView::Pending { phase2a: pv, votes: vv },
                        ));
                    }
                    None
                } else {
                    let chosen = Chosen {
                        slot: phase2b.slot,
                        command_batch_or_noop: phase2a.command_batch_or_noop,
                    };
                    insert_slot_round(&mut self.states, key, ProxyState::Done);
                    proof {
                        assert(self.states_view() =~= before.insert(key, ProxyStateView::Done));
                    }
                    Some(chosen)
                }
            },
        }
    }
}

} // verus!
