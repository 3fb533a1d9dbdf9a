//! The Multi-Paxos batcher: it gathers client proposals into batches for the
//! leader of the current round, and keeps the batches a non-leader returned
//! until it learns of a new leader.
use vstd::prelude::*;
use crate::abcast::messages::Proposal;
use crate::multipaxos::round_robin::{ClassicRoundRobin, spec_leader};

verus! {

/// The state of a batcher.
pub struct Batcher {
    pub growing_batch: Vec<Proposal>,
    pub pending_resend_batches: Vec<Vec<Proposal>>,
    pub round: u64,
    pub round_system: ClassicRoundRobin,
    pub index: u64,
}

impl Batcher {
    /// A batcher for `num_leaders` leaders, in round 0.
    pub fn with(index: u64, num_leaders: u64) -> (b: Batcher)
        ensures
            b.index == index,
            b.round == 0,
            b.round_system.n == num_leaders,
            b.growing_batch@.len() == 0,
            b.pending_resend_batches@.len() == 0,
    {
        Batcher {
            growing_batch: Vec::new(),
            pending_resend_batches: Vec::new(),
            round: 0,
            round_system: ClassicRoundRobin { n: num_leaders },
            index,
        }
    }

    /// A client proposal joins the growing batch.
    pub fn receive_local(&mut self, proposal: Proposal)
        ensures
            final(self).growing_batch@ == old(self).growing_batch@.push(proposal),
            final(self).pending_resend_batches@ == old(self).pending_resend_batches@,
            final(self).round == old(self).round,
            final(self).round_system == old(self).round_system,
            final(self).index == old(self).index,
    {
        self.growing_batch.push(proposal);
    }

    /// A leader returned a batch it does not lead for: the batch waits to be
    /// resent, and every leader is asked who leads; the request carries this
    /// batcher's index, which is returned.
    pub fn handle_not_leader_batcher(&mut self, batch: Vec<Proposal>) -> (request: u64)
        ensures
            request == old(self).index,
            final(self).pending_resend_batches@ == old(self).pending_resend_batches@.push(batch),
            final(self).growing_batch@ == old(self).growing_batch@,
            final(self).round == old(self).round,
            final(self).round_system == old(self).round_system,
            final(self).index == old(self).index,
    {
        self.pending_resend_batches.push(batch);
        self.index
    }

    /// A leader tells its round. A round not beyond the current one is stale
    /// and ignored; a later one is adopted, and where its leader differs from
    /// the current round's, the waiting batches are returned with that leader
    /// to be resent to it.
    pub fn handle_leader_info(&mut self, leader_info_round: u64) -> (resend: Option<(u64, Vec<Vec<Proposal>>)>)
        requires
            old(self).round_system.n > 0,
        ensures
            final(self).growing_batch@ == old(self).growing_batch@,
            final(self).round_system == old(self).round_system,
            final(self).index == old(self).index,
            leader_info_round <= old(self).round ==> {
                &&& resend is None
                &&& final(self).round == old(self).round
                &&& final(self).pending_resend_batches@ == old(self).pending_resend_batches@
            },
            leader_info_round > old(self).round ==> {
                let n = old(self).round_system.n as nat;
                &&& final(self).round == leader_info_round
                &&& spec_leader(n, old(self).round as nat) == spec_leader(n, leader_info_round as nat)
                    ==> resend is None && final(self).pending_resend_batches@
                    == old(self).pending_resend_batches@
                &&& spec_leader(n, old(self).round as nat) != spec_leader(n, leader_info_round as nat)
                    ==> (resend matches Some((l, bs)) && l == spec_leader(n, leader_info_round as nat)
                    && bs@ == old(self).pending_resend_batches@
                    && final(self).pending_resend_batches@.len() == 0)
            },
    {
        if leader_info_round <= self.round {
            return None;
        }
        let old_round = self.round;
        self.round = leader_info_round;
        let old_leader = self.round_system.leader(old_round);
        let new_leader = self.round_system.leader(leader_info_round);
        if old_leader != new_leader {
            let mut batches: Vec<Vec<Proposal>> = Vec::new();
            std::mem::swap(&mut batches, &mut self.pending_resend_batches);
            Some((new_leader, batches))
        } else {
            None
        }
    }

    /// The batch timer fired: a non-empty growing batch is handed, with the
    /// leader of the current round, to be sent to it, and a new batch begins.
    pub fn flush(&mut self) -> (out: Option<(u64, Vec<Proposal>)>)
        requires
            old(self).round_system.n > 0,
        ensures
            final(self).pending_resend_batches@ == old(self).pending_resend_batches@,
            final(self).round == old(self).round,
            final(self).round_system == old(self).round_system,
            final(self).index == old(self).index,
            old(self).growing_batch@.len() == 0 ==> out is None && final(self).growing_batch@.len()
                == 0,
            old(self).growing_batch@.len() > 0 ==> (out matches Some((l, b)) && l == spec_leader(
                old(self).round_system.n as nat,
                old(self).round as nat,
            ) && b@ == old(self).growing_batch@ && final(self).growing_batch@.len() == 0),
    {
        if self.growing_batch.len() == 0 {
            return None;
        }
        let leader = self.round_system.leader(self.round);
        let mut batch: Vec<Proposal> = Vec::new();
        std::mem::swap(&mut batch, &mut self.growing_batch);
        Some((leader, batch))
    }
}

} // verus!
