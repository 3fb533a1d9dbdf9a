//! Classic round-robin round system: round `r` belongs to leader `r mod n`
//! (with `n` standing for residue zero).
use vstd::prelude::*;
use vstd::arithmetic::div_mod::{lemma_fundamental_div_mod, lemma_fundamental_div_mod_converse};

verus! {

/// A round number of the Multi-Paxos leaders.
pub type Round = u64;

/// A log slot.
pub type Slot = u64;

/// Leader `i` (for `1 <= i <= n`) owns every round congruent to `i` modulo `n`.
pub struct ClassicRoundRobin {
    pub n: u64,
}

/// The leader that owns `round` among `n` leaders.
pub open spec fn spec_leader(n: nat, round: nat) -> nat
    recommends n > 0,
{
    if round % n == 0 { n } else { round % n }
}

/// `r` is a round owned by the leader with index `leader_index`.
pub open spec fn owned_by(n: nat, leader_index: nat, r: nat) -> bool {
    r % n == leader_index % n
}

/// The value that `next_classic_round` computes, written as in the round system.
pub open spec fn spec_next_classic_round(n: nat, leader_index: nat, round: nat) -> nat
    recommends n > 0,
{
    let m = n * (round / n);
    let offset = leader_index % n;
    if m + offset > round { m + offset } else { m + n + offset }
}

/// `round + 1 ..= result` can be represented: the machine limit of `next_classic_round`.
pub open spec fn next_classic_round_fits(n: nat, leader_index: nat, round: nat) -> bool {
    n * (round / n) + n + leader_index % n <= u64::MAX
}

/// The next round owned by `leader_index` is the smallest round above `round`
/// that is congruent to `leader_index` modulo `n`.
pub proof fn lemma_next_classic_round(n: nat, leader_index: nat, round: nat)
    requires
        n > 0,
    ensures
        spec_next_classic_round(n, leader_index, round) > round,
        owned_by(n, leader_index, spec_next_classic_round(n, leader_index, round)),
        forall|r: nat|
            round < r < spec_next_classic_round(n, leader_index, round) ==> !owned_by(n, leader_index, r),
{
    let q = round / n;
    let m = n * q;
    let offset = leader_index % n;
    lemma_fundamental_div_mod(round as int, n as int);
    lemma_fundamental_div_mod(leader_index as int, n as int);
    assert(m == q * n) by (nonlinear_arith)
        requires
            m == n * q,
    ;
    assert(round == m + round % n);
    if m + offset > round {
        lemma_fundamental_div_mod_converse((m + offset) as int, n as int, q as int, offset as int);
        assert forall|r: nat| round < r < m + offset implies !owned_by(n, leader_index, r) by {
            lemma_fundamental_div_mod_converse(r as int, n as int, q as int, (r - m) as int);
        }
    } else {
        assert((q + 1) * n == q * n + n) by (nonlinear_arith);
        lemma_fundamental_div_mod_converse(
            (m + n + offset) as int,
            n as int,
            (q + 1) as int,
            offset as int,
        );
        assert forall|r: nat| round < r < m + n + offset implies !owned_by(n, leader_index, r) by {
            if r < m + n {
                lemma_fundamental_div_mod_converse(r as int, n as int, q as int, (r - m) as int);
            } else {
                lemma_fundamental_div_mod_converse(
                    r as int,
                    n as int,
                    (q + 1) as int,
                    (r - m - n) as int,
                );
            }
        }
    }
}

/// Every leader index `1 ..= n` owns the rounds `next_classic_round` gives it:
/// the leader of the next classic round of leader `i` is `i`.
pub proof fn lemma_leader_of_next_classic_round(n: nat, leader_index: nat, round: nat)
    requires
        n > 0,
        1 <= leader_index <= n,
    ensures
        spec_leader(n, spec_next_classic_round(n, leader_index, round)) == leader_index,
{
    lemma_next_classic_round(n, leader_index, round);
    if leader_index == n {
        lemma_fundamental_div_mod_converse(n as int, n as int, 1, 0);
    } else {
        lemma_fundamental_div_mod_converse(leader_index as int, n as int, 0, leader_index as int);
    }
}

impl ClassicRoundRobin {
    /// The leader (an index in `1 ..= n`) that owns `round`.
    pub fn leader(&self, round: Round) -> (res: u64)
        requires
            self.n > 0,
        ensures
            res == spec_leader(self.n as nat, round as nat),
            1 <= res <= self.n,
    {
        let rest = round % self.n;
        if rest < 1 {
            self.n
        } else {
            rest
        }
    }

    /// The smallest round above `round` that `leader_index` owns.
    pub fn next_classic_round(&self, leader_index: u64, round: Round) -> (res: Round)
        requires
            self.n > 0,
            next_classic_round_fits(self.n as nat, leader_index as nat, round as nat),
        ensures
            res == spec_next_classic_round(self.n as nat, leader_index as nat, round as nat),
            res > round,
            owned_by(self.n as nat, leader_index as nat, res as nat),
            forall|r: nat| round < r < res ==> !owned_by(self.n as nat, leader_index as nat, r),
    {
        proof {
            lemma_next_classic_round(self.n as nat, leader_index as nat, round as nat);
            lemma_fundamental_div_mod(round as int, self.n as int);
        }
        let q = round / self.n;
        assert(self.n * q <= round) by {
            lemma_fundamental_div_mod(round as int, self.n as int);
        }
        let smallest_multiple_of_n = self.n * q;
        let offset = leader_index % self.n;
        if (smallest_multiple_of_n + offset) > round {
            smallest_multiple_of_n + offset
        } else {
            smallest_multiple_of_n + self.n + offset
        }
    }
}

} // verus!
