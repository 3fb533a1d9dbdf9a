//! The Multi-Paxos leader: it becomes active in a round of its own, gathers
//! promises from a majority of acceptors, re-proposes the safe value of every
//! slot they report, and then proposes client batches slot by slot.
use vstd::prelude::*;
use hashbrown::HashMap;
use crate::abcast::messages::{Proposal, proposals_view};
use crate::multipaxos::messages::{
    ChosenWatermark, CommandBatchOrNoop, CommandView, Nack, Phase1a, Phase1b, Phase1bView,
    Phase2a, Phase2aView, Recover, SlotInfoView,
};
use crate::multipaxos::round_robin::{ClassicRoundRobin, next_classic_round_fits, spec_next_classic_round};
use crate::wire::{blobs_view, put_slice};

verus! {

/// Every promise held was given in `round`.
pub open spec fn promises_of_round(m: Map<u64, Phase1b>, round: u64) -> bool {
    forall|a: u64| #[trigger] m.dom().contains(a) ==> m[a].round == round
}

/// Tuning of a leader; the periods are in milliseconds.
pub struct LeaderOptions {
    pub resend_phase1as_period: u64,
    pub noop_flush_period: u64,
}

/// Where a leader is in the protocol.
#[derive(PartialEq, Eq, Structural, Clone, Copy)]
pub enum LeaderState {
    Inactive,
    Phase1,
    Phase2,
}

/// The promises a leader has gathered in its current round, by acceptor.
pub type Phase1bMap = HashMap<u64, Phase1b>;

/// What a [`Phase1bMap`] holds.
pub uninterp spec fn phase1bs_of(m: Phase1bMap) -> Map<u64, Phase1b>;

/// Calls `hashbrown::HashMap::default`: an empty map.
#[verifier::external_body]
fn new_phase1bs() -> (promises: Phase1bMap)
    ensures
        phase1bs_of(promises).dom() == Set::<u64>::empty(),
{
    HashMap::default()
}

/// Calls `hashbrown::HashMap::clear`: the map is emptied.
#[verifier::external_body]
fn clear_phase1bs(promises: &mut Phase1bMap)
    ensures
        phase1bs_of(*final(promises)).dom() == Set::<u64>::empty(),
{
    promises.clear();
}

/// Calls `hashbrown::HashMap::insert`: the acceptor's promise replaces any earlier one.
#[verifier::external_body]
fn insert_phase1b(promises: &mut Phase1bMap, acceptor: u64, p: Phase1b)
    ensures
        phase1bs_of(*final(promises)) == phase1bs_of(*old(promises)).insert(acceptor, p),
{
    promises.insert(acceptor, p);
}

/// Calls `hashbrown::HashMap::len`: the number of acceptors that promised.
#[verifier::external_body]
fn phase1b_count(promises: &Phase1bMap) -> (count: usize)
    ensures
        count == phase1bs_of(*promises).dom().len(),
{
    promises.len()
}

/// Calls `hashbrown::HashMap::iter`, copying each promise with its acceptor.
/// The map's iteration order is left open: every entry is a held one, and
/// every held acceptor has an entry.
#[verifier::external_body]
fn phase1b_entries(promises: &Phase1bMap) -> (entries: Vec<(u64, Phase1b)>)
    ensures
        forall|i: int|
            #![trigger entries@[i]]
            0 <= i < entries@.len() ==> phase1bs_of(*promises).contains_key(entries@[i].0)
                && phase1bs_of(*promises)[entries@[i].0]@ == entries@[i].1@,
        forall|k: u64| #[trigger]
            phase1bs_of(*promises).contains_key(k) ==> exists|i: int|
                0 <= i < entries@.len() && entries@[i].0 == k,
{
    promises.iter().map(|(k, p)| (*k, p.copy())).collect()
}

/// Some promise in `ps` reports the vote `info`.
pub open spec fn reported_by(ps: Seq<Phase1bView>, info: SlotInfoView) -> bool {
    exists|b: int, j: int| 0 <= b < ps.len() && 0 <= j < ps[b].info.len() && #[trigger] ps[b].info[j] == info
}

/// Some promise held in `m` reports the vote `info`.
pub open spec fn reported_in(m: Map<u64, Phase1b>, info: SlotInfoView) -> bool {
    exists|k: u64, j: int|
        m.contains_key(k) && 0 <= j < m[k]@.info.len() && #[trigger] m[k]@.info[j] == info
}

/// `v` is safe to propose in `slot` given the reported votes `rep`: the value
/// of a reported vote in that slot with the highest round, or a no-op where no
/// vote in that slot is reported.
pub open spec fn is_safe_value(rep: spec_fn(SlotInfoView) -> bool, slot: u64, v: CommandView) -> bool {
    if exists|info: SlotInfoView| #[trigger] rep(info) && info.slot == slot {
        exists|info: SlotInfoView|
            #[trigger] rep(info) && info.slot == slot && info.vote_value == v && forall|o: SlotInfoView|
                #[trigger] rep(o) && o.slot == slot ==> o.vote_round <= info.vote_round
    } else {
        v == CommandView::Noop
    }
}

/// `m` is the largest slot of the reported votes `rep`, `None` where none is reported.
pub open spec fn is_max_reported_slot(rep: spec_fn(SlotInfoView) -> bool, m: Option<u64>) -> bool {
    match m {
        None => forall|info: SlotInfoView| !#[trigger] rep(info),
        Some(s) => {
            &&& exists|info: SlotInfoView| #[trigger] rep(info) && info.slot == s
            &&& forall|info: SlotInfoView| #[trigger] rep(info) ==> info.slot <= s
        },
    }
}

/// The abstract values of a sequence of promises.
pub open spec fn promises_view(ps: Seq<Phase1b>) -> Seq<Phase1bView> {
    ps.map_values(|p: Phase1b| p@)
}

/// A vote at position `j` of promise `b` comes before position `i` of promise `a`.
pub open spec fn visited(a: int, i: int, b: int, j: int) -> bool {
    b < a || (b == a && j < i)
}

proof fn lemma_reported_seq(ps: Seq<Phase1b>, info: SlotInfoView)
    ensures
        reported_by(promises_view(ps), info) <==> exists|b: int, j: int|
            0 <= b < ps.len() && 0 <= j < ps[b].info@.len() && #[trigger] ps[b].info@[j]@ == info,
{
    let vs = promises_view(ps);
    if reported_by(vs, info) {
        let (b, j) = choose|b: int, j: int|
            0 <= b < vs.len() && 0 <= j < vs[b].info.len() && #[trigger] vs[b].info[j] == info;
        assert(vs[b] == ps[b]@);
        assert(ps[b].info@[j]@ == info);
    }
    if exists|b: int, j: int|
        0 <= b < ps.len() && 0 <= j < ps[b].info@.len() && #[trigger] ps[b].info@[j]@ == info {
        let (b, j) = choose|b: int, j: int|
            0 <= b < ps.len() && 0 <= j < ps[b].info@.len() && #[trigger] ps[b].info@[j]@ == info;
        assert(vs[b] == ps[b]@);
        assert(vs[b].info[j] == info);
    }
}

/// The safe value to propose in `slot` given the promises `ps`.
pub fn safe_value(ps: &Vec<Phase1b>, slot: u64) -> (v: CommandBatchOrNoop)
    ensures
        is_safe_value(|info: SlotInfoView| reported_by(promises_view(ps@), info), slot, v@),
{
    let mut best: Option<(usize, usize)> = None;
    let mut a: usize = 0;
    while a < ps.len()
        invariant
            a <= ps@.len(),
            best matches Some((bb, bj)) ==> {
                &&& bb < ps@.len() && bj < ps@[bb as int].info@.len()
                &&& visited(a as int, 0, bb as int, bj as int)
                &&& ps@[bb as int].info@[bj as int].slot == slot
                &&& forall|b: int, j: int|
                    0 <= b < ps@.len() && 0 <= j < ps@[b].info@.len() && visited(a as int, 0, b, j)
                        && #[trigger] ps@[b].info@[j].slot == slot ==> ps@[b].info@[j].vote_round
                        <= ps@[bb as int].info@[bj as int].vote_round
            },
            best is None ==> forall|b: int, j: int|
                0 <= b < ps@.len() && 0 <= j < ps@[b].info@.len() && visited(a as int, 0, b, j)
                    ==> #[trigger] ps@[b].info@[j].slot != slot,
        decreases ps@.len() - a,
    {
        let mut i: usize = 0;
        while i < ps[a].info.len()
            invariant
                a < ps@.len(),
                i <= ps@[a as int].info@.len(),
                best matches Some((bb, bj)) ==> {
                    &&& bb < ps@.len() && bj < ps@[bb as int].info@.len()
                    &&& visited(a as int, i as int, bb as int, bj as int)
                    &&& ps@[bb as int].info@[bj as int].slot == slot
                    &&& forall|b: int, j: int|
                        0 <= b < ps@.len() && 0 <= j < ps@[b].info@.len() && visited(
                            a as int,
                            i as int,
                            b,
                            j,
                        ) && #[trigger] ps@[b].info@[j].slot == slot ==> ps@[b].info@[j].vote_round
                            <= ps@[bb as int].info@[bj as int].vote_round
                },
                best is None ==> forall|b: int, j: int|
                    0 <= b < ps@.len() && 0 <= j < ps@[b].info@.len() && visited(
                        a as int,
                        i as int,
                        b,
                        j,
                    ) ==> #[trigger] ps@[b].info@[j].slot != slot,
            decreases ps@[a as int].info@.len() - i,
        {
            if ps[a].info[i].slot == slot {
                let better = match best {
                    None => true,
                    Some((bb, bj)) => ps[bb].info[bj].vote_round <= ps[a].info[i].vote_round,
                };
                if better {
                    best = Some((a, i));
                }
            }
            i = i + 1;
        }
        a = a + 1;
    }
    match best {
        None => {
            proof {
                let rep = |info: SlotInfoView| reported_by(promises_view(ps@), info);
                assert forall|info: SlotInfoView| #[trigger] rep(info) implies info.slot != slot by {
                    lemma_reported_seq(ps@, info);
                    if info.slot == slot {
                        let (b, j) = choose|b: int, j: int|
                            0 <= b < ps@.len() && 0 <= j < ps@[b].info@.len() && #[trigger] ps@[b].info@[j]@
                                == info;
                        assert(ps@[b].info@[j].slot == slot);
                    }
                }
            }
            CommandBatchOrNoop::Noop
        },
        Some((bb, bj)) => {
            let v = ps[bb].info[bj].vote_value.copy();
            proof {
                let rep = |info: SlotInfoView| reported_by(promises_view(ps@), info);
                let best_info = ps@[bb as int].info@[bj as int]@;
                lemma_reported_seq(ps@, best_info);
                assert(rep(best_info));
                assert forall|o: SlotInfoView| #[trigger]
                    rep(o) && o.slot == slot implies o.vote_round
                    <= best_info.vote_round by {
                    lemma_reported_seq(ps@, o);
                    let (b, j) = choose|b: int, j: int|
                        0 <= b < ps@.len() && 0 <= j < ps@[b].info@.len() && #[trigger] ps@[b].info@[j]@
                            == o;
                    assert(ps@[b].info@[j].slot == slot);
                }
            }
            v
        },
    }
}

/// What the copied entries report is what the map reports.
proof fn lemma_entries_reported(m: Map<u64, Phase1b>, entries: Seq<(u64, Phase1b)>, vals: Seq<Phase1b>)
    requires
        vals.len() == entries.len(),
        forall|i: int| 0 <= i < vals.len() ==> #[trigger] vals[i]@ == entries[i].1@,
        forall|i: int|
            #![trigger entries[i]]
            0 <= i < entries.len() ==> m.contains_key(entries[i].0) && m[entries[i].0]@ == entries[i].1@,
        forall|k: u64| #[trigger]
            m.contains_key(k) ==> exists|i: int| 0 <= i < entries.len() && entries[i].0 == k,
    ensures
        forall|info: SlotInfoView|
            #[trigger] reported_by(promises_view(vals), info) == reported_in(m, info),
{
    assert forall|info: SlotInfoView|
        #[trigger] reported_by(promises_view(vals), info) == reported_in(m, info) by {
        lemma_reported_seq(vals, info);
        if reported_in(m, info) {
            let (k, j) = choose|k: u64, j: int|
                m.contains_key(k) && 0 <= j < m[k]@.info.len() && #[trigger] m[k]@.info[j] == info;
            let b = choose|i: int| 0 <= i < entries.len() && entries[i].0 == k;
            assert(entries[b].0 == k);
            assert(vals[b]@ == entries[b].1@);
            assert(vals[b]@.info[j] == info);
            assert(vals[b].info@[j]@ == info);
        }
        if reported_by(promises_view(vals), info) {
            let (b, j) = choose|b: int, j: int|
                0 <= b < vals.len() && 0 <= j < vals[b].info@.len() && #[trigger] vals[b].info@[j]@
                    == info;
            assert(entries[b].0 == entries[b].0);
            let k = entries[b].0;
            assert(m[k]@ == vals[b]@);
            assert(m[k]@.info[j] == info);
        }
    }
}

/// The largest slot reported by any of the promises `ps`, `None` where none is reported.
fn max_reported_slot(ps: &Vec<Phase1b>) -> (m: Option<u64>)
    ensures
        is_max_reported_slot(|info: SlotInfoView| reported_by(promises_view(ps@), info), m),
{
    let mut best: Option<u64> = None;
    let mut a: usize = 0;
    while a < ps.len()
        invariant
            a <= ps@.len(),
            best is None ==> forall|b: int| 0 <= b < a ==> #[trigger] ps@[b].info@.len() == 0,
            best matches Some(s) ==> {
                &&& exists|b: int, j: int|
                    0 <= b < a && 0 <= j < ps@[b].info@.len() && #[trigger] ps@[b].info@[j].slot
                        == s
                &&& forall|b: int, j: int|
                    0 <= b < a && 0 <= j < ps@[b].info@.len() ==> #[trigger] ps@[b].info@[j].slot
                        <= s
            },
        decreases ps@.len() - a,
    {
        match max_phase1b_slot(&ps[a]) {
            Some(s) => {
                let ghost jw = choose|i: int| 0 <= i < ps@[a as int]@.info.len() && ps@[a as int]@.info[i].slot == s;
                proof {
                    assert(ps@[a as int].info@[jw].slot == s);
                }
                match best {
                    None => {
                        best = Some(s);
                    },
                    Some(m) => {
                        if s > m {
                            best = Some(s);
                        } else {
                            proof {
                                assert forall|j: int| 0 <= j < ps@[a as int].info@.len() implies
                                    #[trigger] ps@[a as int].info@[j].slot <= m by {
                                    assert(ps@[a as int]@.info[j].slot <= s);
                                }
                            }
                        }
                    },
                }
                proof {
                    assert forall|j: int| 0 <= j < ps@[a as int].info@.len() implies
                        #[trigger] ps@[a as int].info@[j].slot <= s by {
                        assert(ps@[a as int]@.info[j].slot <= s);
                    }
                }
            },
            None => {
                assert(ps@[a as int]@.info.len() == 0);
            },
        }
        a = a + 1;
    }
    proof {
        let rep = |info: SlotInfoView| reported_by(promises_view(ps@), info);
        match best {
            None => {
                assert forall|info: SlotInfoView| !#[trigger] rep(info) by {
                    lemma_reported_seq(ps@, info);
                    if rep(info) {
                        let (b, j) = choose|b: int, j: int|
                            0 <= b < ps@.len() && 0 <= j < ps@[b].info@.len() && #[trigger] ps@[b].info@[j]@
                                == info;
                        assert(ps@[b].info@.len() == 0);
                    }
                }
            },
            Some(s) => {
                let (b, j) = choose|b: int, j: int|
                    0 <= b < ps@.len() && 0 <= j < ps@[b].info@.len() && #[trigger] ps@[b].info@[j].slot
                        == s;
                lemma_reported_seq(ps@, ps@[b].info@[j]@);
                assert(rep(ps@[b].info@[j]@));
                assert forall|info: SlotInfoView| #[trigger] rep(info) implies info.slot <= s by {
                    lemma_reported_seq(ps@, info);
                    let (b2, j2) = choose|b: int, j: int|
                        0 <= b < ps@.len() && 0 <= j < ps@[b].info@.len() && #[trigger] ps@[b].info@[j]@
                            == info;
                    assert(ps@[b2].info@[j2].slot <= s);
                }
            },
        }
    }
    best
}

/// The largest slot a promise reports a vote in, `None` where it reports none.
pub fn max_phase1b_slot(phase1b: &Phase1b) -> (m: Option<u64>)
    ensures
        m is None <==> phase1b@.info.len() == 0,
        m matches Some(s) ==> (exists|i: int| 0 <= i < phase1b@.info.len() && phase1b@.info[i].slot == s)
            && (forall|i: int| 0 <= i < phase1b@.info.len() ==> phase1b@.info[i].slot <= s),
{
    if phase1b.info.len() == 0 {
        return None;
    }
    let mut best: u64 = phase1b.info[0].slot;
    assert(phase1b@.info[0].slot == best);
    let mut i: usize = 1;
    while i < phase1b.info.len()
        invariant
            1 <= i <= phase1b@.info.len(),
            exists|j: int| 0 <= j < i && #[trigger] phase1b@.info[j].slot == best,
            forall|j: int| 0 <= j < i ==> phase1b@.info[j].slot <= best,
        decreases phase1b@.info.len() - i,
    {
        if phase1b.info[i].slot > best {
            best = phase1b.info[i].slot;
            assert(phase1b@.info[i as int].slot == best);
        }
        i = i + 1;
    }
    Some(best)
}

/// What a change of leadership asks of the timers and the acceptors.
pub struct LeaderChange {
    /// Cancel the timer that resends the Phase1a.
    pub stop_resend_phase1as: bool,
    /// Cancel the timer that flushes a no-op.
    pub stop_noop_flush: bool,
    /// Send this Phase1a to every acceptor and schedule its resending.
    pub phase1a: Option<Phase1a>,
}

/// A leader that gathered a majority of promises: it tells the client it
/// leads in `round`, cancels the Phase1a resending, schedules a no-op flush,
/// and hands these Phase2as to its proxy leader in order.
pub struct Elected {
    pub round: u64,
    pub phase2as: Vec<Phase2a>,
}

/// What becomes of a client batch.
pub enum BatchOutcome {
    /// Not leading: the batch goes back to the batcher.
    NotLeader(Vec<Proposal>),
    /// Gathering promises: the batch waits.
    Queued,
    /// Leading: this Phase2a goes to the proxy leader.
    Propose(Phase2a),
}

/// The state of a leader.
pub struct Leader {
    pub options: LeaderOptions,
    pub state: LeaderState,
    pub index: u64,
    pub round_system: ClassicRoundRobin,
    pub round: u64,
    pub next_slot: u64,
    pub chosen_watermark: u64,
    pub majority: usize,
    pub phase1bs: Phase1bMap,
    pub pending_client_request_batches: Vec<Vec<Proposal>>,
}

/// The Phase2a a leader sends for a client batch.
pub open spec fn batch_phase2a(index: u64, slot: u64, round: u64, batch: Seq<Proposal>) -> Phase2aView {
    Phase2aView { src: index, slot, round, value: CommandView::Batch(proposals_view(batch)) }
}

/// The pending batches as abstract values.
pub open spec fn batches_view(v: Seq<Vec<Proposal>>) -> Seq<Seq<Seq<u8>>> {
    v.map_values(|b: Vec<Proposal>| proposals_view(b@))
}

/// `phase2as` re-proposes, in the slots `from ..= max`, the safe value of each
/// slot, and then proposes the pending batches in the slots that follow.
pub open spec fn recovery_phase2as(
    phase2as: Seq<Phase2aView>,
    rep: spec_fn(SlotInfoView) -> bool,
    index: u64,
    round: u64,
    from: u64,
    max: Option<u64>,
    next_slot: u64,
    pending: Seq<Seq<Seq<u8>>>,
) -> bool {
    let recovered: int = match max {
        Some(s) => if s >= from { s - from + 1 } else { 0 },
        None => 0,
    };
    let first: int = match max {
        Some(s) => s + 1,
        None => next_slot as int,
    };
    &&& phase2as.len() == recovered + pending.len()
    &&& forall|i: int|
        0 <= i < recovered ==> {
            &&& (#[trigger] phase2as[i]).src == index
            &&& phase2as[i].slot == from + i
            &&& phase2as[i].round == round
            &&& is_safe_value(rep, phase2as[i].slot, phase2as[i].value)
        }
    &&& forall|i: int|
        0 <= i < pending.len() ==> #[trigger] phase2as[recovered + i] == Phase2aView {
            src: index,
            slot: (first + i) as u64,
            round,
            value: CommandView::Batch(pending[i]),
        }
}

/// The views of a sequence of Phase2as.
pub open spec fn phase2as_view(v: Seq<Phase2a>) -> Seq<Phase2aView> {
    v.map_values(|p: Phase2a| p@)
}

impl Leader {
    pub open spec fn wf(&self) -> bool {
        &&& self.round_system.n > 0
        &&& self.majority >= 1
        &&& self.state == LeaderState::Phase1 ==> promises_of_round(
            phase1bs_of(self.phase1bs),
            self.round,
        )
    }

    /// What a change to leading a new round needs: the next round of this
    /// leader fits a `u64`.
    pub open spec fn can_start_round(&self) -> bool {
        next_classic_round_fits(self.round_system.n as nat, self.index as nat, self.round as nat)
    }

    /// The slots a completed Phase 1 would propose fit a `u64`: every slot
    /// reported, and the next slot, leave room for the pending batches.
    pub open spec fn slots_fit(&self, extra: Phase1b) -> bool {
        let k = self.pending_client_request_batches@.len();
        let m = phase1bs_of(self.phase1bs).insert(extra.acceptor_index, extra);
        &&& self.next_slot + k < u64::MAX
        &&& forall|info: SlotInfoView| #[trigger] reported_in(m, info) ==> info.slot + k < u64::MAX
    }

    /// A leader of `num_leaders` leaders; the last one starts out gathering
    /// promises, the others start out leading.
    pub fn with(pid: u64, options: LeaderOptions, num_leaders: usize) -> (l: Leader)
        requires
            num_leaders > 0,
        ensures
            l.wf(),
            l.index == pid,
            l.options == options,
            l.state == (if pid == num_leaders { LeaderState::Phase1 } else { LeaderState::Phase2 }),
            l.round_system.n == num_leaders,
            l.round == spec_next_classic_round(num_leaders as nat, num_leaders as nat, 0),
            l.next_slot == 0,
            l.chosen_watermark == 0,
            l.majority == num_leaders / 2 + 1,
            phase1bs_of(l.phase1bs).dom() == Set::<u64>::empty(),
            l.pending_client_request_batches@.len() == 0,
    {
        let n = num_leaders as u64;
        let state = if pid == n {
            LeaderState::Phase1
        } else {
            LeaderState::Phase2
        };
        let round_system = ClassicRoundRobin { n };
        proof {
            assert(n * (0u64 / n) == 0) by (nonlinear_arith)
                requires
                    n > 0,
            ;
        }
        let round = round_system.next_classic_round(n, 0);
        Leader {
            options,
            state,
            index: pid,
            round_system,
            round,
            next_slot: 0,
            chosen_watermark: 0,
            majority: num_leaders / 2 + 1,
            phase1bs: new_phase1bs(),
            pending_client_request_batches: Vec::new(),
        }
    }

    /// Starts gathering promises in `round`: the pending batches and the
    /// promises of earlier rounds are dropped.
    fn start_phase1(&mut self, round: u64, chosen_watermark: u64) -> (phase1a: Phase1a)
        ensures
            phase1a == (Phase1a { src: old(self).index, round, chosen_watermark }),
            final(self).pending_client_request_batches@.len() == 0,
            phase1bs_of(final(self).phase1bs).dom() == Set::<u64>::empty(),
            final(self).options == old(self).options,
            final(self).state == old(self).state,
            final(self).index == old(self).index,
            final(self).round_system == old(self).round_system,
            final(self).round == old(self).round,
            final(self).next_slot == old(self).next_slot,
            final(self).chosen_watermark == old(self).chosen_watermark,
            final(self).majority == old(self).majority,
    {
        let phase1a = Phase1a { src: self.index, round, chosen_watermark };
        self.pending_client_request_batches = Vec::new();
        clear_phase1bs(&mut self.phase1bs);
        phase1a
    }

    /// Leadership changed: a leader that lost it goes inactive and cancels its
    /// timers; a leader that gained it moves to its next round and starts
    /// gathering promises.
    pub fn leader_change(&mut self, is_new_leader: bool) -> (c: LeaderChange)
        requires
            old(self).wf(),
            is_new_leader ==> old(self).can_start_round(),
        ensures
            final(self).wf(),
            final(self).options == old(self).options,
            final(self).index == old(self).index,
            final(self).round_system == old(self).round_system,
            final(self).next_slot == old(self).next_slot,
            final(self).chosen_watermark == old(self).chosen_watermark,
            final(self).majority == old(self).majority,
            c.stop_resend_phase1as == (old(self).state == LeaderState::Phase1),
            c.stop_noop_flush == (old(self).state == LeaderState::Phase2),
            !is_new_leader ==> {
                &&& final(self).state == LeaderState::Inactive
                &&& final(self).round == old(self).round
                &&& c.phase1a is None
                &&& phase1bs_of(final(self).phase1bs) == phase1bs_of(old(self).phase1bs)
                &&& final(self).pending_client_request_batches@
                    == old(self).pending_client_request_batches@
            },
            is_new_leader ==> {
                let r = spec_next_classic_round(
                    old(self).round_system.n as nat,
                    old(self).index as nat,
                    old(self).round as nat,
                );
                &&& final(self).state == LeaderState::Phase1
                &&& final(self).round == r
                &&& c.phase1a == Some(
                    Phase1a {
                        src: old(self).index,
                        round: r as u64,
                        chosen_watermark: old(self).chosen_watermark,
                    },
                )
                &&& phase1bs_of(final(self).phase1bs).dom() == Set::<u64>::empty()
                &&& final(self).pending_client_request_batches@.len() == 0
            },
    {
        let stop_resend_phase1as = self.state == LeaderState::Phase1;
        let stop_noop_flush = self.state == LeaderState::Phase2;
        if !is_new_leader {
            self.state = LeaderState::Inactive;
            return LeaderChange { stop_resend_phase1as, stop_noop_flush, phase1a: None };
        }
        self.round = self.round_system.next_classic_round(self.index, self.round);
        let phase1a = self.start_phase1(self.round, self.chosen_watermark);
        self.state = LeaderState::Phase1;
        LeaderChange { stop_resend_phase1as, stop_noop_flush, phase1a: Some(phase1a) }
    }

    /// The leader election named `leader_index`.
    pub fn handle_leader_election(&mut self, leader_index: u64) -> (c: LeaderChange)
        requires
            old(self).wf(),
            leader_index == old(self).index ==> old(self).can_start_round(),
        ensures
            final(self).wf(),
            final(self).state == (if leader_index == old(self).index {
                LeaderState::Phase1
            } else {
                LeaderState::Inactive
            }),
            final(self).chosen_watermark == old(self).chosen_watermark,
            final(self).next_slot == old(self).next_slot,
            c.stop_resend_phase1as == (old(self).state == LeaderState::Phase1),
            c.stop_noop_flush == (old(self).state == LeaderState::Phase2),
            leader_index == old(self).index ==> {
                let r = spec_next_classic_round(
                    old(self).round_system.n as nat,
                    old(self).index as nat,
                    old(self).round as nat,
                );
                &&& final(self).round == r
                &&& c.phase1a == Some(
                    Phase1a {
                        src: old(self).index,
                        round: r as u64,
                        chosen_watermark: old(self).chosen_watermark,
                    },
                )
                &&& final(self).pending_client_request_batches@.len() == 0
                &&& phase1bs_of(final(self).phase1bs).dom() == Set::<u64>::empty()
            },
            leader_index != old(self).index ==> {
                &&& final(self).round == old(self).round
                &&& c.phase1a is None
            },
    {
        self.leader_change(leader_index == self.index)
    }

    /// On start, a leader that begins in Phase 1 asks the acceptors for promises.
    pub fn on_start(&mut self) -> (phase1a: Option<Phase1a>)
        ensures
            final(self).state == old(self).state,
            final(self).round == old(self).round,
            old(self).state == LeaderState::Phase1 ==> phase1a == Some(
                Phase1a {
                    src: old(self).index,
                    round: old(self).round,
                    chosen_watermark: old(self).chosen_watermark,
                },
            ),
            old(self).state != LeaderState::Phase1 ==> phase1a is None,
    {
        if self.state == LeaderState::Phase1 {
            Some(self.start_phase1(self.round, self.chosen_watermark))
        } else {
            None
        }
    }

    /// The Phase2a for a client batch in the next slot.
    fn process_client_request_batch(&mut self, client_request_batch: &Vec<Proposal>) -> (p: Phase2a)
        requires
            old(self).next_slot < u64::MAX,
        ensures
            p@ == batch_phase2a(
                old(self).index,
                old(self).next_slot,
                old(self).round,
                client_request_batch@,
            ),
            final(self).next_slot == old(self).next_slot + 1,
            final(self).options == old(self).options,
            final(self).state == old(self).state,
            final(self).index == old(self).index,
            final(self).round_system == old(self).round_system,
            final(self).round == old(self).round,
            final(self).chosen_watermark == old(self).chosen_watermark,
            final(self).majority == old(self).majority,
            final(self).phase1bs == old(self).phase1bs,
            final(self).pending_client_request_batches == old(self).pending_client_request_batches,
    {
        let mut data: Vec<Vec<u8>> = Vec::new();
        let mut i: usize = 0;
        while i < client_request_batch.len()
            invariant
                i <= client_request_batch@.len(),
                blobs_view(data@) =~= proposals_view(client_request_batch@).take(i as int),
            decreases client_request_batch@.len() - i,
        {
            let mut d: Vec<u8> = Vec::new();
            put_slice(&mut d, client_request_batch[i].data.as_slice());
            let ghost before = data@;
            data.push(d);
            i = i + 1;
            proof {
                assert(blobs_view(data@) =~= blobs_view(before).push(d@));
            }
        }
        proof {
            assert(proposals_view(client_request_batch@).take(client_request_batch@.len() as int)
                =~= proposals_view(client_request_batch@));
        }
        let phase2a = Phase2a {
            src: self.index,
            slot: self.next_slot,
            round: self.round,
            command_batch_or_noop: CommandBatchOrNoop::CommandBatch(data),
        };
        self.next_slot = self.next_slot + 1;
        phase2a
    }

    /// A batcher hands over a client batch.
    pub fn handle_client_request_batch(&mut self, client_request_batch: Vec<Proposal>) -> (out: BatchOutcome)
        requires
            old(self).state == LeaderState::Phase2 ==> old(self).next_slot < u64::MAX,
        ensures
            final(self).state == old(self).state,
            final(self).round == old(self).round,
            old(self).state == LeaderState::Inactive ==> {
                &&& out matches BatchOutcome::NotLeader(b) && b@ == client_request_batch@
                &&& final(self).next_slot == old(self).next_slot
                &&& final(self).pending_client_request_batches@
                    == old(self).pending_client_request_batches@
            },
            old(self).state == LeaderState::Phase1 ==> {
                &&& out is Queued
                &&& final(self).next_slot == old(self).next_slot
                &&& final(self).pending_client_request_batches@
                    == old(self).pending_client_request_batches@.push(client_request_batch)
            },
            old(self).state == LeaderState::Phase2 ==> {
                &&& out matches BatchOutcome::Propose(p) && p@ == batch_phase2a(
                    old(self).index,
                    old(self).next_slot,
                    old(self).round,
                    client_request_batch@,
                )
                &&& final(self).next_slot == old(self).next_slot + 1
                &&& final(self).pending_client_request_batches@
                    == old(self).pending_client_request_batches@
            },
    {
        match self.state {
            LeaderState::Inactive => BatchOutcome::NotLeader(client_request_batch),
            LeaderState::Phase1 => {
                self.pending_client_request_batches.push(client_request_batch);
                BatchOutcome::Queued
            },
            LeaderState::Phase2 => {
                let p = self.process_client_request_batch(&client_request_batch);
                BatchOutcome::Propose(p)
            },
        }
    }

    /// Copies of the promises held, reporting exactly what the held promises report.
    fn promise_values(&self) -> (vals: Vec<Phase1b>)
        ensures
            forall|info: SlotInfoView|
                #[trigger] reported_by(promises_view(vals@), info) == reported_in(
                    phase1bs_of(self.phase1bs),
                    info,
                ),
    {
        let entries = phase1b_entries(&self.phase1bs);
        let mut vals: Vec<Phase1b> = Vec::new();
        let mut i: usize = 0;
        while i < entries.len()
            invariant
                i <= entries@.len(),
                vals@.len() == i,
                forall|j: int| 0 <= j < i ==> #[trigger] vals@[j]@ == entries@[j].1@,
            decreases entries@.len() - i,
        {
            vals.push(entries[i].1.copy());
            i = i + 1;
        }
        proof {
            lemma_entries_reported(phase1bs_of(self.phase1bs), entries@, vals@);
        }
        vals
    }

    /// The Phase2as that re-propose, in every slot from the chosen watermark
    /// up to the largest slot the promises `vals` report, the safe value of
    /// the slot; and that largest slot.
    fn recovery(&self, vals: &Vec<Phase1b>) -> (out: (Vec<Phase2a>, Option<u64>))
        requires
            forall|info: SlotInfoView| #[trigger] reported_by(promises_view(vals@), info) ==> info.slot < u64::MAX,
        ensures
            is_max_reported_slot(|info: SlotInfoView| reported_by(promises_view(vals@), info), out.1),
            recovery_phase2as(
                phase2as_view(out.0@),
                |info: SlotInfoView| reported_by(promises_view(vals@), info),
                self.index,
                self.round,
                self.chosen_watermark,
                out.1,
                0,
                Seq::empty(),
            ),
    {
        let ghost rv = |info: SlotInfoView| reported_by(promises_view(vals@), info);
        let max_slot = max_reported_slot(vals);
        let cw = self.chosen_watermark;
        let mut phase2as: Vec<Phase2a> = Vec::new();
        match max_slot {
            Some(ms) => {
                proof {
                    let info = choose|info: SlotInfoView| #[trigger] rv(info) && info.slot == ms;
                    assert(rv(info));
                }
                let mut slot: u64 = cw;
                while slot <= ms
                    invariant
                        ms < u64::MAX,
                        cw <= slot <= ms + 1 || (cw > ms && slot == cw),
                        cw <= ms ==> phase2as@.len() == slot - cw,
                        cw > ms ==> phase2as@.len() == 0,
                        forall|i: int|
                            0 <= i < phase2as@.len() ==> {
                                &&& (#[trigger] phase2as@[i])@.src == self.index
                                &&& phase2as@[i]@.slot == cw + i
                                &&& phase2as@[i]@.round == self.round
                                &&& is_safe_value(
                                    |info: SlotInfoView| reported_by(promises_view(vals@), info),
                                    phase2as@[i]@.slot,
                                    phase2as@[i]@.value,
                                )
                            },
                    decreases ms + 1 - slot,
                {
                    let v = safe_value(vals, slot);
                    let ghost before = phase2as@;
                    let p = Phase2a { src: self.index, slot, round: self.round, command_batch_or_noop: v };
                    phase2as.push(p);
                    proof {
                        assert(phase2as@[before.len() as int] == p);
                        assert(forall|i: int| 0 <= i < before.len() ==> phase2as@[i] == before[i]);
                    }
                    slot = slot + 1;
                }
            },
            None => {},
        }
        proof {
            let e = phase2as_view(phase2as@);
            assert forall|i: int|
                0 <= i < e.len() implies {
                    &&& (#[trigger] e[i]).src == self.index
                    &&& e[i].slot == cw + i
                    &&& e[i].round == self.round
                    &&& is_safe_value(rv, e[i].slot, e[i].value)
                } by {
                assert(e[i] == phase2as@[i]@);
            }
        }
        (phase2as, max_slot)
    }

    /// Proposes the batches in order, from the next slot on, after `phase2as`.
    fn propose_batches(&mut self, batches: &Vec<Vec<Proposal>>, phase2as: &mut Vec<Phase2a>)
        requires
            old(self).next_slot + batches@.len() <= u64::MAX,
        ensures
            final(self).next_slot == old(self).next_slot + batches@.len(),
            final(self).options == old(self).options,
            final(self).state == old(self).state,
            final(self).index == old(self).index,
            final(self).round_system == old(self).round_system,
            final(self).round == old(self).round,
            final(self).chosen_watermark == old(self).chosen_watermark,
            final(self).majority == old(self).majority,
            final(self).phase1bs == old(self).phase1bs,
            final(self).pending_client_request_batches == old(self).pending_client_request_batches,
            final(phase2as)@.len() == old(phase2as)@.len() + batches@.len(),
            forall|j: int| 0 <= j < old(phase2as)@.len() ==> #[trigger] final(phase2as)@[j] == old(phase2as)@[j],
            forall|j: int|
                0 <= j < batches@.len() ==> (#[trigger] final(phase2as)@[old(phase2as)@.len() + j])@
                    == batch_phase2a(
                    old(self).index,
                    (old(self).next_slot + j) as u64,
                    old(self).round,
                    batches@[j]@,
                ),
    {
        let ghost first = self.next_slot;
        let ghost start = phase2as@;
        let mut i: usize = 0;
        while i < batches.len()
            invariant
                i <= batches@.len(),
                first + batches@.len() <= u64::MAX,
                self.next_slot == first + i,
                self.options == old(self).options,
                self.state == old(self).state,
                self.index == old(self).index,
                self.round_system == old(self).round_system,
                self.round == old(self).round,
                self.chosen_watermark == old(self).chosen_watermark,
                self.majority == old(self).majority,
                self.phase1bs == old(self).phase1bs,
                self.pending_client_request_batches == old(self).pending_client_request_batches,
                phase2as@.len() == start.len() + i,
                forall|j: int| 0 <= j < start.len() ==> #[trigger] phase2as@[j] == start[j],
                forall|j: int|
                    0 <= j < i ==> (#[trigger] phase2as@[start.len() + j])@ == batch_phase2a(
                        self.index,
                        (first + j) as u64,
                        self.round,
                        batches@[j]@,
                    ),
            decreases batches@.len() - i,
        {
            let p = self.process_client_request_batch(&batches[i]);
            phase2as.push(p);
            i = i + 1;
        }
    }

    /// An acceptor promises. Promises are gathered only in Phase 1 and for
    /// the current round; once a majority of acceptors promised, the leader
    /// leads: it re-proposes the safe value of every slot from the chosen
    /// watermark up to the largest reported one, continues after that slot
    /// (or at its next slot where none is reported), and proposes the batches
    /// that waited.
    #[verifier::rlimit(40)]
    pub fn handle_phase1b(&mut self, phase1b: Phase1b) -> (out: Option<Elected>)
        requires
            old(self).wf(),
            old(self).slots_fit(phase1b),
        ensures
            final(self).wf(),
            final(self).index == old(self).index,
            final(self).round == old(self).round,
            final(self).chosen_watermark == old(self).chosen_watermark,
            old(self).state != LeaderState::Phase1 || phase1b.round != old(self).round ==> {
                &&& out is None
                &&& final(self).state == old(self).state
                &&& final(self).next_slot == old(self).next_slot
                &&& phase1bs_of(final(self).phase1bs) == phase1bs_of(old(self).phase1bs)
                &&& final(self).pending_client_request_batches@
                    == old(self).pending_client_request_batches@
            },
            old(self).state == LeaderState::Phase1 && phase1b.round == old(self).round ==> {
                let m = phase1bs_of(old(self).phase1bs).insert(phase1b.acceptor_index, phase1b);
                let rep = |info: SlotInfoView| reported_in(m, info);
                let k = old(self).pending_client_request_batches@.len();
                &&& phase1bs_of(final(self).phase1bs) == m
                &&& m.dom().len() < old(self).majority ==> {
                    &&& out is None
                    &&& final(self).state == LeaderState::Phase1
                    &&& final(self).next_slot == old(self).next_slot
                    &&& final(self).pending_client_request_batches@
                        == old(self).pending_client_request_batches@
                }
                &&& m.dom().len() >= old(self).majority ==> {
                    &&& promises_of_round(m, old(self).round)
                    &&& final(self).state == LeaderState::Phase2
                    &&& final(self).pending_client_request_batches@.len() == 0
                    &&& out matches Some(e) && e.round == old(self).round && exists|ms: Option<u64>|
                        {
                            &&& #[trigger] is_max_reported_slot(rep, ms)
                            &&& recovery_phase2as(
                                phase2as_view(e.phase2as@),
                                rep,
                                old(self).index,
                                old(self).round,
                                old(self).chosen_watermark,
                                ms,
                                old(self).next_slot,
                                batches_view(old(self).pending_client_request_batches@),
                            )
                            &&& final(self).next_slot == match ms {
                                Some(s) => s + 1 + k,
                                None => old(self).next_slot + k,
                            }
                        }
                }
            },
    {
        if self.state != LeaderState::Phase1 || phase1b.round != self.round {
            return None;
        }
        let ghost k = self.pending_client_request_batches@.len();
        let ghost pending = batches_view(self.pending_client_request_batches@);
        insert_phase1b(&mut self.phase1bs, phase1b.acceptor_index, phase1b);
        let ghost m = phase1bs_of(self.phase1bs);
        if phase1b_count(&self.phase1bs) < self.majority {
            return None;
        }
        let vals = self.promise_values();
        let ghost rep = |info: SlotInfoView| reported_in(m, info);
        let ghost rv = |info: SlotInfoView| reported_by(promises_view(vals@), info);
        proof {
            assert(rv =~= rep);
            assert forall|info: SlotInfoView| #[trigger] rv(info) implies info.slot < u64::MAX by {
                assert(rep(info));
            }
        }
        let (mut phase2as, max_slot) = self.recovery(&vals);
        match max_slot {
            Some(ms) => {
                proof {
                    let info = choose|info: SlotInfoView| #[trigger] rv(info) && info.slot == ms;
                    assert(rep(info));
                }
                self.next_slot = ms + 1;
            },
            None => {},
        }
        let ghost recovered = phase2as_view(phase2as@);
        self.state = LeaderState::Phase2;
        let mut pending_batches: Vec<Vec<Proposal>> = Vec::new();
        std::mem::swap(&mut pending_batches, &mut self.pending_client_request_batches);
        let ghost first = self.next_slot;
        self.propose_batches(&pending_batches, &mut phase2as);
        proof {
            let e = phase2as_view(phase2as@);
            let n: int = recovered.len() as int;
            assert forall|j: int| 0 <= j < n implies #[trigger] e[j] == recovered[j] by {
                assert(e[j] == phase2as@[j]@);
            }
            assert forall|j: int| 0 <= j < k implies #[trigger] e[n + j] == Phase2aView {
                src: old(self).index,
                slot: (first + j) as u64,
                round: old(self).round,
                value: CommandView::Batch(pending[j]),
            } by {
                assert(e[n + j] == phase2as@[n + j]@);
                assert(pending[j] == proposals_view(pending_batches@[j]@));
            }
            assert(recovery_phase2as(e, rep, old(self).index, old(self).round, old(self).chosen_watermark, max_slot, old(self).next_slot, pending));
        }
        Some(Elected { round: self.round, phase2as })
    }

    /// A batcher asks who leads: an active leader answers with its round.
    pub fn handle_leader_info_request_batcher(&self, src: u64) -> (reply: Option<u64>)
        ensures
            self.state == LeaderState::Inactive ==> reply is None,
            self.state != LeaderState::Inactive ==> reply == Some(self.round),
    {
        match self.state {
            LeaderState::Inactive => None,
            _ => Some(self.round),
        }
    }

    /// An acceptor refused a later round. An inactive leader adopts it; an
    /// active one moves past it into a round of its own and restarts Phase 1.
    /// A refusal of a round not beyond the current one is ignored.
    pub fn handle_nack(&mut self, nack: Nack) -> (c: Option<LeaderChange>)
        requires
            old(self).wf(),
            nack.round > old(self).round && old(self).state != LeaderState::Inactive ==> {
                &&& next_classic_round_fits(
                    old(self).round_system.n as nat,
                    old(self).index as nat,
                    nack.round as nat,
                )
                &&& next_classic_round_fits(
                    old(self).round_system.n as nat,
                    old(self).index as nat,
                    spec_next_classic_round(
                        old(self).round_system.n as nat,
                        old(self).index as nat,
                        nack.round as nat,
                    ),
                )
            },
        ensures
            final(self).wf(),
            nack.round <= old(self).round ==> c is None && final(self).round == old(self).round
                && final(self).state == old(self).state,
            nack.round > old(self).round && old(self).state == LeaderState::Inactive ==> c is None
                && final(self).round == nack.round && final(self).state == LeaderState::Inactive,
            nack.round > old(self).round && old(self).state != LeaderState::Inactive ==> {
                let n = old(self).round_system.n as nat;
                let r = spec_next_classic_round(
                    n,
                    old(self).index as nat,
                    spec_next_classic_round(n, old(self).index as nat, nack.round as nat),
                );
                &&& final(self).state == LeaderState::Phase1
                &&& final(self).round == r
                &&& final(self).pending_client_request_batches@.len() == 0
                &&& phase1bs_of(final(self).phase1bs).dom() == Set::<u64>::empty()
                &&& c matches Some(ch) && ch.phase1a == Some(
                    Phase1a {
                        src: old(self).index,
                        round: r as u64,
                        chosen_watermark: old(self).chosen_watermark,
                    },
                ) && ch.stop_resend_phase1as == (old(self).state == LeaderState::Phase1)
                    && ch.stop_noop_flush == (old(self).state == LeaderState::Phase2)
            },
    {
        if nack.round <= self.round {
            return None;
        }
        match self.state {
            LeaderState::Inactive => {
                self.round = nack.round;
                None
            },
            _ => {
                // The promises of the old round are dropped with it.
                clear_phase1bs(&mut self.phase1bs);
                self.round = self.round_system.next_classic_round(self.index, nack.round);
                Some(self.leader_change(true))
            },
        }
    }

    /// A replica reports how far it executed.
    pub fn handle_chosen_watermark(&mut self, msg: ChosenWatermark)
        ensures
            final(self).chosen_watermark == (if old(self).chosen_watermark < msg.slot {
                msg.slot
            } else {
                old(self).chosen_watermark
            }),
            final(self).state == old(self).state,
            final(self).round == old(self).round,
            final(self).next_slot == old(self).next_slot,
    {
        if self.chosen_watermark < msg.slot {
            self.chosen_watermark = msg.slot;
        }
    }

    /// A replica misses a slot: an active leader restarts Phase 1 in its next round.
    pub fn handle_recover(&mut self, recover: Recover) -> (c: Option<LeaderChange>)
        requires
            old(self).wf(),
            old(self).state != LeaderState::Inactive ==> old(self).can_start_round(),
        ensures
            final(self).wf(),
            old(self).state == LeaderState::Inactive ==> c is None && final(self).state
                == LeaderState::Inactive && final(self).round == old(self).round,
            old(self).state != LeaderState::Inactive ==> {
                &&& final(self).state == LeaderState::Phase1
                &&& final(self).round == spec_next_classic_round(
                    old(self).round_system.n as nat,
                    old(self).index as nat,
                    old(self).round as nat,
                )
                &&& final(self).pending_client_request_batches@.len() == 0
                &&& phase1bs_of(final(self).phase1bs).dom() == Set::<u64>::empty()
                &&& c matches Some(ch) && ch.phase1a == Some(
                    Phase1a {
                        src: old(self).index,
                        round: spec_next_classic_round(
                            old(self).round_system.n as nat,
                            old(self).index as nat,
                            old(self).round as nat,
                        ) as u64,
                        chosen_watermark: old(self).chosen_watermark,
                    },
                ) && ch.stop_resend_phase1as == (old(self).state == LeaderState::Phase1)
                    && ch.stop_noop_flush == (old(self).state == LeaderState::Phase2)
            },
    {
        match self.state {
            LeaderState::Inactive => None,
            _ => Some(self.leader_change(true)),
        }
    }

    /// The no-op flush timer fired: a no-op is proposed in the next slot.
    pub fn handle_noop_flush(&mut self) -> (p: Phase2a)
        requires
            old(self).next_slot < u64::MAX,
        ensures
            p@ == (Phase2aView {
                src: old(self).index,
                slot: old(self).next_slot,
                round: old(self).round,
                value: CommandView::Noop,
            }),
            final(self).next_slot == old(self).next_slot + 1,
            final(self).state == old(self).state,
            final(self).round == old(self).round,
    {
        let phase2a = Phase2a {
            src: self.index,
            slot: self.next_slot,
            round: self.round,
            command_batch_or_noop: CommandBatchOrNoop::Noop,
        };
        self.next_slot = self.next_slot + 1;
        phase2a
    }
}

} // verus!
