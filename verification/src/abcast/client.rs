//! The client's proposals and its throughput windows.
use vstd::prelude::*;
use crate::experiment::{NetworkScenario, ReconfigurationPolicy};
use crate::hashmaps::{IdSet, contains_id, id_count, ids_of, insert_id, new_id_set, remove_id, clear_ids};
use crate::wire::{Reader, put_u64, take_u64, u64_bytes};

verus! {

/// The payload of a proposal: its id, eight bytes big-endian, and nothing more.
pub fn create_raw_proposal(id: u64) -> (data: Vec<u8>)
    ensures
        data@ == u64_bytes(id),
{
    let mut data: Vec<u8> = Vec::new();
    put_u64(&mut data, id);
    assert(data@ =~= u64_bytes(id));
    data
}

/// How many proposals were decided by the end of each window, and how many
/// of the first windows were warm-up.
pub struct WindowedResult {
    pub num_warmup_windows: usize,
    pub windows: Vec<usize>,
}

impl WindowedResult {
    pub fn new() -> (w: WindowedResult)
        ensures
            w.num_warmup_windows == 0,
            w.windows@.len() == 0,
    {
        WindowedResult { num_warmup_windows: 0, windows: Vec::new() }
    }

    /// The windows so far were warm-up.
    pub fn set_num_warmup_windows(&mut self)
        ensures
            final(self).num_warmup_windows == old(self).windows@.len(),
            final(self).windows@ == old(self).windows@,
    {
        self.num_warmup_windows = self.windows.len();
    }
}

/// How many proposals each window decided: the differences of the running
/// counts, the first from 0.
pub open spec fn deltas_spec(ws: Seq<usize>) -> Seq<usize> {
    Seq::new(ws.len(), |i: int| if i == 0 { ws[0] } else { (ws[i] - ws[i - 1]) as usize })
}

/// The decided counts per window, from the running counts, which never decrease.
pub fn window_deltas(windows: &Vec<usize>) -> (d: Vec<usize>)
    requires
        forall|i: int| 0 < i < windows@.len() ==> windows@[i - 1] <= #[trigger] windows@[i],
    ensures
        d@ == deltas_spec(windows@),
{
    let mut d: Vec<usize> = Vec::new();
    let mut prev_n: usize = 0;
    let mut i: usize = 0;
    while i < windows.len()
        invariant
            i <= windows@.len(),
            forall|k: int| 0 < k < windows@.len() ==> windows@[k - 1] <= #[trigger] windows@[k],
            prev_n == (if i == 0 { 0 } else { windows@[i - 1] }),
            d@ =~= deltas_spec(windows@).take(i as int),
        decreases windows@.len() - i,
    {
        let n = windows[i];
        d.push(n - prev_n);
        prev_n = n;
        i = i + 1;
    }
    assert(deltas_spec(windows@).take(windows@.len() as int) =~= deltas_spec(windows@));
    d
}

/// The id of the reconfiguration proposal among the pending proposals.
pub const RECONFIG_ID: u64 = 0;

/// Where an experiment is.
#[derive(PartialEq, Eq, Structural, Clone, Copy)]
pub enum ExperimentState {
    Setup,
    WarmUp,
    Running,
    /// Only the reconfiguration is left.
    PendingReconfiguration,
    Finished,
}

/// The id a proposal's payload starts with.
pub fn proposal_id_of(data: &[u8]) -> (id: u64)
    requires
        data@.len() >= 8,
    ensures
        take_u64(data@) matches Some((x, _)) && x == id,
{
    let mut r = Reader::new(data);
    r.get_u64()
}

/// The timeout of a proposal: the short one while a partition is on and
/// the protocol has not recovered from it yet, else the normal one.
pub fn proposal_timeout_ms(partitioned: bool, recovered: bool, short_timeout_ms: u64, timeout_ms: u64) -> (ms: u64)
    ensures
        ms == (if partitioned && !recovered {
            short_timeout_ms
        } else {
            timeout_ms
        }),
{
    if partitioned && !recovered {
        short_timeout_ms
    } else {
        timeout_ms
    }
}

/// The decisions of the benchmark client: which proposals are in flight,
/// which were decided, who leads, and where the experiment is. Timers,
/// clocks and the network stay with the caller.
pub struct Client {
    pub num_concurrent_proposals: u64,
    pub network_scenario: NetworkScenario,
    pub reconfig: Option<(ReconfigurationPolicy, Vec<u64>)>,
    pub latest_proposal_id: u64,
    /// The proposals decided while running.
    pub responses: IdSet,
    /// The proposals in flight, the reconfiguration among them.
    pub pending_proposals: IdSet,
    pub current_leader: u64,
    pub leader_round: u64,
    pub state: ExperimentState,
    pub current_config: Vec<u64>,
    pub num_timed_out: u64,
    pub num_retried: usize,
    pub leader_changes: Vec<(u64, u64)>,
    pub warmup_decided: usize,
    pub windowed_result: WindowedResult,
    /// When the partition was made, in milliseconds.
    pub partition_ts: Option<u64>,
    /// The latest proposal id when the partition took effect.
    pub proposal_id_when_partitioned: Option<u64>,
    /// The time, in milliseconds, from the partition to the first decision
    /// of a proposal made after it.
    pub longest_down_time: Option<u64>,
}

/// What a leader announcement did.
pub struct LeaderOutcome {
    /// The first leader is known: the warm-up starts.
    pub started_warmup: bool,
    /// The ids `from ..= to` to propose.
    pub proposals: Option<(u64, u64)>,
}

/// What an answer to a proposal did.
pub struct RespOutcome {
    /// The proposal was in flight: its timer is cancelled.
    pub was_pending: bool,
    /// The ids `from ..= to` to propose.
    pub proposals: Option<(u64, u64)>,
    /// The down time this answer ended, in milliseconds.
    pub down_time_ms: Option<u64>,
}

/// The milliseconds from `since` to `now`; none where `now` comes first.
pub open spec fn elapsed_ms(now: u64, since: u64) -> u64 {
    if now >= since {
        (now - since) as u64
    } else {
        0
    }
}

/// What an answer to the reconfiguration did.
pub struct ReconfigOutcome {
    /// The reconfiguration was in flight: its timer is cancelled.
    pub was_pending: bool,
    /// The experiment finished with it.
    pub finished: bool,
    /// The ids `from ..= to` to propose.
    pub proposals: Option<(u64, u64)>,
}

/// The ids to propose next: those after `latest` that fill the window of
/// `concurrent` proposals in flight, none where it is full or no leader is known.
pub open spec fn window(latest: u64, concurrent: u64, inflight: nat, leader: u64) -> Option<(u64, u64)> {
    if inflight == concurrent || leader == 0 {
        None
    } else {
        Some(((latest + 1) as u64, (latest + concurrent - inflight) as u64))
    }
}

impl Client {
    /// Every pending or decided proposal was proposed: its id is at most the latest one.
    pub open spec fn wf(&self) -> bool {
        &&& ids_of(self.pending_proposals).finite()
        &&& ids_of(self.responses).finite()
        &&& forall|id: u64| #[trigger]
            ids_of(self.pending_proposals).contains(id) ==> id <= self.latest_proposal_id
        &&& forall|id: u64| #[trigger]
            ids_of(self.responses).contains(id) ==> id <= self.latest_proposal_id
        &&& self.proposal_id_when_partitioned is Some ==> self.partition_ts is Some
            || self.longest_down_time is Some
    }

    /// The down time that a decision of proposal `id`, answered at `now_ms`,
    /// ends: the first decision of a proposal made after the partition took
    /// effect, under a partition scenario.
    pub open spec fn down_time_ended(&self, id: u64, now_ms: u64) -> Option<u64> {
        if self.network_scenario != NetworkScenario::FullyConnected && self.longest_down_time is None
            && self.partition_ts is Some && self.proposal_id_when_partitioned is Some
            && id > self.proposal_id_when_partitioned->Some_0 {
            Some(elapsed_ms(now_ms, self.partition_ts->Some_0))
        } else {
            None
        }
    }

    /// The proposals to send to fill the window of concurrent proposals:
    /// none where it is full or no leader is known.
    pub open spec fn proposals_to_send(&self) -> Option<(u64, u64)> {
        window(
            self.latest_proposal_id,
            self.num_concurrent_proposals,
            ids_of(self.pending_proposals).len(),
            self.current_leader,
        )
    }

    /// Sending is possible: the window is not over full and the ids stay below `u64::MAX`.
    pub open spec fn can_send(&self) -> bool {
        &&& ids_of(self.pending_proposals).len() <= self.num_concurrent_proposals
        &&& self.latest_proposal_id + self.num_concurrent_proposals < u64::MAX
    }

    pub fn with(
        initial_config: Vec<u64>,
        num_concurrent_proposals: u64,
        network_scenario: NetworkScenario,
        reconfig: Option<(ReconfigurationPolicy, Vec<u64>)>,
    ) -> (c: Client)
        ensures
            c.wf(),
            c.state == ExperimentState::Setup,
            c.current_leader == 0,
            c.leader_round == 0,
            c.latest_proposal_id == 0,
            c.num_concurrent_proposals == num_concurrent_proposals,
            c.current_config@ == initial_config@,
            ids_of(c.pending_proposals) == Set::<u64>::empty(),
            ids_of(c.responses) == Set::<u64>::empty(),
            c.num_timed_out == 0,
            c.num_retried == 0,
            c.warmup_decided == 0,
            c.partition_ts is None,
            c.proposal_id_when_partitioned is None,
            c.longest_down_time is None,
            c.network_scenario == network_scenario,
            c.reconfig == reconfig,
            c.leader_changes@.len() == 0,
            c.windowed_result.windows@.len() == 0,
            c.windowed_result.num_warmup_windows == 0,
    {
        Client {
            num_concurrent_proposals,
            network_scenario,
            reconfig,
            latest_proposal_id: 0,
            responses: new_id_set(),
            pending_proposals: new_id_set(),
            current_leader: 0,
            leader_round: 0,
            state: ExperimentState::Setup,
            current_config: initial_config,
            num_timed_out: 0,
            num_retried: 0,
            leader_changes: Vec::new(),
            warmup_decided: 0,
            windowed_result: WindowedResult::new(),
            partition_ts: None,
            proposal_id_when_partitioned: None,
            longest_down_time: None,
        }
    }

    /// A partition is made at `now_ms`.
    pub fn record_partition(&mut self, now_ms: u64)
        requires
            old(self).wf(),
        ensures
            final(self).wf(),
            final(self).partition_ts == Some(now_ms),
            final(self).proposal_id_when_partitioned == old(self).proposal_id_when_partitioned,
            final(self).longest_down_time == old(self).longest_down_time,
            final(self).state == old(self).state,
            final(self).latest_proposal_id == old(self).latest_proposal_id,
            ids_of(final(self).pending_proposals) == ids_of(old(self).pending_proposals),
            ids_of(final(self).responses) == ids_of(old(self).responses),
    {
        self.partition_ts = Some(now_ms);
    }

    /// The partition made takes effect: proposals after the latest one count
    /// towards the down time.
    pub fn record_partitioned_proposal(&mut self)
        requires
            old(self).wf(),
            old(self).partition_ts is Some || old(self).longest_down_time is Some,
        ensures
            final(self).wf(),
            final(self).proposal_id_when_partitioned == Some(old(self).latest_proposal_id),
            final(self).partition_ts == old(self).partition_ts,
            final(self).longest_down_time == old(self).longest_down_time,
            final(self).state == old(self).state,
            final(self).latest_proposal_id == old(self).latest_proposal_id,
            ids_of(final(self).pending_proposals) == ids_of(old(self).pending_proposals),
            ids_of(final(self).responses) == ids_of(old(self).responses),
    {
        self.proposal_id_when_partitioned = Some(self.latest_proposal_id);
    }

    /// The timeout of a proposal: the short one while a partition is on and
    /// the down time is not known yet, else the normal one.
    pub fn get_timeout(&self, short_timeout_ms: u64, timeout_ms: u64) -> (ms: u64)
        ensures
            ms == (if self.partition_ts is Some && self.longest_down_time is None {
                short_timeout_ms
            } else {
                timeout_ms
            }),
    {
        proposal_timeout_ms(self.partition_ts.is_some(), self.longest_down_time.is_some(), short_timeout_ms, timeout_ms)
    }

    /// Fills the window of concurrent proposals: the ids after the latest
    /// one become pending and are returned to be proposed to the leader.
    pub fn send_concurrent_proposals(&mut self) -> (out: Option<(u64, u64)>)
        requires
            old(self).wf(),
            old(self).can_send(),
        ensures
            final(self).wf(),
            out == old(self).proposals_to_send(),
            out is None ==> final(self).latest_proposal_id == old(self).latest_proposal_id
                && ids_of(final(self).pending_proposals) == ids_of(old(self).pending_proposals),
            out matches Some((from, to)) ==> {
                &&& final(self).latest_proposal_id == to
                &&& ids_of(final(self).pending_proposals) == ids_of(old(self).pending_proposals).union(
                    Set::new(|id: u64| from <= id <= to),
                )
                &&& ids_of(final(self).pending_proposals).len() == old(self).num_concurrent_proposals
            },
            final(self).state == old(self).state,
            final(self).current_leader == old(self).current_leader,
            final(self).leader_round == old(self).leader_round,
            final(self).num_concurrent_proposals == old(self).num_concurrent_proposals,
            ids_of(final(self).responses) == ids_of(old(self).responses),
            final(self).current_config@ == old(self).current_config@,
            final(self).warmup_decided == old(self).warmup_decided,
            final(self).num_timed_out == old(self).num_timed_out,
            final(self).num_retried == old(self).num_retried,
            final(self).reconfig == old(self).reconfig,
            final(self).leader_changes@ == old(self).leader_changes@,
            final(self).partition_ts == old(self).partition_ts,
            final(self).proposal_id_when_partitioned == old(self).proposal_id_when_partitioned,
            final(self).longest_down_time == old(self).longest_down_time,
            final(self).network_scenario == old(self).network_scenario,
    {
        let num_inflight = id_count(&self.pending_proposals) as u64;
        if num_inflight == self.num_concurrent_proposals || self.current_leader == 0 {
            return None;
        }
        let available_n = self.num_concurrent_proposals - num_inflight;
        let from = self.latest_proposal_id + 1;
        let to = self.latest_proposal_id + available_n;
        let ghost start = ids_of(self.pending_proposals);
        let mut id = from;
        while id <= to
            invariant
                from <= id <= to + 1,
                to < u64::MAX,
                from == old(self).latest_proposal_id + 1,
                start == ids_of(old(self).pending_proposals),
                start.finite(),
                forall|x: u64| #[trigger] start.contains(x) ==> x < from,
                ids_of(self.pending_proposals) == start.union(Set::new(|x: u64| from <= x < id)),
                ids_of(self.pending_proposals).finite(),
                ids_of(self.pending_proposals).len() == start.len() + (id - from),
                self.latest_proposal_id == old(self).latest_proposal_id,
                self.state == old(self).state,
                self.current_leader == old(self).current_leader,
                self.leader_round == old(self).leader_round,
                self.num_concurrent_proposals == old(self).num_concurrent_proposals,
                ids_of(self.responses) == ids_of(old(self).responses),
                self.current_config@ == old(self).current_config@,
                self.warmup_decided == old(self).warmup_decided,
                self.num_timed_out == old(self).num_timed_out,
                self.num_retried == old(self).num_retried,
                self.reconfig == old(self).reconfig,
                self.leader_changes@ == old(self).leader_changes@,
                self.partition_ts == old(self).partition_ts,
                self.proposal_id_when_partitioned == old(self).proposal_id_when_partitioned,
                self.longest_down_time == old(self).longest_down_time,
                self.network_scenario == old(self).network_scenario,
            decreases to + 1 - id,
        {
            let ghost before = ids_of(self.pending_proposals);
            insert_id(&mut self.pending_proposals, id);
            proof {
                assert(!before.contains(id));
                assert(ids_of(self.pending_proposals) =~= start.union(
                    Set::new(|x: u64| from <= x < id + 1),
                ));
            }
            id = id + 1;
        }
        self.latest_proposal_id = to;
        proof {
            assert(ids_of(self.pending_proposals) =~= start.union(Set::new(|x: u64| from <= x <= to)));
        }
        Some((from, to))
    }

    /// A leader announces itself. The first one starts the warm-up; later,
    /// a later round is adopted and a new leader recorded.
    pub fn handle_leader(&mut self, pid: u64, round: u64) -> (out: LeaderOutcome)
        requires
            old(self).wf(),
            old(self).state == ExperimentState::Setup ==> pid > 0 && old(self).can_send(),
        ensures
            final(self).wf(),
            old(self).state != ExperimentState::Setup ==> final(self).leader_round >= old(self).leader_round,
            old(self).state == ExperimentState::Setup ==> {
                &&& final(self).state == ExperimentState::WarmUp
                &&& final(self).current_leader == pid
                &&& final(self).leader_round == round
                &&& out.started_warmup
            },
            (old(self).state == ExperimentState::Running || old(self).state
                == ExperimentState::WarmUp) && round > old(self).leader_round ==> {
                &&& final(self).leader_round == round
                &&& final(self).current_leader == pid
                &&& final(self).state == old(self).state
                &&& out.proposals is None && !out.started_warmup
                &&& old(self).current_leader != pid ==> final(self).leader_changes@
                    == old(self).leader_changes@.push((pid, round))
                &&& old(self).current_leader == pid ==> final(self).leader_changes@
                    == old(self).leader_changes@
            },
            old(self).state != ExperimentState::Setup && !((old(self).state
                == ExperimentState::Running || old(self).state == ExperimentState::WarmUp) && round
                > old(self).leader_round) ==> {
                &&& final(self).leader_round == old(self).leader_round
                &&& final(self).current_leader == old(self).current_leader
                &&& final(self).state == old(self).state
                &&& out.proposals is None && !out.started_warmup
            },
    {
        if self.state == ExperimentState::Setup {
            self.current_leader = pid;
            self.leader_round = round;
            self.state = ExperimentState::WarmUp;
            let proposals = self.send_concurrent_proposals();
            return LeaderOutcome { started_warmup: true, proposals };
        }
        if (self.state == ExperimentState::Running || self.state == ExperimentState::WarmUp) && round
            > self.leader_round {
            self.leader_round = round;
            if self.current_leader != pid {
                self.current_leader = pid;
                self.leader_changes.push((pid, round));
            }
        }
        LeaderOutcome { started_warmup: false, proposals: None }
    }

    /// A proposal was decided. An answer after the experiment finished, or
    /// to a proposal not in flight, changes nothing. Otherwise a later round
    /// of a leader in the configuration is adopted, the answer is counted
    /// (while running) or counted as warm-up, and the window is refilled.
    pub fn handle_proposal_resp(&mut self, id: u64, latest_leader: u64, leader_round: u64, now_ms: u64) -> (out: RespOutcome)
        requires
            old(self).wf(),
            old(self).state != ExperimentState::Finished && ids_of(old(self).pending_proposals).contains(id) ==> {
                &&& ids_of(old(self).pending_proposals).len() <= old(self).num_concurrent_proposals + 1
                &&& old(self).latest_proposal_id + old(self).num_concurrent_proposals < u64::MAX
                &&& old(self).warmup_decided < usize::MAX
            },
        ensures
            final(self).wf(),
            out.was_pending == (old(self).state != ExperimentState::Finished && ids_of(
                old(self).pending_proposals,
            ).contains(id)),
            out.down_time_ms == (if out.was_pending {
                old(self).down_time_ended(id, now_ms)
            } else {
                None
            }),
            final(self).longest_down_time == (if out.down_time_ms is Some {
                out.down_time_ms
            } else {
                old(self).longest_down_time
            }),
            final(self).partition_ts == old(self).partition_ts,
            final(self).proposal_id_when_partitioned == old(self).proposal_id_when_partitioned,
            (out.was_pending && old(self).current_config@.contains(latest_leader) && old(self).leader_round
                < leader_round && old(self).current_leader != latest_leader) ==> final(self).leader_changes@
                == old(self).leader_changes@.push((latest_leader, leader_round)),
            !(out.was_pending && old(self).current_config@.contains(latest_leader) && old(self).leader_round
                < leader_round && old(self).current_leader != latest_leader) ==> final(self).leader_changes@
                == old(self).leader_changes@,
            final(self).leader_round >= old(self).leader_round,
            !out.was_pending ==> {
                &&& out.proposals is None
                &&& ids_of(final(self).pending_proposals) == ids_of(old(self).pending_proposals)
                &&& ids_of(final(self).responses) == ids_of(old(self).responses)
                &&& final(self).current_leader == old(self).current_leader
                &&& final(self).leader_round == old(self).leader_round
                &&& final(self).warmup_decided == old(self).warmup_decided
            },
            out.was_pending ==> {
                &&& old(self).state == ExperimentState::Running ==> ids_of(final(self).responses)
                    == ids_of(old(self).responses).insert(id)
                &&& old(self).state != ExperimentState::Running ==> ids_of(final(self).responses)
                    == ids_of(old(self).responses)
                &&& old(self).state == ExperimentState::WarmUp ==> final(self).warmup_decided
                    == old(self).warmup_decided + 1
                &&& old(self).state != ExperimentState::WarmUp ==> final(self).warmup_decided
                    == old(self).warmup_decided
                &&& (old(self).current_config@.contains(latest_leader) && old(self).leader_round
                    < leader_round) ==> final(self).leader_round == leader_round
                    && final(self).current_leader == latest_leader
                &&& !(old(self).current_config@.contains(latest_leader) && old(self).leader_round
                    < leader_round) ==> final(self).leader_round == old(self).leader_round
                    && final(self).current_leader == old(self).current_leader
                &&& (old(self).state == ExperimentState::Running || old(self).state
                    == ExperimentState::WarmUp) ==> out.proposals == window(
                    old(self).latest_proposal_id,
                    old(self).num_concurrent_proposals,
                    (ids_of(old(self).pending_proposals).len() - 1) as nat,
                    final(self).current_leader,
                )
                &&& !(old(self).state == ExperimentState::Running || old(self).state
                    == ExperimentState::WarmUp) ==> out.proposals is None
                &&& out.proposals is None ==> ids_of(final(self).pending_proposals) == ids_of(
                    old(self).pending_proposals,
                ).remove(id)
                &&& out.proposals matches Some((from, to)) ==> ids_of(final(self).pending_proposals)
                    == ids_of(old(self).pending_proposals).remove(id).union(
                    Set::new(|x: u64| from <= x <= to),
                )
            },
            final(self).state == old(self).state,
    {
        if self.state == ExperimentState::Finished {
            return RespOutcome { was_pending: false, proposals: None, down_time_ms: None };
        }
        let was_pending = remove_id(&mut self.pending_proposals, id);
        if !was_pending {
            return RespOutcome { was_pending: false, proposals: None, down_time_ms: None };
        }
        let mut down_time_ms: Option<u64> = None;
        if let Some(partitioned_id) = self.proposal_id_when_partitioned {
            if self.longest_down_time.is_none() && self.network_scenario != NetworkScenario::FullyConnected
                && id > partitioned_id {
                if let Some(ts) = self.partition_ts {
                    let down_time = if now_ms >= ts {
                        now_ms - ts
                    } else {
                        0
                    };
                    self.longest_down_time = Some(down_time);
                    down_time_ms = Some(down_time);
                }
            }
        }
        let mut in_config = false;
        let mut i: usize = 0;
        while i < self.current_config.len()
            invariant
                i <= self.current_config@.len(),
                in_config == exists|k: int| 0 <= k < i && self.current_config@[k] == latest_leader,
            decreases self.current_config@.len() - i,
        {
            if self.current_config[i] == latest_leader {
                in_config = true;
            }
            i = i + 1;
        }
        assert(in_config == self.current_config@.contains(latest_leader));
        if in_config && self.leader_round < leader_round {
            self.leader_round = leader_round;
            if self.current_leader != latest_leader {
                self.current_leader = latest_leader;
                self.leader_changes.push((latest_leader, leader_round));
            }
        }
        match self.state {
            ExperimentState::Running => {
                insert_id(&mut self.responses, id);
            },
            ExperimentState::WarmUp => {
                self.warmup_decided = self.warmup_decided + 1;
            },
            _ => {},
        }
        let proposals = match self.state {
            ExperimentState::Running | ExperimentState::WarmUp => self.send_concurrent_proposals(),
            _ => None,
        };
        RespOutcome { was_pending: true, proposals, down_time_ms }
    }

    /// A replica hands back a proposal it could not order: while running, an
    /// undecided one is counted as retried and proposed again (`true`).
    pub fn handle_returned_proposal(&mut self, id: u64) -> (repropose: bool)
        requires
            old(self).num_retried < usize::MAX,
        ensures
            repropose == (!ids_of(old(self).responses).contains(id) && old(self).state
                == ExperimentState::Running),
            final(self).num_retried == old(self).num_retried + (if repropose {
                1int
            } else {
                0int
            }),
            final(self).state == old(self).state,
            ids_of(final(self).pending_proposals) == ids_of(old(self).pending_proposals),
    {
        if !contains_id(&self.responses, id) && self.state == ExperimentState::Running {
            self.num_retried = self.num_retried + 1;
            true
        } else {
            false
        }
    }

    /// A proposal timed out: unless decided, it counts as timed out, and
    /// while running it is proposed again (`true`).
    pub fn proposal_timeout(&mut self, id: u64) -> (repropose: bool)
        requires
            old(self).num_timed_out < u64::MAX,
        ensures
            ids_of(old(self).responses).contains(id) ==> !repropose && final(self).num_timed_out
                == old(self).num_timed_out,
            !ids_of(old(self).responses).contains(id) ==> final(self).num_timed_out
                == old(self).num_timed_out + 1 && repropose == (old(self).state
                == ExperimentState::Running),
            final(self).state == old(self).state,
    {
        if contains_id(&self.responses, id) {
            return false;
        }
        self.num_timed_out = self.num_timed_out + 1;
        self.state == ExperimentState::Running
    }

    /// The experiment starts running: the warm-up windows are counted, the
    /// leader is recorded, and the reconfiguration, if any, is in flight
    /// (`true`: propose it to the leader).
    pub fn run(&mut self) -> (propose_reconfig: bool)
        requires
            old(self).wf(),
            old(self).current_leader != 0,
        ensures
            final(self).wf(),
            final(self).state == ExperimentState::Running,
            final(self).windowed_result.num_warmup_windows == old(self).windowed_result.windows@.len(),
            final(self).leader_changes@ == old(self).leader_changes@.push(
                (old(self).current_leader, old(self).leader_round),
            ),
            propose_reconfig == old(self).reconfig is Some,
            propose_reconfig ==> ids_of(final(self).pending_proposals) == ids_of(
                old(self).pending_proposals,
            ).insert(RECONFIG_ID),
            !propose_reconfig ==> ids_of(final(self).pending_proposals) == ids_of(
                old(self).pending_proposals,
            ),
    {
        self.state = ExperimentState::Running;
        self.windowed_result.set_num_warmup_windows();
        self.leader_changes.push((self.current_leader, self.leader_round));
        if self.reconfig.is_some() {
            insert_id(&mut self.pending_proposals, RECONFIG_ID);
            true
        } else {
            false
        }
    }

    /// The reconfiguration was decided. If it was in flight: where only it
    /// was left, the experiment finishes; while running, the new
    /// configuration is adopted, a later round of a new leader too, and the
    /// window is refilled.
    pub fn handle_reconfig_response(
        &mut self,
        latest_leader: u64,
        leader_round: u64,
        current_configuration: Vec<u64>,
    ) -> (out: ReconfigOutcome)
        requires
            old(self).wf(),
            ids_of(old(self).pending_proposals).contains(RECONFIG_ID) ==> {
                &&& old(self).state == ExperimentState::PendingReconfiguration || old(self).state
                    == ExperimentState::Running
                &&& old(self).state == ExperimentState::Running ==> ids_of(
                    old(self).pending_proposals,
                ).len() <= old(self).num_concurrent_proposals + 1
                    && old(self).latest_proposal_id + old(self).num_concurrent_proposals < u64::MAX
            },
        ensures
            final(self).wf(),
            out.was_pending == ids_of(old(self).pending_proposals).contains(RECONFIG_ID),
            final(self).leader_round >= old(self).leader_round,
            !out.was_pending ==> !out.finished && out.proposals is None && final(self).state
                == old(self).state && final(self).current_config@ == old(self).current_config@,
            out.was_pending && old(self).state == ExperimentState::PendingReconfiguration ==> {
                &&& out.finished
                &&& final(self).state == ExperimentState::Finished
                &&& out.proposals is None
            },
            out.was_pending && old(self).state == ExperimentState::Running ==> {
                &&& !out.finished
                &&& final(self).state == ExperimentState::Running
                &&& final(self).reconfig is None
                &&& final(self).current_config@ == current_configuration@
                &&& (latest_leader > 0 && old(self).current_leader != latest_leader && leader_round
                    > old(self).leader_round) ==> final(self).current_leader == latest_leader
                    && final(self).leader_round == leader_round
                    && final(self).leader_changes@ == old(self).leader_changes@.push(
                    (latest_leader, leader_round),
                )
                &&& !(latest_leader > 0 && old(self).current_leader != latest_leader && leader_round
                    > old(self).leader_round) ==> final(self).current_leader == old(
                    self,
                ).current_leader && final(self).leader_round == old(self).leader_round
                    && final(self).leader_changes@ == old(self).leader_changes@
                &&& out.proposals == window(
                    old(self).latest_proposal_id,
                    old(self).num_concurrent_proposals,
                    (ids_of(old(self).pending_proposals).len() - 1) as nat,
                    final(self).current_leader,
                )
            },
    {
        if !remove_id(&mut self.pending_proposals, RECONFIG_ID) {
            return ReconfigOutcome { was_pending: false, finished: false, proposals: None };
        }
        if self.state == ExperimentState::PendingReconfiguration {
            self.state = ExperimentState::Finished;
            return ReconfigOutcome { was_pending: true, finished: true, proposals: None };
        }
        self.reconfig = None;
        self.current_config = current_configuration;
        if latest_leader > 0 && self.current_leader != latest_leader && leader_round
            > self.leader_round {
            self.current_leader = latest_leader;
            self.leader_round = leader_round;
            self.leader_changes.push((latest_leader, leader_round));
        }
        let proposals = self.send_concurrent_proposals();
        ReconfigOutcome { was_pending: true, finished: false, proposals }
    }

    /// A window ends: the decided count so far is recorded.
    pub fn window_tick(&mut self)
        requires
            old(self).wf(),
            old(self).warmup_decided + ids_of(old(self).responses).len() <= usize::MAX,
        ensures
            final(self).windowed_result.windows@ == old(self).windowed_result.windows@.push(
                (old(self).warmup_decided + ids_of(old(self).responses).len()) as usize,
            ),
            final(self).windowed_result.num_warmup_windows == old(
                self,
            ).windowed_result.num_warmup_windows,
    {
        let n = self.warmup_decided + id_count(&self.responses);
        self.windowed_result.windows.push(n);
    }

    /// The experiment's time is up at `now_ms`: it finishes (`true`), or,
    /// where the reconfiguration is still to come, waits only for it. A
    /// partition the protocol never recovered from counts as down until now.
    pub fn experiment_timeout(&mut self, now_ms: u64) -> (finished: bool)
        requires
            old(self).wf(),
            old(self).reconfig is None && old(self).network_scenario != NetworkScenario::FullyConnected
                && old(self).longest_down_time is None ==> old(self).partition_ts is Some,
        ensures
            final(self).wf(),
            finished == old(self).reconfig is None,
            finished ==> final(self).state == ExperimentState::Finished,
            !finished ==> final(self).state == ExperimentState::PendingReconfiguration,
            finished && old(self).network_scenario != NetworkScenario::FullyConnected
                && old(self).longest_down_time is None ==> {
                &&& final(self).longest_down_time == Some(
                    elapsed_ms(now_ms, old(self).partition_ts->Some_0),
                )
                &&& final(self).partition_ts is None
            },
            !(finished && old(self).network_scenario != NetworkScenario::FullyConnected
                && old(self).longest_down_time is None) ==> {
                &&& final(self).longest_down_time == old(self).longest_down_time
                &&& final(self).partition_ts == old(self).partition_ts
            },
            final(self).proposal_id_when_partitioned == old(self).proposal_id_when_partitioned,
            ids_of(final(self).pending_proposals) == ids_of(old(self).pending_proposals),
            ids_of(final(self).responses) == ids_of(old(self).responses),
    {
        if self.reconfig.is_none() {
            if self.network_scenario != NetworkScenario::FullyConnected && self.longest_down_time.is_none() {
                if let Some(ts) = self.partition_ts {
                    let down_time = if now_ms >= ts {
                        now_ms - ts
                    } else {
                        0
                    };
                    self.longest_down_time = Some(down_time);
                    self.partition_ts = None;
                }
            }
            self.state = ExperimentState::Finished;
            true
        } else {
            self.state = ExperimentState::PendingReconfiguration;
            false
        }
    }

    /// The client stops: nothing is in flight any more.
    pub fn stop(&mut self)
        requires
            old(self).wf(),
        ensures
            final(self).wf(),
            ids_of(final(self).pending_proposals) == Set::<u64>::empty(),
    {
        clear_ids(&mut self.pending_proposals);
    }
}

/// A client proposes each id once: the ids it is about to propose are
/// neither in flight nor decided.
pub proof fn lemma_window_is_fresh(c: Client)
    requires
        c.wf(),
        c.latest_proposal_id < u64::MAX,
    ensures
        c.proposals_to_send() matches Some((from, to)) ==> forall|id: u64|
            from <= id <= to ==> !ids_of(c.pending_proposals).contains(id) && !ids_of(
                c.responses,
            ).contains(id),
{
}

} // verus!
