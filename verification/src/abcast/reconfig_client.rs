//! The client of the reconfiguration experiments: it proposes a fixed
//! number of proposals after those preloaded in the log, proposes the
//! reconfiguration once half of them are decided, and finishes when all
//! are decided and the reconfiguration too.
use vstd::prelude::*;
use crate::abcast::client::{ExperimentState, RECONFIG_ID};
use crate::abcast::transfer::has_pid;
use crate::experiment::ReconfigurationPolicy;
use crate::hashmaps::{IdSet, clear_ids, contains_id, id_count, ids_of, insert_id, new_id_set, remove_id};

verus! {

/// The ids to propose next: those after `latest` that fill the window of
/// `concurrent` proposals in flight, up to `max`; none where the window is
/// full, no leader is known, or every id was proposed.
pub open spec fn bounded_window(latest: u64, concurrent: u64, inflight: nat, leader: u64, max: u64) -> Option<(u64, u64)> {
    let upto = latest + concurrent - inflight;
    let to = if upto > max {
        max as int
    } else {
        upto
    };
    if inflight == concurrent || leader == 0 || latest + 1 > to {
        None
    } else {
        Some(((latest + 1) as u64, to as u64))
    }
}

/// The decisions of the reconfiguration client. Timers, clocks and the
/// network stay with the caller.
pub struct ReconfigurationClient {
    pub num_proposals: u64,
    pub num_concurrent_proposals: u64,
    pub reconfig: Option<(ReconfigurationPolicy, Vec<u64>)>,
    pub latest_proposal_id: u64,
    pub max_proposal_id: u64,
    pub responses: IdSet,
    /// The proposals in flight, the reconfiguration among them.
    pub pending_proposals: IdSet,
    pub current_leader: u64,
    pub leader_round: u64,
    pub state: ExperimentState,
    pub current_config: Vec<u64>,
    pub num_timed_out: u64,
    pub num_retried: usize,
    pub leader_changes: Vec<(u64, u64)>,
    pub windows: Vec<usize>,
    pub num_preloaded_proposals: u64,
    pub rem_preloaded_proposals: u64,
}

/// What an answer to a proposal did.
pub struct ReconfigRespOutcome {
    /// The proposal was in flight: its timer is cancelled.
    pub was_pending: bool,
    /// Every proposal is decided and no reconfiguration is left: the
    /// experiment finished.
    pub finished: bool,
    /// Half of the proposals are decided: the reconfiguration is proposed.
    pub propose_reconfig: bool,
    /// The last preloaded proposal was answered: the leader is known.
    pub preloaded_done: bool,
    /// The ids `from ..= to` to propose.
    pub proposals: Option<(u64, u64)>,
}

impl ReconfigurationClient {
    /// The sets are finite and every pending or decided proposal was proposed.
    pub open spec fn wf(&self) -> bool {
        &&& ids_of(self.pending_proposals).finite()
        &&& ids_of(self.responses).finite()
        &&& forall|id: u64| #[trigger]
            ids_of(self.pending_proposals).contains(id) ==> id <= self.latest_proposal_id
        &&& forall|id: u64| #[trigger]
            ids_of(self.responses).contains(id) ==> id <= self.latest_proposal_id
    }

    /// The proposals to send to fill the window.
    pub open spec fn proposals_to_send(&self) -> Option<(u64, u64)> {
        bounded_window(
            self.latest_proposal_id,
            self.num_concurrent_proposals,
            ids_of(self.pending_proposals).len(),
            self.current_leader,
            self.max_proposal_id,
        )
    }

    /// Sending is possible: the window is not over full and the ids stay below `u64::MAX`.
    pub open spec fn can_send(&self) -> bool {
        &&& ids_of(self.pending_proposals).len() <= self.num_concurrent_proposals
        &&& self.latest_proposal_id + self.num_concurrent_proposals < u64::MAX
    }

    /// A client for `num_proposals` proposals after the `preloaded_log_size`
    /// preloaded ones.
    pub fn with(
        initial_config: Vec<u64>,
        num_proposals: u64,
        num_concurrent_proposals: u64,
        reconfig: Option<(ReconfigurationPolicy, Vec<u64>)>,
        preloaded_log_size: u64,
    ) -> (c: ReconfigurationClient)
        requires
            num_proposals + preloaded_log_size <= u64::MAX,
        ensures
            c.wf(),
            c.state == ExperimentState::Setup,
            c.latest_proposal_id == preloaded_log_size,
            c.max_proposal_id == num_proposals + preloaded_log_size,
            c.num_proposals == num_proposals,
            c.num_concurrent_proposals == num_concurrent_proposals,
            c.num_preloaded_proposals == preloaded_log_size,
            c.rem_preloaded_proposals == preloaded_log_size,
            c.current_leader == 0,
            c.leader_round == 0,
            c.current_config@ == initial_config@,
            c.reconfig == reconfig,
            ids_of(c.pending_proposals) == Set::<u64>::empty(),
            ids_of(c.responses) == Set::<u64>::empty(),
            c.num_timed_out == 0,
            c.num_retried == 0,
            c.leader_changes@.len() == 0,
            c.windows@.len() == 0,
    {
        ReconfigurationClient {
            num_proposals,
            num_concurrent_proposals,
            reconfig,
            latest_proposal_id: preloaded_log_size,
            max_proposal_id: num_proposals + preloaded_log_size,
            responses: new_id_set(),
            pending_proposals: new_id_set(),
            current_leader: 0,
            leader_round: 0,
            state: ExperimentState::Setup,
            current_config: initial_config,
            num_timed_out: 0,
            num_retried: 0,
            leader_changes: Vec::new(),
            windows: Vec::new(),
            num_preloaded_proposals: preloaded_log_size,
            rem_preloaded_proposals: preloaded_log_size,
        }
    }

    /// Fills the window of concurrent proposals, up to the last id.
    pub fn send_concurrent_proposals(&mut self) -> (out: Option<(u64, u64)>)
        requires
            old(self).wf(),
            old(self).can_send(),
        ensures
            final(self).wf(),
            out == old(self).proposals_to_send(),
            out is None ==> final(self).latest_proposal_id == old(self).latest_proposal_id
                && ids_of(final(self).pending_proposals) == ids_of(old(self).pending_proposals),
            out matches Some((from, to)) ==> {
                &&& final(self).latest_proposal_id == to
                &&& ids_of(final(self).pending_proposals) == ids_of(old(self).pending_proposals).union(
                    Set::new(|id: u64| from <= id <= to),
                )
            },
            final(self).state == old(self).state,
            final(self).current_leader == old(self).current_leader,
            final(self).leader_round == old(self).leader_round,
            final(self).num_concurrent_proposals == old(self).num_concurrent_proposals,
            final(self).num_proposals == old(self).num_proposals,
            final(self).max_proposal_id == old(self).max_proposal_id,
            ids_of(final(self).responses) == ids_of(old(self).responses),
            final(self).current_config@ == old(self).current_config@,
            final(self).reconfig == old(self).reconfig,
            final(self).leader_changes@ == old(self).leader_changes@,
            final(self).num_timed_out == old(self).num_timed_out,
            final(self).num_retried == old(self).num_retried,
            final(self).rem_preloaded_proposals == old(self).rem_preloaded_proposals,
    {
        let num_inflight = id_count(&self.pending_proposals) as u64;
        if num_inflight == self.num_concurrent_proposals || self.current_leader == 0 {
            return None;
        }
        let available_n = self.num_concurrent_proposals - num_inflight;
        let from = self.latest_proposal_id + 1;
        let upto = self.latest_proposal_id + available_n;
        let to = if upto > self.max_proposal_id {
            self.max_proposal_id
        } else {
            upto
        };
        if from > to {
            return None;
        }
        let ghost start = ids_of(self.pending_proposals);
        let mut id = from;
        while id <= to
            invariant
                from <= id <= to + 1,
                to < u64::MAX,
                from == old(self).latest_proposal_id + 1,
                start == ids_of(old(self).pending_proposals),
                start.finite(),
                forall|x: u64| #[trigger] start.contains(x) ==> x < from,
                ids_of(self.pending_proposals) == start.union(Set::new(|x: u64| from <= x < id)),
                ids_of(self.pending_proposals).finite(),
                self.latest_proposal_id == old(self).latest_proposal_id,
                self.state == old(self).state,
                self.current_leader == old(self).current_leader,
                self.leader_round == old(self).leader_round,
                self.num_concurrent_proposals == old(self).num_concurrent_proposals,
                self.num_proposals == old(self).num_proposals,
                self.max_proposal_id == old(self).max_proposal_id,
                ids_of(self.responses) == ids_of(old(self).responses),
                self.current_config@ == old(self).current_config@,
                self.reconfig == old(self).reconfig,
                self.leader_changes@ == old(self).leader_changes@,
                self.num_timed_out == old(self).num_timed_out,
                self.num_retried == old(self).num_retried,
                self.rem_preloaded_proposals == old(self).rem_preloaded_proposals,
            decreases to + 1 - id,
        {
            insert_id(&mut self.pending_proposals, id);
            proof {
                assert(ids_of(self.pending_proposals) =~= start.union(
                    Set::new(|x: u64| from <= x < id + 1),
                ));
            }
            id = id + 1;
        }
        self.latest_proposal_id = to;
        proof {
            assert(ids_of(self.pending_proposals) =~= start.union(Set::new(|x: u64| from <= x <= to)));
        }
        Some((from, to))
    }

    /// A leader announces itself: before the run it is only recorded; while
    /// running, a later round is adopted and a new leader recorded.
    pub fn handle_leader(&mut self, pid: u64, round: u64)
        requires
            old(self).state == ExperimentState::Setup ==> pid > 0,
        ensures
            old(self).state != ExperimentState::Setup ==> final(self).leader_round >= old(self).leader_round,
            old(self).state == ExperimentState::Setup ==> final(self).current_leader == pid
                && final(self).leader_round == round && final(self).leader_changes@ == old(self).leader_changes@,
            old(self).state == ExperimentState::Running && round > old(self).leader_round ==> {
                &&& final(self).leader_round == round
                &&& final(self).current_leader == pid
                &&& old(self).current_leader != pid ==> final(self).leader_changes@
                    == old(self).leader_changes@.push((pid, round))
                &&& old(self).current_leader == pid ==> final(self).leader_changes@
                    == old(self).leader_changes@
            },
            !(old(self).state == ExperimentState::Setup) && !(old(self).state
                == ExperimentState::Running && round > old(self).leader_round) ==> final(self).current_leader == old(self).current_leader && final(self).leader_round == old(self).leader_round && final(self).leader_changes@ == old(self).leader_changes@,
            final(self).state == old(self).state,
            ids_of(final(self).pending_proposals) == ids_of(old(self).pending_proposals),
            ids_of(final(self).responses) == ids_of(old(self).responses),
            final(self).latest_proposal_id == old(self).latest_proposal_id,
    {
        if self.state == ExperimentState::Setup {
            self.current_leader = pid;
            self.leader_round = round;
        } else if self.state == ExperimentState::Running && round > self.leader_round {
            self.leader_round = round;
            if self.current_leader != pid {
                self.current_leader = pid;
                self.leader_changes.push((pid, round));
            }
        }
    }

    /// The run starts: the window is filled.
    pub fn run(&mut self) -> (out: Option<(u64, u64)>)
        requires
            old(self).wf(),
            old(self).can_send(),
            old(self).current_leader != 0,
        ensures
            final(self).wf(),
            final(self).state == ExperimentState::Running,
            out == old(self).proposals_to_send(),
    {
        self.state = ExperimentState::Running;
        self.send_concurrent_proposals()
    }

    /// A decided proposal is counted. When all are decided the experiment
    /// finishes, unless the reconfiguration is still to come; when half
    /// are, the reconfiguration, if any, is put in flight.
    fn handle_normal_response(&mut self, id: u64) -> (out: (bool, bool))
        requires
            old(self).wf(),
            id <= old(self).latest_proposal_id,
        ensures
            final(self).wf(),
            ids_of(final(self).responses) == ids_of(old(self).responses).insert(id),
            ({
                let count = ids_of(final(self).responses).len();
                &&& out.0 == (count == old(self).num_proposals && old(self).reconfig is None)
                &&& out.1 == (count != old(self).num_proposals && count == old(self).num_proposals
                    / 2 && old(self).reconfig is Some)
            }),
            out.0 ==> final(self).state == ExperimentState::Finished,
            !out.0 ==> final(self).state == old(self).state,
            out.1 ==> ids_of(final(self).pending_proposals) == ids_of(old(self).pending_proposals).insert(
                RECONFIG_ID,
            ),
            !out.1 ==> ids_of(final(self).pending_proposals) == ids_of(old(self).pending_proposals),
            final(self).latest_proposal_id == old(self).latest_proposal_id,
            final(self).current_leader == old(self).current_leader,
            final(self).leader_round == old(self).leader_round,
            final(self).num_concurrent_proposals == old(self).num_concurrent_proposals,
            final(self).num_proposals == old(self).num_proposals,
            final(self).max_proposal_id == old(self).max_proposal_id,
            final(self).leader_changes@ == old(self).leader_changes@,
            final(self).rem_preloaded_proposals == old(self).rem_preloaded_proposals,
    {
        insert_id(&mut self.responses, id);
        let received_count = id_count(&self.responses) as u64;
        if received_count == self.num_proposals {
            if self.reconfig.is_none() {
                self.state = ExperimentState::Finished;
                return (true, false);
            }
            (false, false)
        } else if received_count == self.num_proposals / 2 && self.reconfig.is_some() {
            insert_id(&mut self.pending_proposals, RECONFIG_ID);
            (false, true)
        } else {
            (false, false)
        }
    }

    /// A proposal was decided. After the experiment finished nothing
    /// changes. An answer to a proposal in flight adopts a later round of a
    /// leader of the configuration, is counted, and the window is refilled.
    /// Before the run, answers to preloaded proposals tell the leader, and
    /// the last of them ends the setup.
    pub fn handle_proposal_resp(&mut self, id: u64, latest_leader: u64, leader_round: u64) -> (out: ReconfigRespOutcome)
        requires
            old(self).wf(),
            old(self).state != ExperimentState::Finished && ids_of(old(self).pending_proposals).contains(id) ==> {
                &&& ids_of(old(self).pending_proposals).len() <= old(self).num_concurrent_proposals
                &&& old(self).latest_proposal_id + old(self).num_concurrent_proposals < u64::MAX
            },
            old(self).state == ExperimentState::Setup && !ids_of(old(self).pending_proposals).contains(id)
                && id <= old(self).num_preloaded_proposals ==> old(self).rem_preloaded_proposals > 0,
        ensures
            final(self).wf(),
            out.was_pending == (old(self).state != ExperimentState::Finished && ids_of(
                old(self).pending_proposals,
            ).contains(id)),
            old(self).state == ExperimentState::Finished ==> !out.finished && !out.propose_reconfig
                && !out.preloaded_done && out.proposals is None,
            old(self).state != ExperimentState::Setup ==> final(self).leader_round >= old(self).leader_round,
            (out.was_pending && old(self).current_config@.contains(latest_leader) && old(self).leader_round
                < leader_round && old(self).current_leader != latest_leader) ==> final(self).leader_changes@
                == old(self).leader_changes@.push((latest_leader, leader_round)),
            !(out.was_pending && old(self).current_config@.contains(latest_leader) && old(self).leader_round
                < leader_round && old(self).current_leader != latest_leader) ==> final(self).leader_changes@
                == old(self).leader_changes@,
            (old(self).state != ExperimentState::Finished && !out.was_pending) ==> {
                &&& !out.finished && !out.propose_reconfig && out.proposals is None
                &&& ids_of(final(self).responses) == ids_of(old(self).responses)
                &&& ids_of(final(self).pending_proposals) == ids_of(old(self).pending_proposals)
                &&& (old(self).state == ExperimentState::Setup && id <= old(self).num_preloaded_proposals) ==> {
                    &&& final(self).current_leader == latest_leader
                    &&& final(self).leader_round == leader_round
                    &&& final(self).rem_preloaded_proposals == old(self).rem_preloaded_proposals - 1
                    &&& out.preloaded_done == (final(self).rem_preloaded_proposals == 0)
                }
                &&& !(old(self).state == ExperimentState::Setup && id <= old(self).num_preloaded_proposals) ==> {
                    &&& final(self).current_leader == old(self).current_leader
                    &&& final(self).leader_round == old(self).leader_round
                    &&& !out.preloaded_done
                }
            },
            out.was_pending ==> {
                &&& !out.preloaded_done
                &&& ids_of(final(self).responses) == ids_of(old(self).responses).insert(id)
                &&& (old(self).current_config@.contains(latest_leader) && old(self).leader_round
                    < leader_round) ==> final(self).leader_round == leader_round
                    && final(self).current_leader == latest_leader
                &&& !(old(self).current_config@.contains(latest_leader) && old(self).leader_round
                    < leader_round) ==> final(self).leader_round == old(self).leader_round
                    && final(self).current_leader == old(self).current_leader
                &&& out.finished == (ids_of(old(self).responses).insert(id).len()
                    == old(self).num_proposals && old(self).reconfig is None)
                &&& out.propose_reconfig == (ids_of(old(self).responses).insert(id).len()
                    != old(self).num_proposals && ids_of(old(self).responses).insert(id).len()
                    == old(self).num_proposals / 2 && old(self).reconfig is Some)
                &&& out.proposals == bounded_window(
                    old(self).latest_proposal_id,
                    old(self).num_concurrent_proposals,
                    (if out.propose_reconfig {
                        ids_of(old(self).pending_proposals).remove(id).insert(RECONFIG_ID)
                    } else {
                        ids_of(old(self).pending_proposals).remove(id)
                    }).len(),
                    final(self).current_leader,
                    old(self).max_proposal_id,
                )
            },
    {
        if self.state == ExperimentState::Finished {
            return ReconfigRespOutcome {
                was_pending: false,
                finished: false,
                propose_reconfig: false,
                preloaded_done: false,
                proposals: None,
            };
        }
        if remove_id(&mut self.pending_proposals, id) {
            if has_pid(&self.current_config, latest_leader) && self.leader_round < leader_round {
                self.leader_round = leader_round;
                if self.current_leader != latest_leader {
                    self.current_leader = latest_leader;
                    self.leader_changes.push((latest_leader, leader_round));
                }
            }
            let (finished, propose_reconfig) = self.handle_normal_response(id);
            let proposals = self.send_concurrent_proposals();
            ReconfigRespOutcome { was_pending: true, finished, propose_reconfig, preloaded_done: false, proposals }
        } else {
            let mut preloaded_done = false;
            if id <= self.num_preloaded_proposals && self.state == ExperimentState::Setup {
                self.current_leader = latest_leader;
                self.leader_round = leader_round;
                self.rem_preloaded_proposals = self.rem_preloaded_proposals - 1;
                preloaded_done = self.rem_preloaded_proposals == 0;
            }
            ReconfigRespOutcome {
                was_pending: false,
                finished: false,
                propose_reconfig: false,
                preloaded_done,
                proposals: None,
            }
        }
    }

    /// The reconfiguration was decided. If it was in flight: where every
    /// proposal is decided the experiment finishes; else the new
    /// configuration is adopted, a later round of a new leader too, and the
    /// window is refilled.
    pub fn handle_reconfig_response(
        &mut self,
        latest_leader: u64,
        leader_round: u64,
        current_configuration: Vec<u64>,
    ) -> (out: (bool, bool, Option<(u64, u64)>))
        requires
            old(self).wf(),
            ids_of(old(self).pending_proposals).contains(RECONFIG_ID) ==> {
                &&& ids_of(old(self).pending_proposals).len() <= old(self).num_concurrent_proposals + 1
                &&& old(self).latest_proposal_id + old(self).num_concurrent_proposals < u64::MAX
            },
        ensures
            final(self).wf(),
            out.0 == ids_of(old(self).pending_proposals).contains(RECONFIG_ID),
            final(self).leader_round >= old(self).leader_round,
            !out.0 ==> !out.1 && out.2 is None && final(self).state == old(self).state
                && final(self).current_config@ == old(self).current_config@,
            out.0 ==> out.1 == (ids_of(old(self).responses).len() == old(self).num_proposals),
            out.0 && out.1 ==> final(self).state == ExperimentState::Finished && out.2 is None,
            out.0 && !out.1 ==> {
                &&& final(self).state == old(self).state
                &&& final(self).reconfig is None
                &&& final(self).current_config@ == current_configuration@
                &&& (latest_leader > 0 && old(self).current_leader != latest_leader && leader_round
                    > old(self).leader_round) ==> final(self).current_leader == latest_leader
                    && final(self).leader_round == leader_round
                    && final(self).leader_changes@ == old(self).leader_changes@.push(
                    (latest_leader, leader_round),
                )
                &&& !(latest_leader > 0 && old(self).current_leader != latest_leader && leader_round
                    > old(self).leader_round) ==> final(self).current_leader == old(self).current_leader && final(self).leader_round == old(self).leader_round
                &&& out.2 == bounded_window(
                    old(self).latest_proposal_id,
                    old(self).num_concurrent_proposals,
                    (ids_of(old(self).pending_proposals).len() - 1) as nat,
                    final(self).current_leader,
                    old(self).max_proposal_id,
                )
            },
    {
        if !remove_id(&mut self.pending_proposals, RECONFIG_ID) {
            return (false, false, None);
        }
        if id_count(&self.responses) as u64 == self.num_proposals {
            self.state = ExperimentState::Finished;
            return (true, true, None);
        }
        self.reconfig = None;
        self.current_config = current_configuration;
        if latest_leader > 0 && self.current_leader != latest_leader && leader_round
            > self.leader_round {
            self.current_leader = latest_leader;
            self.leader_round = leader_round;
            self.leader_changes.push((latest_leader, leader_round));
        }
        let proposals = self.send_concurrent_proposals();
        (true, false, proposals)
    }

    /// A proposal timed out: unless decided, it counts as timed out and is
    /// proposed again (`true`).
    pub fn proposal_timeout(&mut self, id: u64) -> (repropose: bool)
        requires
            old(self).num_timed_out < u64::MAX,
        ensures
            repropose == !ids_of(old(self).responses).contains(id),
            final(self).num_timed_out == old(self).num_timed_out + (if repropose {
                1int
            } else {
                0int
            }),
            final(self).state == old(self).state,
            ids_of(final(self).pending_proposals) == ids_of(old(self).pending_proposals),
    {
        if contains_id(&self.responses, id) {
            return false;
        }
        self.num_timed_out = self.num_timed_out + 1;
        true
    }

    /// A node hands back a proposal it could not order: an undecided one is
    /// counted as retried and proposed again (`true`).
    pub fn handle_returned_proposal(&mut self, id: u64) -> (repropose: bool)
        requires
            old(self).num_retried < usize::MAX,
        ensures
            repropose == !ids_of(old(self).responses).contains(id),
            final(self).num_retried == old(self).num_retried + (if repropose {
                1int
            } else {
                0int
            }),
            ids_of(final(self).pending_proposals) == ids_of(old(self).pending_proposals),
    {
        if !contains_id(&self.responses, id) {
            self.num_retried = self.num_retried + 1;
            true
        } else {
            false
        }
    }

    /// A window ends: the decided count so far is recorded.
    pub fn window_tick(&mut self)
        ensures
            final(self).windows@ == old(self).windows@.push(ids_of(old(self).responses).len() as usize),
    {
        let n = id_count(&self.responses);
        self.windows.push(n);
    }

    /// The client stops: nothing is in flight any more.
    pub fn stop(&mut self)
        requires
            old(self).wf(),
        ensures
            final(self).wf(),
            ids_of(final(self).pending_proposals) == Set::<u64>::empty(),
    {
        clear_ids(&mut self.pending_proposals);
    }
}

/// The reconfiguration client proposes each id once: the ids it is about to
/// propose are neither in flight nor decided, and none is past the last one.
pub proof fn lemma_bounded_window_is_fresh(c: ReconfigurationClient)
    requires
        c.wf(),
    ensures
        c.proposals_to_send() matches Some((from, to)) ==> to <= c.max_proposal_id && forall|id: u64|
            from <= id <= to ==> !ids_of(c.pending_proposals).contains(id) && !ids_of(
                c.responses,
            ).contains(id),
{
}

} // verus!
