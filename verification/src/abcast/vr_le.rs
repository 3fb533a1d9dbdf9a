//! Leader election by view changes: processes heartbeat the elected leader;
//! when it stops answering they move to the next view, whose candidate is
//! elected once a majority agrees on the view.
use vstd::prelude::*;
use crate::abcast::ble::{Ballot, HeartbeatReply, HeartbeatRequest};
use crate::hashmaps::PeerStops;

verus! {

/// Where a process is in a view change.
#[derive(PartialEq, Eq, Structural, Clone, Copy)]
pub enum ViewChangeStatus {
    /// The ballot's process leads.
    Elected(Ballot),
    /// This process is the ballot's candidate, with that many agreeing.
    Candidate(Ballot, usize),
    /// The view change to the ballot, with that many agreeing.
    ViewChange(Ballot, usize),
}

/// What a step of the election asks of the network, the timer and the protocol.
#[derive(PartialEq, Eq, Structural, Clone, Copy)]
pub enum VrAction {
    /// Send a heartbeat request of this round to process `to`.
    HeartbeatRequest { to: u64, round: u32 },
    /// Schedule a heartbeat timeout for the ballot after `delay` milliseconds.
    StartTimer { delay: u64, ballot: Ballot },
    /// Cancel the heartbeat timeout.
    StopTimer,
    /// Send `StartViewChange(ballot, pid)` to every other process.
    StartViewChange(Ballot),
    /// Send `DoViewChange(ballot, pid)` to process `to`.
    DoViewChange { to: u64, ballot: Ballot },
    /// This process leads with the ballot.
    Elected(Ballot),
}

/// The state of a process of the view-change election.
pub struct VRLeaderElectionComp {
    pub pid: u64,
    pub views: Vec<u64>,
    pub view_number: u32,
    pub hb_round: u32,
    pub leader_is_alive: bool,
    pub viewchange_status: ViewChangeStatus,
    pub latest_ballot_as_leader: Ballot,
    pub hb_delay: u64,
    pub majority: usize,
    pub quick_timeout: bool,
    pub initial_election_factor: u64,
    pub stops: PeerStops,
}

/// The ballot a view-change status is about.
pub open spec fn status_ballot(s: ViewChangeStatus) -> Ballot {
    match s {
        ViewChangeStatus::Elected(b) => b,
        ViewChangeStatus::Candidate(b, _) => b,
        ViewChangeStatus::ViewChange(b, _) => b,
    }
}

/// The ballot of view `v`: its candidate takes turns through the processes.
pub open spec fn view_ballot(views: Seq<u64>, v: u32) -> Ballot {
    Ballot { n: v, pid: views[(v as int) % (views.len() as int)] }
}

impl VRLeaderElectionComp {
    pub open spec fn wf(&self) -> bool {
        &&& self.views@.len() > 0
        &&& status_ballot(self.viewchange_status).n <= self.view_number
    }

    /// The heartbeat period in effect.
    pub open spec fn spec_delay(&self) -> u64 {
        if self.quick_timeout {
            (self.hb_delay / self.initial_election_factor) as u64
        } else {
            self.hb_delay
        }
    }

    /// What a new heartbeat round needs: an elected leader among the
    /// processes, a round number left, and a usable quick-timeout factor.
    pub open spec fn can_heartbeat(&self) -> bool {
        &&& self.viewchange_status is Elected
        &&& self.views@.contains(self.viewchange_status->Elected_0.pid)
        &&& self.hb_round < u32::MAX
        &&& self.quick_timeout ==> self.initial_election_factor > 0
    }

    /// A process among `views`; a majority is more than half of them.
    pub fn with(views: Vec<u64>, pid: u64, hb_delay: u64, quick_timeout: bool, initial_election_factor: u64) -> (c: VRLeaderElectionComp)
        requires
            views@.len() > 0,
        ensures
            c.wf(),
            c.pid == pid,
            c.views@ == views@,
            c.majority == views@.len() / 2 + 1,
            c.view_number == 0,
            c.hb_round == 0,
            !c.leader_is_alive,
            c.viewchange_status == ViewChangeStatus::Elected(Ballot { n: 0, pid: 0 }),
            c.latest_ballot_as_leader == (Ballot { n: 0, pid: 0 }),
            c.hb_delay == hb_delay,
            c.quick_timeout == quick_timeout,
            c.initial_election_factor == initial_election_factor,
            c.stops.num_peers == views@.len() - 1,
            !c.stops.stopped,
    {
        let n = views.len();
        VRLeaderElectionComp {
            pid,
            majority: n / 2 + 1,
            views,
            view_number: 0,
            hb_round: 0,
            leader_is_alive: false,
            viewchange_status: ViewChangeStatus::Elected(Ballot::zero()),
            latest_ballot_as_leader: Ballot::zero(),
            hb_delay,
            quick_timeout,
            initial_election_factor,
            stops: PeerStops::with(n - 1),
        }
    }

    /// Moves to the next view and returns its ballot.
    pub fn get_next_view(&mut self) -> (b: Ballot)
        requires
            old(self).wf(),
            old(self).view_number < u32::MAX,
        ensures
            final(self).view_number == old(self).view_number + 1,
            b == view_ballot(old(self).views@, final(self).view_number),
            final(self).views == old(self).views,
            final(self).viewchange_status == old(self).viewchange_status,
            final(self).hb_round == old(self).hb_round,
            final(self).leader_is_alive == old(self).leader_is_alive,
            final(self).pid == old(self).pid,
            final(self).majority == old(self).majority,
            final(self).quick_timeout == old(self).quick_timeout,
    {
        self.view_number = self.view_number + 1;
        let i = (self.view_number as usize) % self.views.len();
        Ballot::with(self.view_number, self.views[i])
    }

    /// Starts a heartbeat round: asks the elected leader for a heartbeat and
    /// schedules the timeout; the leader counts as dead until it answers.
    pub fn new_hb_round(&mut self) -> (actions: Vec<VrAction>)
        requires
            old(self).can_heartbeat(),
        ensures
            final(self).hb_round == old(self).hb_round + 1,
            !final(self).leader_is_alive,
            final(self).viewchange_status == old(self).viewchange_status,
            final(self).view_number == old(self).view_number,
            final(self).views == old(self).views,
            final(self).pid == old(self).pid,
            final(self).majority == old(self).majority,
            final(self).quick_timeout == old(self).quick_timeout,
            final(self).latest_ballot_as_leader == old(self).latest_ballot_as_leader,
            actions@ == seq![
                VrAction::HeartbeatRequest {
                    to: old(self).viewchange_status->Elected_0.pid,
                    round: (old(self).hb_round + 1) as u32,
                },
                VrAction::StartTimer {
                    delay: old(self).spec_delay(),
                    ballot: old(self).viewchange_status->Elected_0,
                },
            ],
    {
        let delay = if self.quick_timeout {
            self.hb_delay / self.initial_election_factor
        } else {
            self.hb_delay
        };
        self.hb_round = self.hb_round + 1;
        let hb_request = HeartbeatRequest::with(self.hb_round);
        let leader_ballot = match self.viewchange_status {
            ViewChangeStatus::Elected(b) => b,
            _ => Ballot::zero(),
        };
        self.leader_is_alive = false;
        let mut actions: Vec<VrAction> = Vec::new();
        actions.push(VrAction::HeartbeatRequest { to: leader_ballot.pid, round: hb_request.round });
        actions.push(VrAction::StartTimer { delay, ballot: leader_ballot });
        assert(actions@ =~= seq![
            VrAction::HeartbeatRequest { to: leader_ballot.pid, round: hb_request.round },
            VrAction::StartTimer { delay, ballot: leader_ballot },
        ]);
        actions
    }

    /// The heartbeat timeout for ballot `b` fired. Where `b` is still the
    /// elected leader's, a leader that answered gets a new round; one that
    /// did not starts a view change to the next view.
    pub fn hb_timeout(&mut self, b: Ballot) -> (actions: Vec<VrAction>)
        requires
            old(self).wf(),
            old(self).viewchange_status == ViewChangeStatus::Elected(b) ==> {
                &&& old(self).leader_is_alive ==> old(self).can_heartbeat()
                &&& !old(self).leader_is_alive ==> old(self).view_number < u32::MAX
            },
        ensures
            final(self).wf(),
            final(self).pid == old(self).pid,
            final(self).views == old(self).views,
            final(self).majority == old(self).majority,
            status_ballot(final(self).viewchange_status).n >= status_ballot(old(self).viewchange_status).n,
            old(self).viewchange_status != ViewChangeStatus::Elected(b) ==> actions@.len() == 0
                && final(self).viewchange_status == old(self).viewchange_status
                && final(self).view_number == old(self).view_number,
            old(self).viewchange_status == ViewChangeStatus::Elected(b) && old(self).leader_is_alive
                ==> {
                &&& final(self).hb_round == old(self).hb_round + 1
                &&& final(self).viewchange_status == old(self).viewchange_status
                &&& actions@ == seq![
                    VrAction::HeartbeatRequest { to: b.pid, round: (old(self).hb_round + 1) as u32 },
                    VrAction::StartTimer { delay: old(self).spec_delay(), ballot: b },
                ]
            },
            old(self).viewchange_status == ViewChangeStatus::Elected(b) && !old(self).leader_is_alive
                ==> {
                let nb = view_ballot(old(self).views@, (old(self).view_number + 1) as u32);
                &&& final(self).view_number == old(self).view_number + 1
                &&& final(self).viewchange_status == ViewChangeStatus::ViewChange(nb, 1)
                &&& actions@ == seq![VrAction::StartViewChange(nb)]
            },
    {
        match self.viewchange_status {
            ViewChangeStatus::Elected(l) => {
                if l == b {
                    if self.leader_is_alive {
                        self.new_hb_round()
                    } else {
                        let nb = self.get_next_view();
                        self.viewchange_status = ViewChangeStatus::ViewChange(nb, 1);
                        let mut actions: Vec<VrAction> = Vec::new();
                        actions.push(VrAction::StartViewChange(nb));
                        assert(actions@ =~= seq![VrAction::StartViewChange(nb)]);
                        actions
                    }
                } else {
                    Vec::new()
                }
            },
            _ => Vec::new(),
        }
    }

    /// On start, the process acts as if the heartbeat of the empty ballot timed out.
    pub fn on_start(&mut self) -> (actions: Vec<VrAction>)
        requires
            old(self).wf(),
            old(self).viewchange_status == ViewChangeStatus::Elected(Ballot { n: 0, pid: 0 }) ==> {
                &&& old(self).leader_is_alive ==> old(self).can_heartbeat()
                &&& !old(self).leader_is_alive ==> old(self).view_number < u32::MAX
            },
        ensures
            status_ballot(final(self).viewchange_status).n >= status_ballot(old(self).viewchange_status).n,
            final(self).wf(),
            final(self).pid == old(self).pid,
            final(self).views == old(self).views,
            final(self).majority == old(self).majority,
            old(self).viewchange_status != ViewChangeStatus::Elected(Ballot { n: 0, pid: 0 }) ==> actions@.len()
                == 0 && final(self).viewchange_status == old(self).viewchange_status
                && final(self).view_number == old(self).view_number,
            old(self).viewchange_status == ViewChangeStatus::Elected(Ballot { n: 0, pid: 0 })
                && old(self).leader_is_alive ==> {
                &&& final(self).hb_round == old(self).hb_round + 1
                &&& final(self).viewchange_status == old(self).viewchange_status
                &&& actions@ == seq![
                    VrAction::HeartbeatRequest { to: 0, round: (old(self).hb_round + 1) as u32 },
                    VrAction::StartTimer { delay: old(self).spec_delay(), ballot: Ballot { n: 0, pid: 0 } },
                ]
            },
            old(self).viewchange_status == ViewChangeStatus::Elected(Ballot { n: 0, pid: 0 })
                && !old(self).leader_is_alive ==> {
                let nb = view_ballot(old(self).views@, (old(self).view_number + 1) as u32);
                &&& final(self).view_number == old(self).view_number + 1
                &&& final(self).viewchange_status == ViewChangeStatus::ViewChange(nb, 1)
                &&& actions@ == seq![VrAction::StartViewChange(nb)]
            },
    {
        self.hb_timeout(Ballot::zero())
    }

    /// A heartbeat request: answered with the last ballot this process led
    /// with, unless it stopped.
    pub fn handle_heartbeat_request(&self, req: HeartbeatRequest) -> (reply: Option<HeartbeatReply>)
        ensures
            self.stops.stopped ==> reply is None,
            !self.stops.stopped ==> reply == Some(
                HeartbeatReply { round: req.round, ballot: self.latest_ballot_as_leader, candidate: true },
            ),
    {
        if self.stops.stopped {
            None
        } else {
            Some(HeartbeatReply::with(req.round, self.latest_ballot_as_leader, true))
        }
    }

    /// A heartbeat reply: the elected leader is alive if the reply carries its ballot.
    pub fn handle_heartbeat_reply(&mut self, rep: HeartbeatReply)
        ensures
            final(self).leader_is_alive == (old(self).leader_is_alive || (!old(self).stops.stopped
                && old(self).viewchange_status == ViewChangeStatus::Elected(rep.ballot))),
            final(self).viewchange_status == old(self).viewchange_status,
            final(self).hb_round == old(self).hb_round,
            final(self).view_number == old(self).view_number,
    {
        if !self.stops.stopped {
            match self.viewchange_status {
                ViewChangeStatus::Elected(b) => {
                    if b == rep.ballot {
                        self.leader_is_alive = true;
                    }
                },
                _ => {},
            }
        }
    }

    /// A process starts a view change to `b`. A later view is joined (and
    /// announced); agreement on the current view change is counted, and once
    /// a majority agrees, the candidate becomes candidate or the others tell
    /// it and start heartbeating it.
    pub fn handle_start_view_change(&mut self, b: Ballot, from: u64) -> (actions: Vec<VrAction>)
        requires
            old(self).wf(),
            match old(self).viewchange_status {
                ViewChangeStatus::ViewChange(l, counter) => b == l ==> counter < usize::MAX && (
                counter + 1 == old(self).majority && b.pid != old(self).pid ==> old(self).views@.contains(
                    b.pid,
                ) && old(self).hb_round < u32::MAX),
                _ => true,
            },
        ensures
            status_ballot(final(self).viewchange_status).n >= status_ballot(old(self).viewchange_status).n,
            final(self).wf(),
            final(self).pid == old(self).pid,
            final(self).views == old(self).views,
            final(self).majority == old(self).majority,
            ({
                let later = match old(self).viewchange_status {
                    ViewChangeStatus::Elected(l) => b.n > l.n,
                    ViewChangeStatus::Candidate(l, _) => b.n > l.n,
                    ViewChangeStatus::ViewChange(l, _) => b.n > l.n,
                };
                if later {
                    &&& final(self).view_number == b.n
                    &&& final(self).viewchange_status == ViewChangeStatus::ViewChange(b, 1)
                    &&& actions@ == seq![VrAction::StartViewChange(b)]
                } else {
                    match old(self).viewchange_status {
                        ViewChangeStatus::ViewChange(l, counter) => if b == l {
                            if counter + 1 == old(self).majority {
                                if b.pid == old(self).pid {
                                    &&& final(self).viewchange_status == ViewChangeStatus::Candidate(b, 1)
                                    &&& actions@.len() == 0
                                } else {
                                    &&& final(self).viewchange_status == ViewChangeStatus::Elected(b)
                                    &&& !final(self).quick_timeout
                                    &&& final(self).hb_round == old(self).hb_round + 1
                                    &&& !final(self).leader_is_alive
                                    &&& actions@ == seq![
                                        VrAction::DoViewChange { to: b.pid, ballot: b },
                                        VrAction::StopTimer,
                                        VrAction::HeartbeatRequest {
                                            to: b.pid,
                                            round: (old(self).hb_round + 1) as u32,
                                        },
                                        VrAction::StartTimer { delay: old(self).hb_delay, ballot: b },
                                    ]
                                }
                            } else {
                                &&& final(self).viewchange_status == ViewChangeStatus::ViewChange(
                                    b,
                                    (counter + 1) as usize,
                                )
                                &&& actions@.len() == 0
                            }
                        } else {
                            final(self).viewchange_status == old(self).viewchange_status
                                && actions@.len() == 0
                        },
                        _ => final(self).viewchange_status == old(self).viewchange_status
                            && actions@.len() == 0,
                    }
                }
            }),
    {
        let mut actions: Vec<VrAction> = Vec::new();
        let later = match self.viewchange_status {
            ViewChangeStatus::Elected(l) => b.n > l.n,
            ViewChangeStatus::Candidate(l, _) => b.n > l.n,
            ViewChangeStatus::ViewChange(l, _) => b.n > l.n,
        };
        if later {
            self.view_number = b.n;
            self.viewchange_status = ViewChangeStatus::ViewChange(b, 1);
            actions.push(VrAction::StartViewChange(b));
            assert(actions@ =~= seq![VrAction::StartViewChange(b)]);
            return actions;
        }
        match self.viewchange_status {
            ViewChangeStatus::ViewChange(l, counter) => {
                if b == l {
                    let new_counter = counter + 1;
                    if new_counter == self.majority {
                        if b.pid == self.pid {
                            self.viewchange_status = ViewChangeStatus::Candidate(b, 1);
                        } else {
                            actions.push(VrAction::DoViewChange { to: b.pid, ballot: b });
                            self.viewchange_status = ViewChangeStatus::Elected(l);
                            self.quick_timeout = false;
                            actions.push(VrAction::StopTimer);
                            let more = self.new_hb_round();
                            let ghost before = actions@;
                            let mut i: usize = 0;
                            while i < more.len()
                                invariant
                                    i <= more@.len(),
                                    actions@ == before + more@.take(i as int),
                                decreases more@.len() - i,
                            {
                                actions.push(more[i]);
                                i = i + 1;
                                proof {
                                    assert(more@.take(i as int) =~= more@.take(i - 1).push(more@[i - 1]));
                                }
                            }
                            assert(more@.take(more@.len() as int) =~= more@);
                            assert(actions@ =~= seq![
                                VrAction::DoViewChange { to: b.pid, ballot: b },
                                VrAction::StopTimer,
                                VrAction::HeartbeatRequest {
                                    to: b.pid,
                                    round: (old(self).hb_round + 1) as u32,
                                },
                                VrAction::StartTimer { delay: old(self).hb_delay, ballot: b },
                            ]);
                        }
                    } else {
                        self.viewchange_status = ViewChangeStatus::ViewChange(b, new_counter);
                    }
                }
            },
            _ => {},
        }
        actions
    }

    /// A process tells the candidate of `b` it agrees. Once a majority
    /// agrees, the candidate stops its timer and leads with `b`.
    pub fn handle_do_view_change(&mut self, b: Ballot, from: u64) -> (actions: Vec<VrAction>)
        requires
            match old(self).viewchange_status {
                ViewChangeStatus::Candidate(l, counter) => l == b ==> counter < usize::MAX,
                _ => true,
            },
        ensures
            status_ballot(final(self).viewchange_status).n >= status_ballot(old(self).viewchange_status).n,
            old(self).wf() ==> final(self).wf(),
            final(self).pid == old(self).pid,
            final(self).views == old(self).views,
            final(self).majority == old(self).majority,
            ({
                match old(self).viewchange_status {
                    ViewChangeStatus::Candidate(l, counter) => if l == b {
                        if counter + 1 == old(self).majority {
                            &&& final(self).viewchange_status == ViewChangeStatus::Elected(b)
                            &&& final(self).leader_is_alive
                            &&& final(self).latest_ballot_as_leader == b
                            &&& !final(self).quick_timeout
                            &&& actions@ == seq![VrAction::StopTimer, VrAction::Elected(b)]
                        } else {
                            &&& final(self).viewchange_status == ViewChangeStatus::Candidate(
                                b,
                                (counter + 1) as usize,
                            )
                            &&& actions@.len() == 0
                        }
                    } else {
                        final(self).viewchange_status == old(self).viewchange_status && actions@.len()
                            == 0
                    },
                    _ => final(self).viewchange_status == old(self).viewchange_status
                        && actions@.len() == 0,
                }
            }),
    {
        let mut actions: Vec<VrAction> = Vec::new();
        match self.viewchange_status {
            ViewChangeStatus::Candidate(l, counter) => {
                if l == b {
                    let new_counter = counter + 1;
                    if new_counter == self.majority {
                        actions.push(VrAction::StopTimer);
                        actions.push(VrAction::Elected(l));
                        self.viewchange_status = ViewChangeStatus::Elected(l);
                        self.leader_is_alive = true;
                        self.latest_ballot_as_leader = l;
                        self.quick_timeout = false;
                        assert(actions@ =~= seq![VrAction::StopTimer, VrAction::Elected(b)]);
                    } else {
                        self.viewchange_status = ViewChangeStatus::Candidate(l, new_counter);
                    }
                }
            },
            _ => {},
        }
        actions
    }
}

} // verus!
