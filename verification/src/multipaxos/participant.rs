//! The Multi-Paxos leader election: the leader pings its peers; a follower
//! that hears no ping in time makes itself leader of the next round; a ping
//! with a larger (round, leader) ballot is followed.
use vstd::prelude::*;
use crate::abcast::messages::Ping;
use crate::hashmaps::PeerStops;
use crate::random::random_in_range;

verus! {

/// Tuning of the leader election, in milliseconds.
pub struct ElectionOptions {
    pub ping_period: u64,
    pub timeout_min: u64,
    pub timeout_max: u64,
}

impl ElectionOptions {
    /// A random timeout in `timeout_min .. timeout_max`.
    pub fn get_random_timeout_period(&self) -> (ms: u64)
        requires
            self.timeout_min < self.timeout_max,
        ensures
            self.timeout_min <= ms < self.timeout_max,
    {
        random_in_range(self.timeout_min, self.timeout_max)
    }
}

#[derive(PartialEq, Eq, Structural, Clone, Copy)]
pub enum ElectionState {
    Leader,
    Follower,
}

/// What a step of the election asks of the timers, the peers and the
/// protocol roles.
pub struct ElectionEffect {
    pub stop_ping_timer: bool,
    pub start_ping_timer: bool,
    pub stop_no_ping_timer: bool,
    pub start_no_ping_timer: bool,
    /// A ping to send to every peer.
    pub ping: Option<Ping>,
    /// The leader to announce to the protocol roles.
    pub elected: Option<u64>,
}

/// Whether ballot `a` is smaller than ballot `b`: rounds first, then leaders.
pub open spec fn ballot_lt(a: (u64, u64), b: (u64, u64)) -> bool {
    a.0 < b.0 || (a.0 == b.0 && a.1 < b.1)
}

/// Ballots compare as pairs, round first: a smaller round makes a smaller
/// ballot whatever the leaders, and the order is strict and total.
pub proof fn lemma_ballot_lt(a: (u64, u64), b: (u64, u64), c: (u64, u64))
    ensures
        a.0 < b.0 ==> ballot_lt(a, b),
        ballot_lt(a, b) ==> a.0 <= b.0,
        !ballot_lt(a, a),
        ballot_lt(a, b) ==> !ballot_lt(b, a),
        a != b ==> ballot_lt(a, b) || ballot_lt(b, a),
        ballot_lt(a, b) && ballot_lt(b, c) ==> ballot_lt(a, c),
{
}

pub open spec fn no_effect(e: ElectionEffect) -> bool {
    &&& !e.stop_ping_timer && !e.start_ping_timer
    &&& !e.stop_no_ping_timer && !e.start_no_ping_timer
    &&& e.ping is None && e.elected is None
}

/// The state of a participant of the election.
pub struct Participant {
    pub index: u64,
    pub round: u64,
    pub leader_index: u64,
    pub state: ElectionState,
    pub election_options: ElectionOptions,
    pub stops: PeerStops,
}

impl Participant {
    /// A participant among `num_peers` others; it starts as leader where it is
    /// the initial leader.
    pub fn with(num_peers: usize, pid: u64, initial_leader_index: u64, election_options: ElectionOptions) -> (p: Participant)
        ensures
            p.index == pid,
            p.round == 0,
            p.leader_index == initial_leader_index,
            p.state == (if pid == initial_leader_index {
                ElectionState::Leader
            } else {
                ElectionState::Follower
            }),
            p.election_options == election_options,
            p.stops.num_peers == num_peers,
            p.stops.wf(),
            !p.stops.stopped,
    {
        let state = if pid == initial_leader_index {
            ElectionState::Leader
        } else {
            ElectionState::Follower
        };
        Participant {
            index: pid,
            round: 0,
            leader_index: initial_leader_index,
            state,
            election_options,
            stops: PeerStops::with(num_peers),
        }
    }

    /// On start, a leader starts pinging and a follower starts waiting for pings.
    pub fn on_start(&self) -> (e: ElectionEffect)
        ensures
            e.start_ping_timer == (self.state == ElectionState::Leader),
            e.start_no_ping_timer == (self.state == ElectionState::Follower),
            !e.stop_ping_timer && !e.stop_no_ping_timer && e.ping is None && e.elected is None,
    {
        ElectionEffect {
            stop_ping_timer: false,
            start_ping_timer: self.state == ElectionState::Leader,
            stop_no_ping_timer: false,
            start_no_ping_timer: self.state == ElectionState::Follower,
            ping: None,
            elected: None,
        }
    }

    /// The ping a leader sends every period.
    pub fn ping(&self) -> (p: Ping)
        ensures
            p == (Ping { round: self.round, leader_index: self.index }),
    {
        Ping { round: self.round, leader_index: self.index }
    }

    /// Moves to `new_state`. Becoming leader stops waiting for pings, starts
    /// pinging, pings at once and announces this node; becoming follower
    /// stops pinging, starts waiting and announces the leader followed.
    pub fn change_state(&mut self, new_state: ElectionState) -> (e: ElectionEffect)
        ensures
            final(self).state == new_state,
            final(self).index == old(self).index,
            final(self).round == old(self).round,
            final(self).leader_index == old(self).leader_index,
            old(self).state == new_state ==> no_effect(e),
            old(self).state == ElectionState::Follower && new_state == ElectionState::Leader ==> e == (
            ElectionEffect {
                stop_ping_timer: false,
                start_ping_timer: true,
                stop_no_ping_timer: true,
                start_no_ping_timer: false,
                ping: Some(Ping { round: old(self).round, leader_index: old(self).leader_index }),
                elected: Some(old(self).leader_index),
            }),
            old(self).state == ElectionState::Leader && new_state == ElectionState::Follower ==> e == (
            ElectionEffect {
                stop_ping_timer: true,
                start_ping_timer: false,
                stop_no_ping_timer: false,
                start_no_ping_timer: true,
                ping: None,
                elected: Some(old(self).leader_index),
            }),
    {
        match (self.state, new_state) {
            (ElectionState::Follower, ElectionState::Leader) => {
                self.state = ElectionState::Leader;
                ElectionEffect {
                    stop_ping_timer: false,
                    start_ping_timer: true,
                    stop_no_ping_timer: true,
                    start_no_ping_timer: false,
                    ping: Some(Ping { round: self.round, leader_index: self.leader_index }),
                    elected: Some(self.leader_index),
                }
            },
            (ElectionState::Leader, ElectionState::Follower) => {
                self.state = ElectionState::Follower;
                ElectionEffect {
                    stop_ping_timer: true,
                    start_ping_timer: false,
                    stop_no_ping_timer: false,
                    start_no_ping_timer: true,
                    ping: None,
                    elected: Some(self.leader_index),
                }
            },
            _ => ElectionEffect {
                stop_ping_timer: false,
                start_ping_timer: false,
                stop_no_ping_timer: false,
                start_no_ping_timer: false,
                ping: None,
                elected: None,
            },
        }
    }

    /// No ping came in time: this node leads the next round.
    pub fn handle_no_ping_timeout(&mut self) -> (e: ElectionEffect)
        requires
            old(self).round < u64::MAX,
        ensures
            final(self).round == old(self).round + 1,
            final(self).leader_index == old(self).index,
            final(self).state == ElectionState::Leader,
            old(self).state == ElectionState::Follower ==> e.elected == Some(old(self).index)
                && e.ping == Some(Ping { round: (old(self).round + 1) as u64, leader_index: old(self).index })
                && e.start_ping_timer && e.stop_no_ping_timer,
            old(self).state == ElectionState::Leader ==> no_effect(e),
    {
        self.round = self.round + 1;
        self.leader_index = self.index;
        self.change_state(ElectionState::Leader)
    }

    /// A ping arrives. A follower ignores a smaller ballot, waits anew on its
    /// own ballot, and follows a larger one; a leader ignores a ballot not
    /// larger than its own and follows a larger one as follower.
    pub fn handle_ping(&mut self, ping: Ping) -> (e: ElectionEffect)
        ensures
            final(self).index == old(self).index,
            ping.round > old(self).round ==> final(self).round == ping.round
                && final(self).leader_index == ping.leader_index && final(self).state
                == ElectionState::Follower,
            ping.round < old(self).round ==> final(self).round == old(self).round
                && final(self).leader_index == old(self).leader_index && final(self).state == old(
                self,
            ).state,
            final(self).round >= old(self).round,
            ({
                let pb = (ping.round, ping.leader_index);
                let b = (old(self).round, old(self).leader_index);
                if old(self).state == ElectionState::Follower {
                    if ballot_lt(pb, b) {
                        no_effect(e) && final(self).round == old(self).round
                            && final(self).leader_index == old(self).leader_index
                            && final(self).state == ElectionState::Follower
                    } else {
                        &&& final(self).round == ping.round
                        &&& final(self).leader_index == ping.leader_index
                        &&& final(self).state == ElectionState::Follower
                        &&& e == (ElectionEffect {
                            stop_ping_timer: false,
                            start_ping_timer: false,
                            stop_no_ping_timer: true,
                            start_no_ping_timer: true,
                            ping: None,
                            elected: None,
                        })
                    }
                } else {
                    if !ballot_lt(b, pb) {
                        no_effect(e) && final(self).round == old(self).round
                            && final(self).leader_index == old(self).leader_index
                            && final(self).state == ElectionState::Leader
                    } else {
                        &&& final(self).round == ping.round
                        &&& final(self).leader_index == ping.leader_index
                        &&& final(self).state == ElectionState::Follower
                        &&& e == (ElectionEffect {
                            stop_ping_timer: true,
                            start_ping_timer: false,
                            stop_no_ping_timer: false,
                            start_no_ping_timer: true,
                            ping: None,
                            elected: Some(ping.leader_index),
                        })
                    }
                }
            }),
    {
        let smaller = ping.round < self.round || (ping.round == self.round && ping.leader_index
            < self.leader_index);
        let equal = ping.round == self.round && ping.leader_index == self.leader_index;
        match self.state {
            ElectionState::Follower => {
                if smaller {
                    self.change_state(ElectionState::Follower)
                } else {
                    self.round = ping.round;
                    self.leader_index = ping.leader_index;
                    ElectionEffect {
                        stop_ping_timer: false,
                        start_ping_timer: false,
                        stop_no_ping_timer: true,
                        start_no_ping_timer: true,
                        ping: None,
                        elected: None,
                    }
                }
            },
            ElectionState::Leader => {
                if smaller || equal {
                    self.change_state(ElectionState::Leader)
                } else {
                    self.round = ping.round;
                    self.leader_index = ping.leader_index;
                    self.change_state(ElectionState::Follower)
                }
            },
        }
    }

    /// This node is asked to stop: both timers stop, every peer is told with
    /// the returned pid, and whether the ask is answered at once.
    pub fn stop(&mut self, pid: u64) -> (out: (u64, bool))
        ensures
            old(self).stops.wf() ==> final(self).stops.wf(),
            out.0 == pid,
            final(self).stops.stopped,
            out.1 == (crate::hashmaps::ids_of(old(self).stops.stopped_peers).len()
                == old(self).stops.num_peers),
            final(self).round == old(self).round,
            final(self).state == old(self).state,
    {
        let reply_now = self.stops.stop_self();
        (pid, reply_now)
    }

    /// A peer tells that it stopped: whether the ask to stop is answered now,
    /// or `None` where the stop is refused (see [`PeerStops::handle_peer_stop`]).
    pub fn handle_peer_stop(&mut self, pid: u64) -> (reply_now: Option<bool>)
        requires
            old(self).stops.wf(),
        ensures
            final(self).stops.wf(),
            final(self).round == old(self).round,
            final(self).state == old(self).state,
            final(self).stops.stopped == old(self).stops.stopped,
            ({
                let st = old(self).stops;
                let completes = st.stopped && crate::hashmaps::ids_of(st.stopped_peers).insert(pid).len()
                    == st.num_peers;
                if crate::hashmaps::ids_of(st.stopped_peers).contains(pid) || (completes
                    && !st.ask_pending) {
                    &&& reply_now is None
                    &&& crate::hashmaps::ids_of(final(self).stops.stopped_peers)
                        == crate::hashmaps::ids_of(st.stopped_peers)
                } else {
                    &&& reply_now == Some(completes)
                    &&& crate::hashmaps::ids_of(final(self).stops.stopped_peers)
                        == crate::hashmaps::ids_of(st.stopped_peers).insert(pid)
                }
            }),
    {
        self.stops.handle_peer_stop(pid)
    }
}

} // verus!
