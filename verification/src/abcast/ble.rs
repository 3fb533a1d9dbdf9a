//! Ballots and the heartbeat and view-change messages of the leader elections.
use vstd::prelude::*;

verus! {

/// A ballot: a view or round number and the process that leads in it.
#[derive(PartialEq, Eq, Structural, Clone, Copy)]
pub struct Ballot {
    pub n: u32,
    pub pid: u64,
}

impl Ballot {
    pub fn with(n: u32, pid: u64) -> (b: Ballot)
        ensures
            b == (Ballot { n, pid }),
    {
        Ballot { n, pid }
    }

    /// The ballot no process leads in.
    pub fn zero() -> (b: Ballot)
        ensures
            b == (Ballot { n: 0, pid: 0 }),
    {
        Ballot { n: 0, pid: 0 }
    }
}

#[derive(PartialEq, Eq, Structural, Clone, Copy)]
pub struct HeartbeatRequest {
    pub round: u32,
}

impl HeartbeatRequest {
    pub fn with(round: u32) -> (r: HeartbeatRequest)
        ensures
            r.round == round,
    {
        HeartbeatRequest { round }
    }
}

#[derive(PartialEq, Eq, Structural, Clone, Copy)]
pub struct HeartbeatReply {
    pub round: u32,
    pub ballot: Ballot,
    pub candidate: bool,
}

impl HeartbeatReply {
    pub fn with(round: u32, ballot: Ballot, candidate: bool) -> (r: HeartbeatReply)
        ensures
            r == (HeartbeatReply { round, ballot, candidate }),
    {
        HeartbeatReply { round, ballot, candidate }
    }
}

#[derive(PartialEq, Eq, Structural, Clone, Copy)]
pub enum HeartbeatMsg {
    Request(HeartbeatRequest),
    Reply(HeartbeatReply),
}

/// The view-change messages: a ballot and the process that sends it.
#[derive(PartialEq, Eq, Structural, Clone, Copy)]
pub enum VRMsg {
    StartViewChange(Ballot, u64),
    DoViewChange(Ballot, u64),
}

} // verus!
