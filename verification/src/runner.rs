//! The benchmark runners and the markers of the benchmark suite.
use vstd::prelude::*;

verus! {

/// The atomic-broadcast benchmark.
pub struct AtomicBroadcast;

/// The answer that components were stopped.
pub struct Done;

/// The entry point of the benchmark suite.
pub struct BenchmarkMain;

/// The port between a replica and its communicator.
pub struct CommunicationPort;

/// The port on which the leader election announces the leader.
pub struct LeaderElectionPort;

/// What a Multi-Paxos node is asked locally: to stop its components.
pub enum MultPaxosCompMsg {
    KillComponents,
}

/// The runner that runs benchmarks as actors.
pub struct BenchmarkRunnerActorImpl;

/// The runner that runs benchmarks as components.
pub struct BenchmarkRunnerComponentImpl;

/// The runner that runs benchmarks as both.
pub struct BenchmarkRunnerMixedImpl;

impl BenchmarkRunnerActorImpl {
    pub fn new() -> (r: BenchmarkRunnerActorImpl)
        ensures
            r == BenchmarkRunnerActorImpl,
    {
        BenchmarkRunnerActorImpl
    }

    /// A runner is always ready.
    pub fn ready(&self) -> (status: bool)
        ensures
            status,
    {
        true
    }
}

impl BenchmarkRunnerComponentImpl {
    pub fn new() -> (r: BenchmarkRunnerComponentImpl)
        ensures
            r == BenchmarkRunnerComponentImpl,
    {
        BenchmarkRunnerComponentImpl
    }

    /// A runner is always ready.
    pub fn ready(&self) -> (status: bool)
        ensures
            status,
    {
        true
    }
}

impl BenchmarkRunnerMixedImpl {
    pub fn new() -> (r: BenchmarkRunnerMixedImpl)
        ensures
            r == BenchmarkRunnerMixedImpl,
    {
        BenchmarkRunnerMixedImpl
    }

    /// A runner is always ready.
    pub fn ready(&self) -> (status: bool)
        ensures
            status,
    {
        true
    }
}

} // verus!
