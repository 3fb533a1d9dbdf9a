//! Verified core of an atomic-broadcast benchmark suite: the Multi-Paxos
//! round system, log buffer, message wire formats, protocol state machines,
//! experiment-parameter validation and a linearizability test for histories.
pub mod abcast;
pub mod experiment;
pub mod hashmaps;
pub mod linearization;
pub mod multipaxos;
pub mod naming;
pub mod random;
pub mod runner;
pub mod summary;
pub mod test_utils;
pub mod text;
pub mod util;
pub mod wire;
