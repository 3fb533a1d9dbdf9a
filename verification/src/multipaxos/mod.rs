//! Multi-Paxos: round system, log buffer, messages and the roles of the protocol.
pub mod acceptor;
pub mod batcher;
pub mod buffer_map;
pub mod leader;
pub mod messages;
pub mod options;
pub mod participant;
pub mod proxy_leader;
pub mod replica;
pub mod round_robin;
pub mod serializers;
