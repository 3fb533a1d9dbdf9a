//! Messages shared by every atomic-broadcast implementation and the client.
pub mod ble;
pub mod client;
pub mod messages;
pub mod partition;
pub mod paxos_replica;
pub mod paxos_wire;
pub mod reconfig_client;
pub mod serializers;
pub mod transfer;
pub mod vr_le;
