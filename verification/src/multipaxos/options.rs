//! The tuning of the Multi-Paxos roles, derived from the election timeout
//! and the factors of the configuration.
use vstd::prelude::*;
use crate::multipaxos::leader::LeaderOptions;
use crate::multipaxos::participant::ElectionOptions;
use crate::multipaxos::replica::ReplicaOptions;

verus! {

/// The factors and periods that the configuration gives.
pub struct MultiPaxosConfig {
    pub timeout_delta_factor: u64,
    pub resend_phase1as_period: u64,
    pub noop_flush_period: u64,
    pub log_grow_size: usize,
    pub send_chosen_watermark_every_n_entries: u64,
    pub recover_log_entry_factor: u64,
    pub ping_period_factor: u64,
}

/// The configuration can be applied to an election timeout of
/// `election_timeout_ms`: no factor is 0 and no period overflows.
pub open spec fn options_fit(election_timeout_ms: u64, c: MultiPaxosConfig) -> bool {
    &&& c.timeout_delta_factor > 0
    &&& c.ping_period_factor > 0
    &&& election_timeout_ms + election_timeout_ms / c.timeout_delta_factor <= u64::MAX
    &&& 2 * (election_timeout_ms * c.recover_log_entry_factor) <= u64::MAX
}

/// The options of the roles: the election times out within a delta of
/// `election_timeout_ms / timeout_delta_factor` around the election
/// timeout and pings `ping_period_factor` times per timeout; a replica asks
/// for missing entries after between `recover_log_entry_factor` and twice
/// as many election timeouts.
pub fn create_options(election_timeout_ms: u64, c: &MultiPaxosConfig) -> (opts: (ElectionOptions, LeaderOptions, ReplicaOptions))
    requires
        options_fit(election_timeout_ms, *c),
    ensures
        ({
            let delta = election_timeout_ms / c.timeout_delta_factor;
            let recover_min = election_timeout_ms * c.recover_log_entry_factor;
            &&& opts.0.ping_period == election_timeout_ms / c.ping_period_factor
            &&& opts.0.timeout_min == election_timeout_ms - delta
            &&& opts.0.timeout_max == election_timeout_ms + delta
            &&& opts.1.resend_phase1as_period == c.resend_phase1as_period
            &&& opts.1.noop_flush_period == c.noop_flush_period
            &&& opts.2.log_grow_size == c.log_grow_size
            &&& opts.2.send_chosen_watermark_every_n_entries == c.send_chosen_watermark_every_n_entries
            &&& opts.2.recover_log_entry_min_period == recover_min
            &&& opts.2.recover_log_entry_max_period == 2 * recover_min
        }),
{
    let timeout_delta = election_timeout_ms / c.timeout_delta_factor;
    let recover_log_entry_min_period = election_timeout_ms * c.recover_log_entry_factor;
    let recover_log_entry_max_period = recover_log_entry_min_period * 2;
    let ping_period_ms = election_timeout_ms / c.ping_period_factor;
    let election_opts = ElectionOptions {
        ping_period: ping_period_ms,
        timeout_min: election_timeout_ms - timeout_delta,
        timeout_max: election_timeout_ms + timeout_delta,
    };
    let leader_opts = LeaderOptions {
        resend_phase1as_period: c.resend_phase1as_period,
        noop_flush_period: c.noop_flush_period,
    };
    let replica_opts = ReplicaOptions {
        log_grow_size: c.log_grow_size,
        send_chosen_watermark_every_n_entries: c.send_chosen_watermark_every_n_entries,
        recover_log_entry_min_period,
        recover_log_entry_max_period,
    };
    (election_opts, leader_opts, replica_opts)
}

} // verus!
