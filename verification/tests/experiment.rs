use atomic_broadcast::naming::{create_alias, create_config_alias};
use atomic_broadcast::experiment::{replica_kind, LeaderElection, ReplicaKind};
use atomic_broadcast::experiment::{
    client_short_timeout_ms, create_experiment_str, create_metaresults_sub_dir, experiment_duration_ms, get_reconfig_nodes,
    initial_config, is_test_run, network_scenario_for, parse_client_params, validate_experiment_params,
    AtomicBroadcastRequest, ClientParams, ClientParamsDeser, ExperimentError, NetworkScenario,
    ReconfigurationPolicy,
};
use atomic_broadcast::summary::{count_positive, sorted, sum, timeouts_retried_summary};
use atomic_broadcast::test_utils::{all_linearizable, is_linearizable, sort_events_by_time, KVOperation, KVTimestamp};
use atomic_broadcast::text::parse_u64;
use atomic_broadcast::util::{ExperimentParams, IOMetaData};

fn request(algorithm: &str, nodes: u64, reconfiguration: &str, policy: &str, scenario: &str) -> AtomicBroadcastRequest {
    AtomicBroadcastRequest {
        algorithm: algorithm.to_string(),
        number_of_nodes: nodes,
        concurrent_proposals: 10,
        duration_secs: 60,
        reconfiguration: reconfiguration.to_string(),
        reconfig_policy: policy.to_string(),
        network_scenario: scenario.to_string(),
        election_timeout_ms: 500,
    }
}

#[test]
fn valid_requests_set_up_experiments() {
    let setup = validate_experiment_params(&request("Paxos", 3, "off", "none", "fully_connected"), 3)
        .unwrap_or_else(|_| panic!("valid"));
    assert_eq!(setup.num_nodes_needed, 3);
    assert!(setup.reconfiguration.is_none());
    assert!(setup.network_scenario == NetworkScenario::FullyConnected);
    let setup = validate_experiment_params(&request("raft", 5, "majority", "replace-leader", "quorum_loss-30"), 8)
        .unwrap_or_else(|_| panic!("valid"));
    assert_eq!(setup.num_nodes_needed, 8);
    match setup.reconfiguration {
        Some((p, nodes)) => {
            assert!(p == ReconfigurationPolicy::ReplaceLeader);
            assert_eq!(nodes, vec![6, 7, 8]);
        }
        None => panic!("a reconfiguration"),
    }
    assert!(setup.network_scenario == NetworkScenario::QuorumLoss(30));
}

fn error_of(r: &AtomicBroadcastRequest, clients: u32) -> ExperimentError {
    match validate_experiment_params(r, clients) {
        Err(e) => e,
        Ok(_) => panic!("should be refused"),
    }
}

#[test]
fn invalid_requests_are_refused() {
    assert!(error_of(&request("paxos", 3, "off", "none", "fully_connected"), 2)
        == ExperimentError::NotEnoughClients { clients: 2, required: 3 });
    assert!(error_of(&request("zab", 3, "off", "none", "fully_connected"), 3) == ExperimentError::UnknownAlgorithm);
    assert!(error_of(&request("paxos", 3, "off", "replace-leader", "fully_connected"), 3)
        == ExperimentError::PolicyWithoutReconfiguration);
    assert!(error_of(&request("multi-paxos", 3, "single", "replace-leader", "fully_connected"), 4)
        == ExperimentError::ReconfigurationUnsupported);
    assert!(error_of(&request("paxos", 3, "single", "swap", "fully_connected"), 4) == ExperimentError::UnknownPolicy);
    assert!(error_of(&request("paxos", 3, "double", "none", "fully_connected"), 4)
        == ExperimentError::UnknownReconfiguration);
    assert!(error_of(&request("paxos", 3, "single", "replace-follower", "fully_connected"), 3)
        == ExperimentError::NotEnoughClients { clients: 3, required: 4 });
    assert!(error_of(&request("paxos", 3, "off", "none", "chained-x"), 3) == ExperimentError::InvalidScenarioDuration);
    assert!(error_of(&request("paxos", 3, "off", "none", "quorum_loss-10"), 3)
        == ExperimentError::UnknownNetworkScenario);
    assert!(error_of(&request("paxos", 3, "off", "none", "sunny"), 3) == ExperimentError::UnknownNetworkScenario);
}

#[test]
fn scenarios_and_reconfiguration_nodes() {
    assert!(network_scenario_for("chained-15", 3) == Ok(NetworkScenario::Chained(15)));
    assert!(network_scenario_for("constrained_election-5", 5) == Ok(NetworkScenario::ConstrainedElection(5)));
    assert!(network_scenario_for("periodic_full-2", 7) == Ok(NetworkScenario::PeriodicFull(2)));
    assert!(get_reconfig_nodes("SINGLE", 3) == Ok(Some(vec![4])));
    assert!(get_reconfig_nodes("off", 3) == Ok(None));
    assert!(get_reconfig_nodes("many", 3) == Err(ExperimentError::UnknownReconfigurationParameter));
    assert!(get_reconfig_nodes("Off", u64::MAX) == Ok(None));
    assert!(get_reconfig_nodes("MAJORITY", 4) == Ok(Some(vec![5, 6, 7])));
}

#[test]
fn any_number_of_nodes_is_checked() {
    assert!(error_of(&request("paxos", u64::MAX, "single", "replace-leader", "fully_connected"), 5)
        == ExperimentError::NotEnoughClients { clients: 5, required: u64::MAX });
    assert!(error_of(&request("paxos", 1 << 40, "off", "none", "fully_connected"), u32::MAX)
        == ExperimentError::NotEnoughClients { clients: u32::MAX, required: 1 << 40 });
}

#[test]
fn test_runs_are_recognised() {
    assert!(is_test_run(Some(3), Some(200), Some(NetworkScenario::FullyConnected), Some(10_000)));
    assert!(!is_test_run(Some(3), Some(200), Some(NetworkScenario::Chained(10)), Some(10_000)));
    assert!(!is_test_run(Some(5), Some(200), Some(NetworkScenario::FullyConnected), Some(10_000)));
    assert!(!is_test_run(None, Some(200), Some(NetworkScenario::FullyConnected), Some(10_000)));
    assert!(!is_test_run(Some(3), Some(200), None, Some(10_000)));
}

#[test]
fn results_directory_and_client_parameters() {
    assert_eq!(create_metaresults_sub_dir(5, 500, "single"), "5-500-single");
    let c = ClientParamsDeser {
        algorithm: "paxos".to_string(),
        num_nodes: 3,
        concurrent_proposals: 100,
        is_reconfig_exp: true,
        election_timeout_ms: 500,
        run_id: "run7".to_string(),
    };
    let p = ClientParams::with(c, "single");
    assert_eq!(p.experiment_str, "paxos,3,100,single,500,run7");
    match parse_client_params("Paxos,3,100,Single,500ms,run7") {
        Some((c, subdir)) => {
            assert_eq!(c.algorithm, "paxos");
            assert_eq!(c.num_nodes, 3);
            assert_eq!(c.concurrent_proposals, 100);
            assert!(c.is_reconfig_exp);
            assert_eq!(c.election_timeout_ms, 500);
            assert_eq!(c.run_id, "run7");
            assert_eq!(subdir, "3-100-single");
        }
        None => panic!("well formed"),
    }
    assert!(parse_client_params("paxos,3,100").is_none());
    assert!(parse_client_params("paxos,three,100,off,500ms,r").is_none());
}

#[test]
fn durations_and_timeouts() {
    assert_eq!(experiment_duration_ms(NetworkScenario::ConstrainedElection(10), 500, 60), (10250, 250));
    assert_eq!(experiment_duration_ms(NetworkScenario::Chained(10), 500, 60), (10000, 0));
    assert_eq!(experiment_duration_ms(NetworkScenario::FullyConnected, 500, 60), (60000, 0));
    assert_eq!(client_short_timeout_ms(NetworkScenario::Chained(10), 500, 4, 9000), 125);
    assert_eq!(client_short_timeout_ms(NetworkScenario::Chained(10), 50, 4, 9000), 25);
    assert_eq!(client_short_timeout_ms(NetworkScenario::FullyConnected, 500, 4, 9000), 9000);
    assert_eq!(initial_config(4), vec![1, 2, 3, 4]);
    assert!(initial_config(0).is_empty());
}

#[test]
fn parsing_numbers() {
    let digits: Vec<char> = "1234".chars().collect();
    assert_eq!(parse_u64(&digits), Some(1234));
    let bad: Vec<char> = "12a".chars().collect();
    assert_eq!(parse_u64(&bad), None);
    let empty: Vec<char> = vec![];
    assert_eq!(parse_u64(&empty), None);
    let big: Vec<char> = "18446744073709551616".chars().collect();
    assert_eq!(parse_u64(&big), None);
}

#[test]
fn timeout_summaries() {
    assert_eq!(sum(&vec![3, 0, 4]), 7);
    assert_eq!(count_positive(&vec![3, 0, 4]), 2);
    assert_eq!(sorted(&vec![5, 1, 4, 1]), vec![1, 1, 4, 5]);
    let (t, r) = timeouts_retried_summary(&vec![4, 0, 2], &vec![0, 0, 0], 3);
    let t = t.unwrap();
    assert_eq!((t.runs_with, t.runs, t.sum, t.avg, t.median, t.min, t.max), (2, 3, 6, 2, 2, 0, 4));
    assert!(r.is_none());
    let (t, r) = timeouts_retried_summary(&vec![0, 0], &vec![1, 5], 2);
    assert!(t.is_none());
    let r = r.unwrap();
    assert_eq!((r.runs_with, r.sum, r.avg, r.median, r.min, r.max), (2, 6, 3, 0, 1, 5));
}

#[test]
fn io_counts() {
    let mut m = IOMetaData::new();
    m.update_sent_with_size(1500);
    m.update_sent_with_size(700);
    m.update_received_with_size(999);
    assert_eq!(m.get_num_sent(), 2);
    assert_eq!(m.get_sent_bytes(), 2200);
    assert_eq!(m.get_sent_kb(), 2);
    assert_eq!(m.get_received_kb(), 0);
    let total = m.sum(m);
    assert_eq!(total.get_num_received(), 2);
    assert_eq!(total.get_received_bytes(), 1998);
    m.reset();
    assert_eq!(m.get_num_sent(), 0);
}

fn ev(key: u64, operation: KVOperation, value: Option<u32>, time: i64, sender: u32) -> KVTimestamp {
    KVTimestamp { key, operation, value, time, sender }
}

#[test]
fn linearizable_histories() {
    let good = vec![
        ev(1, KVOperation::ReadResponse, Some(7), 3, 2),
        ev(1, KVOperation::WriteInvokation, Some(7), 0, 1),
        ev(1, KVOperation::WriteResponse, Some(7), 1, 1),
        ev(1, KVOperation::ReadInvokation, None, 2, 2),
        ev(2, KVOperation::ReadInvokation, None, 0, 3),
        ev(2, KVOperation::ReadResponse, Some(0), 1, 3),
    ];
    assert!(all_linearizable(&good));
    let bad = vec![
        ev(1, KVOperation::WriteInvokation, Some(7), 0, 1),
        ev(1, KVOperation::WriteResponse, Some(7), 1, 1),
        ev(1, KVOperation::ReadInvokation, None, 2, 2),
        ev(1, KVOperation::ReadResponse, Some(8), 3, 2),
    ];
    assert!(!all_linearizable(&bad));
    let mut state = vec![0u32];
    let trace = vec![
        ev(1, KVOperation::WriteInvokation, Some(7), 0, 1),
        ev(1, KVOperation::WriteInvokation, Some(9), 0, 2),
        ev(1, KVOperation::WriteResponse, Some(7), 1, 1),
        ev(1, KVOperation::WriteResponse, Some(9), 2, 2),
        ev(1, KVOperation::ReadInvokation, None, 3, 3),
        ev(1, KVOperation::ReadResponse, Some(7), 4, 3),
    ];
    assert!(is_linearizable(&trace, &mut state));
    assert_eq!(state, vec![0, 9, 7]);
    let mut state = vec![0u32];
    assert!(!is_linearizable(&bad, &mut state));
    assert_eq!(state, vec![0]);
    let order: Vec<i64> = sort_events_by_time(&good).iter().map(|e| e.time).collect();
    assert_eq!(order, vec![0, 0, 1, 1, 2, 3]);
}

#[test]
fn experiment_names_and_io_paths() {
    let r = request("paxos", 3, "single", "replace-follower", "fully_connected");
    assert_eq!(create_experiment_str(&r), "paxos,3,10,1min,single,replace-follower,fully_connected,500ms");
    let p = ExperimentParams::with(500, 1, 10, 20, 0, "run3", "3-10-off", "paxos,3".to_string());
    assert_eq!(p.io_meta_results_path, "../meta_results/run3/io/3-10-off/");
    let (dir, file) = p.get_io_file_paths("sent", "communicator");
    assert_eq!(dir, "../meta_results/run3/io/3-10-off//sent/paxos,3");
    assert_eq!(file, "../meta_results/run3/io/3-10-off//sent/paxos,3/communicator.data");
}

#[test]
fn algorithms_name_their_replicas() {
    assert!(replica_kind("paxos") == Some(ReplicaKind::Paxos(LeaderElection::BLE)));
    assert!(replica_kind("vr") == Some(ReplicaKind::Paxos(LeaderElection::VR)));
    assert!(replica_kind("mple") == Some(ReplicaKind::Paxos(LeaderElection::MultiPaxos)));
    assert!(replica_kind("multi-paxos") == Some(ReplicaKind::MultiPaxos));
    assert!(replica_kind("raft_pv_qc") == Some(ReplicaKind::Raft { pv_qc: true }));
    assert!(replica_kind("zab").is_none());
}

#[test]
fn component_aliases() {
    assert_eq!(create_alias("leader", 3, 7), "leader3-7");
    assert_eq!(create_config_alias("ble", 2, 1, 4), "ble2,1-4");
}
