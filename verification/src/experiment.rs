//! The description of a benchmark experiment: validating a request, the
//! nodes a reconfiguration adds, and the strings that name an experiment.
use vstd::prelude::*;
use crate::text::{
    ascii_lower, before_ms, chars_of, decimal, is_ascii_chars, is_digit, is_word, lacks,
    lemma_before_ms_without_m, lemma_decimal_digits, lemma_parse_decimal, lemma_split_append,
    lemma_split_single, lowered, parse_u64, parse_u64_spec, push_chars, push_decimal, split_chars,
    split_spec, string_of, take_before_ms, to_lowercase,
};

verus! {

/// How a reconfiguration replaces nodes.
#[derive(PartialEq, Eq, Structural, Clone, Copy)]
pub enum ReconfigurationPolicy {
    ReplaceLeader,
    ReplaceFollower,
}

/// The network conditions of an experiment; durations are in seconds.
#[derive(PartialEq, Eq, Structural, Clone, Copy)]
pub enum NetworkScenario {
    FullyConnected,
    QuorumLoss(u64),
    ConstrainedElection(u64),
    Chained(u64),
    PeriodicFull(u64),
}

/// A request to run an atomic-broadcast experiment.
pub struct AtomicBroadcastRequest {
    pub algorithm: String,
    pub number_of_nodes: u64,
    pub concurrent_proposals: u64,
    pub duration_secs: u64,
    pub reconfiguration: String,
    pub reconfig_policy: String,
    pub network_scenario: String,
    pub election_timeout_ms: u64,
}

/// Why an experiment request is refused.
#[derive(PartialEq, Eq, Structural, Clone, Copy)]
pub enum ExperimentError {
    NotEnoughClients { clients: u32, required: u64 },
    UnknownAlgorithm,
    PolicyWithoutReconfiguration,
    ReconfigurationUnsupported,
    UnknownPolicy,
    UnknownReconfiguration,
    UnknownReconfigurationParameter,
    InvalidScenarioDuration,
    UnknownNetworkScenario,
}

/// What a valid request sets up: how many nodes it needs, the nodes a
/// reconfiguration adds and how, and the network scenario.
pub struct ExperimentSetup {
    pub num_nodes_needed: u64,
    pub reconfiguration: Option<(ReconfigurationPolicy, Vec<u64>)>,
    pub network_scenario: NetworkScenario,
}

/// Abstract value of an [`ExperimentSetup`].
pub struct SetupView {
    pub num_nodes_needed: u64,
    pub reconfiguration: Option<(ReconfigurationPolicy, Seq<u64>)>,
    pub network_scenario: NetworkScenario,
}

impl View for ExperimentSetup {
    type V = SetupView;

    open spec fn view(&self) -> SetupView {
        SetupView {
            num_nodes_needed: self.num_nodes_needed,
            reconfiguration: match self.reconfiguration {
                Some((p, v)) => Some((p, v@)),
                None => None,
            },
            network_scenario: self.network_scenario,
        }
    }
}

/// The nodes `n + 1 ..` that a reconfiguration named `s` (in lowercase) adds
/// to `n` nodes: none when off, one for a single node, a majority of `n`
/// for a majority.
pub open spec fn reconfig_nodes_spec(s: Seq<char>, n: u64) -> Result<Option<Seq<u64>>, ExperimentError> {
    if s == "off"@ {
        Ok(None)
    } else if s == "single"@ {
        Ok(Some(seq![(n + 1) as u64]))
    } else if s == "majority"@ {
        Ok(Some(Seq::new((n / 2 + 1) as nat, |i: int| (n + 1 + i) as u64)))
    } else {
        Err(ExperimentError::UnknownReconfigurationParameter)
    }
}

/// The node ids of a reconfiguration fit a `u64`.
pub open spec fn nodes_fit(n: u64) -> bool {
    n + 1 + (n / 2 + 1) <= u64::MAX
}

/// The nodes a reconfiguration named `s`, already in lowercase, adds to `n` nodes.
pub fn reconfig_nodes_for(s: &str, n: u64) -> (r: Result<Option<Vec<u64>>, ExperimentError>)
    requires
        s@ == "single"@ || s@ == "majority"@ ==> nodes_fit(n),
    ensures
        match r {
            Ok(Some(v)) => reconfig_nodes_spec(s@, n) == Ok::<Option<Seq<u64>>, ExperimentError>(Some(v@)),
            Ok(None) => reconfig_nodes_spec(s@, n) == Ok::<Option<Seq<u64>>, ExperimentError>(None),
            Err(e) => reconfig_nodes_spec(s@, n) == Err::<Option<Seq<u64>>, ExperimentError>(e),
        },
{
    let cs = chars_of(s);
    if is_word(cs.as_slice(), "off") {
        Ok(None)
    } else if is_word(cs.as_slice(), "single") {
        let mut v: Vec<u64> = Vec::new();
        v.push(n + 1);
        assert(v@ =~= seq![(n + 1) as u64]);
        Ok(Some(v))
    } else if is_word(cs.as_slice(), "majority") {
        let majority = n / 2 + 1;
        let mut v: Vec<u64> = Vec::new();
        let mut id = n + 1;
        while id < n + 1 + majority
            invariant
                n + 1 <= id <= n + 1 + majority,
                majority == n / 2 + 1,
                n + 1 + majority <= u64::MAX,
                v@ =~= Seq::new((id - n - 1) as nat, |i: int| (n + 1 + i) as u64),
            decreases n + 1 + majority - id,
        {
            v.push(id);
            id = id + 1;
        }
        Ok(Some(v))
    } else {
        Err(ExperimentError::UnknownReconfigurationParameter)
    }
}

/// The nodes a reconfiguration named `s`, in any case, adds to `n` nodes.
pub fn get_reconfig_nodes(s: &str, n: u64) -> (r: Result<Option<Vec<u64>>, ExperimentError>)
    requires
        lowered(s@) == "single"@ || lowered(s@) == "majority"@ ==> nodes_fit(n),
    ensures
        match r {
            Ok(Some(v)) => reconfig_nodes_spec(lowered(s@), n) == Ok::<
                Option<Seq<u64>>,
                ExperimentError,
            >(Some(v@)),
            Ok(None) => reconfig_nodes_spec(lowered(s@), n) == Ok::<
                Option<Seq<u64>>,
                ExperimentError,
            >(None),
            Err(e) => reconfig_nodes_spec(lowered(s@), n) == Err::<
                Option<Seq<u64>>,
                ExperimentError,
            >(e),
        },
{
    let lower = to_lowercase(s);
    reconfig_nodes_for(lower.as_str(), n)
}

pub open spec fn known_algorithm(a: Seq<char>) -> bool {
    a == "paxos"@ || a == "raft"@ || a == "vr"@ || a == "multi-paxos"@ || a == "raft_pv_qc"@
}

/// The network scenario a lowercase description names for `nodes` nodes:
/// `fully_connected`, or a name and a duration in seconds joined by `-`.
pub open spec fn scenario_spec(s: Seq<char>, nodes: u64) -> Result<NetworkScenario, ExperimentError> {
    if s == "fully_connected"@ {
        Ok(NetworkScenario::FullyConnected)
    } else {
        let parts = split_spec(s, '-');
        if parts.len() != 2 {
            Err(ExperimentError::UnknownNetworkScenario)
        } else {
            match parse_u64_spec(parts[1]) {
                None => Err(ExperimentError::InvalidScenarioDuration),
                Some(d) => if parts[0] == "quorum_loss"@ && nodes == 5 {
                    Ok(NetworkScenario::QuorumLoss(d))
                } else if parts[0] == "constrained_election"@ && nodes == 5 {
                    Ok(NetworkScenario::ConstrainedElection(d))
                } else if parts[0] == "chained"@ && nodes == 3 {
                    Ok(NetworkScenario::Chained(d))
                } else if parts[0] == "periodic_full"@ {
                    Ok(NetworkScenario::PeriodicFull(d))
                } else {
                    Err(ExperimentError::UnknownNetworkScenario)
                },
            }
        }
    }
}

/// The reconfiguration part of a valid request: the nodes needed and the
/// reconfiguration, from the lowercase algorithm, reconfiguration and policy.
pub open spec fn reconfiguration_spec(
    alg: Seq<char>,
    reconf: Seq<char>,
    policy: Seq<char>,
    nodes: u64,
    clients: u32,
) -> Result<(u64, Option<(ReconfigurationPolicy, Seq<u64>)>), ExperimentError> {
    if reconf == "off"@ {
        if policy != "none"@ {
            Err(ExperimentError::PolicyWithoutReconfiguration)
        } else {
            Ok((nodes, None))
        }
    } else if reconf == "single"@ || reconf == "majority"@ {
        if alg == "multi-paxos"@ {
            Err(ExperimentError::ReconfigurationUnsupported)
        } else if policy != "replace-follower"@ && policy != "replace-leader"@ {
            Err(ExperimentError::UnknownPolicy)
        } else {
            let p = if policy == "replace-follower"@ {
                ReconfigurationPolicy::ReplaceFollower
            } else {
                ReconfigurationPolicy::ReplaceLeader
            };
            let added = reconfig_nodes_spec(reconf, nodes)->Ok_0->Some_0;
            let n = nodes + added.len();
            if clients < n {
                Err(ExperimentError::NotEnoughClients { clients, required: n as u64 })
            } else {
                Ok((n as u64, Some((p, added))))
            }
        }
    } else {
        Err(ExperimentError::UnknownReconfiguration)
    }
}

/// The setup a request gives, from its lowercase strings, or why it is refused.
pub open spec fn validate_spec(
    alg: Seq<char>,
    reconf: Seq<char>,
    policy: Seq<char>,
    scenario: Seq<char>,
    nodes: u64,
    clients: u32,
) -> Result<SetupView, ExperimentError> {
    if clients < nodes {
        Err(ExperimentError::NotEnoughClients { clients, required: nodes })
    } else if !known_algorithm(alg) {
        Err(ExperimentError::UnknownAlgorithm)
    } else {
        match reconfiguration_spec(alg, reconf, policy, nodes, clients) {
            Err(e) => Err(e),
            Ok((needed, r)) => match scenario_spec(scenario, nodes) {
                Err(e) => Err(e),
                Ok(ns) => Ok(SetupView { num_nodes_needed: needed, reconfiguration: r, network_scenario: ns }),
            },
        }
    }
}

/// The chained scenario needs exactly 3 nodes, and the quorum-loss and
/// constrained-election scenarios exactly 5: for any other number of nodes
/// they are refused.
pub proof fn lemma_scenario_sizes(s: Seq<char>, nodes: u64)
    ensures
        scenario_spec(s, nodes) is Ok && scenario_spec(s, nodes)->Ok_0 is Chained ==> nodes == 3,
        scenario_spec(s, nodes) is Ok && scenario_spec(s, nodes)->Ok_0 is QuorumLoss ==> nodes == 5,
        scenario_spec(s, nodes) is Ok && scenario_spec(s, nodes)->Ok_0 is ConstrainedElection ==> nodes
            == 5,
{
}

/// A validated experiment has a scenario fitting its number of nodes, and
/// enough clients for its nodes.
pub proof fn lemma_validated_scenario_sizes(
    alg: Seq<char>,
    reconf: Seq<char>,
    policy: Seq<char>,
    scenario: Seq<char>,
    nodes: u64,
    clients: u32,
)
    ensures
        ({
            let v = validate_spec(alg, reconf, policy, scenario, nodes, clients);
            &&& v is Ok && v->Ok_0.network_scenario is Chained ==> nodes == 3
            &&& v is Ok && v->Ok_0.network_scenario is QuorumLoss ==> nodes == 5
            &&& v is Ok && v->Ok_0.network_scenario is ConstrainedElection ==> nodes == 5
            &&& v is Ok ==> clients >= nodes
        }),
{
    lemma_scenario_sizes(scenario, nodes);
}

/// What a validated experiment is: it needs at least its nodes and no more
/// nodes than clients; it reconfigures exactly where the reconfiguration is
/// not off, and then adds fresh nodes numbered on from the last one (one for
/// a single node, more than half as many as there are for a majority),
/// never for Multi-Paxos; off goes only with no policy. Too few clients for
/// the nodes is refused first.
pub proof fn lemma_validation_laws(
    alg: Seq<char>,
    reconf: Seq<char>,
    policy: Seq<char>,
    scenario: Seq<char>,
    nodes: u64,
    clients: u32,
)
    ensures
        clients < nodes ==> validate_spec(alg, reconf, policy, scenario, nodes, clients) == Err::<
            SetupView,
            ExperimentError,
        >(ExperimentError::NotEnoughClients { clients, required: nodes }),
        validate_spec(alg, reconf, policy, scenario, nodes, clients) is Ok ==> nodes <= validate_spec(
            alg,
            reconf,
            policy,
            scenario,
            nodes,
            clients,
        )->Ok_0.num_nodes_needed <= clients,
        validate_spec(alg, reconf, policy, scenario, nodes, clients) is Ok ==> (validate_spec(
            alg,
            reconf,
            policy,
            scenario,
            nodes,
            clients,
        )->Ok_0.reconfiguration is None <==> reconf == "off"@),
        validate_spec(alg, reconf, policy, scenario, nodes, clients) is Ok && reconf == "off"@
            ==> policy == "none"@,
        ({
            let v = validate_spec(alg, reconf, policy, scenario, nodes, clients);
            v is Ok && v->Ok_0.reconfiguration is Some ==> {
                let added = v->Ok_0.reconfiguration->Some_0.1;
                &&& alg != "multi-paxos"@
                &&& added.len() >= 1
                &&& v->Ok_0.num_nodes_needed == nodes + added.len()
                &&& forall|i: int| 0 <= i < added.len() ==> #[trigger] added[i] == nodes + 1 + i
                &&& reconf == "single"@ ==> added.len() == 1
                &&& reconf == "majority"@ ==> 2 * added.len() > nodes
            }
        }),
{
    reveal_strlit("off");
    reveal_strlit("single");
    reveal_strlit("majority");
    reveal_strlit("multi-paxos");
    let v = validate_spec(alg, reconf, policy, scenario, nodes, clients);
    if v is Ok && v->Ok_0.reconfiguration is Some {
        let added = v->Ok_0.reconfiguration->Some_0.1;
        assert(reconf != "off"@);
        assert(reconf == "single"@ || reconf == "majority"@);
        assert(alg != "multi-paxos"@);
        assert(added == reconfig_nodes_spec(reconf, nodes)->Ok_0->Some_0);
        assert(nodes + added.len() <= clients);
        assert("single"@.len() == 6 && "majority"@.len() == 8);
        if reconf == "single"@ {
            assert(added == seq![(nodes + 1) as u64]);
            assert(added[0] == nodes + 1);
        } else {
            assert(added == Seq::new((nodes / 2 + 1) as nat, |i: int| (nodes + 1 + i) as u64));
            assert forall|i: int| 0 <= i < added.len() implies #[trigger] added[i] == nodes + 1 + i by {
                assert(nodes + 1 + i <= clients);
            }
            assert(2 * added.len() > nodes);
        }
        assert(v->Ok_0.num_nodes_needed == nodes + added.len());
        assert(added.len() >= 1);
        assert(reconf == "single"@ ==> added.len() == 1);
        assert(reconf == "majority"@ ==> 2 * added.len() > nodes);
        assert(forall|i: int| 0 <= i < added.len() ==> #[trigger] added[i] == nodes + 1 + i);
    }
}

/// The network scenario a lowercase description names.
pub fn network_scenario_for(s: &str, nodes: u64) -> (r: Result<NetworkScenario, ExperimentError>)
    ensures
        r == scenario_spec(s@, nodes),
        r is Ok && r->Ok_0 is Chained ==> nodes == 3,
        r is Ok && r->Ok_0 is QuorumLoss ==> nodes == 5,
        r is Ok && r->Ok_0 is ConstrainedElection ==> nodes == 5,
{
    let cs = chars_of(s);
    if is_word(cs.as_slice(), "fully_connected") {
        return Ok(NetworkScenario::FullyConnected);
    }
    let parts = split_chars(cs.as_slice(), '-');
    if parts.len() != 2 {
        return Err(ExperimentError::UnknownNetworkScenario);
    }
    let duration = match parse_u64(parts[1].as_slice()) {
        Some(d) => d,
        None => {
            return Err(ExperimentError::InvalidScenarioDuration);
        },
    };
    let name = parts[0].as_slice();
    if is_word(name, "quorum_loss") && nodes == 5 {
        Ok(NetworkScenario::QuorumLoss(duration))
    } else if is_word(name, "constrained_election") && nodes == 5 {
        Ok(NetworkScenario::ConstrainedElection(duration))
    } else if is_word(name, "chained") && nodes == 3 {
        Ok(NetworkScenario::Chained(duration))
    } else if is_word(name, "periodic_full") {
        Ok(NetworkScenario::PeriodicFull(duration))
    } else {
        Err(ExperimentError::UnknownNetworkScenario)
    }
}

/// Validates a request from its lowercase strings; `reconf` is the
/// lowercase form of the reconfiguration `reconf_raw` as requested.
fn validate_lowercased(
    alg: &str,
    reconf: &str,
    reconf_raw: &str,
    policy: &str,
    scenario: &str,
    nodes: u64,
    clients: u32,
) -> (r: Result<ExperimentSetup, ExperimentError>)
    requires
        reconf@ == lowered(reconf_raw@),
    ensures
        match r {
            Ok(setup) => validate_spec(alg@, reconf@, policy@, scenario@, nodes, clients) == Ok::<
                SetupView,
                ExperimentError,
            >(setup@),
            Err(e) => validate_spec(alg@, reconf@, policy@, scenario@, nodes, clients) == Err::<
                SetupView,
                ExperimentError,
            >(e),
        },
{
    if (clients as u64) < nodes {
        return Err(ExperimentError::NotEnoughClients { clients, required: nodes });
    }
    let a = chars_of(alg);
    let known = is_word(a.as_slice(), "paxos") || is_word(a.as_slice(), "raft") || is_word(
        a.as_slice(),
        "vr",
    ) || is_word(a.as_slice(), "multi-paxos") || is_word(a.as_slice(), "raft_pv_qc");
    if !known {
        return Err(ExperimentError::UnknownAlgorithm);
    }
    let rc = chars_of(reconf);
    let pc = chars_of(policy);
    let needed: u64;
    let reconfiguration: Option<(ReconfigurationPolicy, Vec<u64>)>;
    if is_word(rc.as_slice(), "off") {
        if !is_word(pc.as_slice(), "none") {
            return Err(ExperimentError::PolicyWithoutReconfiguration);
        }
        needed = nodes;
        reconfiguration = None;
    } else if is_word(rc.as_slice(), "single") || is_word(rc.as_slice(), "majority") {
        if is_word(a.as_slice(), "multi-paxos") {
            return Err(ExperimentError::ReconfigurationUnsupported);
        }
        let p = if is_word(pc.as_slice(), "replace-follower") {
            ReconfigurationPolicy::ReplaceFollower
        } else if is_word(pc.as_slice(), "replace-leader") {
            ReconfigurationPolicy::ReplaceLeader
        } else {
            return Err(ExperimentError::UnknownPolicy);
        };
        match get_reconfig_nodes(reconf_raw, nodes) {
            Ok(Some(added)) => {
                let n = nodes + added.len() as u64;
                if (clients as u64) < n {
                    return Err(ExperimentError::NotEnoughClients { clients, required: n });
                }
                needed = n;
                reconfiguration = Some((p, added));
            },
            _ => {
                return Err(ExperimentError::UnknownReconfiguration);
            },
        }
    } else {
        return Err(ExperimentError::UnknownReconfiguration);
    }
    match network_scenario_for(scenario, nodes) {
        Ok(network_scenario) => Ok(ExperimentSetup { num_nodes_needed: needed, reconfiguration, network_scenario }),
        Err(e) => Err(e),
    }
}

/// Validates an experiment request for `num_clients` clients.
pub fn validate_experiment_params(c: &AtomicBroadcastRequest, num_clients: u32) -> (r: Result<ExperimentSetup, ExperimentError>)
    ensures
        ({
            let v = validate_spec(
                lowered(c.algorithm@),
                lowered(c.reconfiguration@),
                lowered(c.reconfig_policy@),
                lowered(c.network_scenario@),
                c.number_of_nodes,
                num_clients,
            );
            match r {
                Ok(setup) => v == Ok::<SetupView, ExperimentError>(setup@),
                Err(e) => v == Err::<SetupView, ExperimentError>(e),
            }
        }),
        r is Ok && r->Ok_0.network_scenario is Chained ==> c.number_of_nodes == 3,
        r is Ok && r->Ok_0.network_scenario is QuorumLoss ==> c.number_of_nodes == 5,
        r is Ok && r->Ok_0.network_scenario is ConstrainedElection ==> c.number_of_nodes == 5,
        r is Ok ==> num_clients >= c.number_of_nodes,
{
    proof {
        lemma_validated_scenario_sizes(
            lowered(c.algorithm@),
            lowered(c.reconfiguration@),
            lowered(c.reconfig_policy@),
            lowered(c.network_scenario@),
            c.number_of_nodes,
            num_clients,
        );
    }
    let alg = to_lowercase(c.algorithm.as_str());
    let reconf = to_lowercase(c.reconfiguration.as_str());
    let policy = to_lowercase(c.reconfig_policy.as_str());
    let scenario = to_lowercase(c.network_scenario.as_str());
    validate_lowercased(
        alg.as_str(),
        reconf.as_str(),
        c.reconfiguration.as_str(),
        policy.as_str(),
        scenario.as_str(),
        c.number_of_nodes,
        num_clients,
    )
}

/// The name of an experiment's results directory: nodes, concurrent
/// proposals and reconfiguration, joined by `-`.
pub open spec fn sub_dir_spec(n: u64, cp: u64, reconfiguration: Seq<char>) -> Seq<char> {
    decimal(n as nat) + seq!['-'] + decimal(cp as nat) + seq!['-'] + reconfiguration
}

pub fn create_metaresults_sub_dir(number_of_nodes: u64, concurrent_proposals: u64, reconfiguration: &str) -> (r: String)
    ensures
        r@ == sub_dir_spec(number_of_nodes, concurrent_proposals, reconfiguration@),
{
    let mut out: Vec<char> = Vec::new();
    push_decimal(&mut out, number_of_nodes);
    out.push('-');
    push_decimal(&mut out, concurrent_proposals);
    out.push('-');
    let rc = chars_of(reconfiguration);
    push_chars(&mut out, rc.as_slice());
    assert(out@ =~= sub_dir_spec(number_of_nodes, concurrent_proposals, reconfiguration@));
    string_of(out.as_slice())
}

/// The parameters a client reads from its experiment string.
pub struct ClientParamsDeser {
    pub algorithm: String,
    pub num_nodes: u64,
    pub concurrent_proposals: u64,
    pub is_reconfig_exp: bool,
    pub election_timeout_ms: u64,
    pub run_id: String,
}

/// The experiment string handed to every client.
pub struct ClientParams {
    pub experiment_str: String,
}

/// The experiment string: algorithm, nodes, concurrent proposals,
/// reconfiguration, election timeout and run id, joined by `,`.
pub open spec fn experiment_str_spec(
    algorithm: Seq<char>,
    num_nodes: u64,
    concurrent_proposals: u64,
    reconfig: Seq<char>,
    election_timeout_ms: u64,
    run_id: Seq<char>,
) -> Seq<char> {
    algorithm + seq![','] + decimal(num_nodes as nat) + seq![','] + decimal(concurrent_proposals as nat)
        + seq![','] + reconfig + seq![','] + decimal(election_timeout_ms as nat) + seq![',']
        + run_id
}

impl ClientParams {
    pub fn with(c: ClientParamsDeser, reconfig: &str) -> (p: ClientParams)
        ensures
            p.experiment_str@ == experiment_str_spec(
                c.algorithm@,
                c.num_nodes,
                c.concurrent_proposals,
                reconfig@,
                c.election_timeout_ms,
                c.run_id@,
            ),
    {
        let mut out: Vec<char> = Vec::new();
        let a = chars_of(c.algorithm.as_str());
        push_chars(&mut out, a.as_slice());
        out.push(',');
        push_decimal(&mut out, c.num_nodes);
        out.push(',');
        push_decimal(&mut out, c.concurrent_proposals);
        out.push(',');
        let r = chars_of(reconfig);
        push_chars(&mut out, r.as_slice());
        out.push(',');
        push_decimal(&mut out, c.election_timeout_ms);
        out.push(',');
        let id = chars_of(c.run_id.as_str());
        push_chars(&mut out, id.as_slice());
        assert(out@ =~= experiment_str_spec(
            c.algorithm@,
            c.num_nodes,
            c.concurrent_proposals,
            reconfig@,
            c.election_timeout_ms,
            c.run_id@,
        ));
        ClientParams { experiment_str: string_of(out.as_slice()) }
    }
}

/// Whether a lowercase reconfiguration is one: `Some(false)` for off,
/// `Some(true)` for a single node or a majority, `None` otherwise.
pub open spec fn reconfig_flag(r: Seq<char>) -> Option<bool> {
    if r == "off"@ {
        Some(false)
    } else if r == "single"@ || r == "majority"@ {
        Some(true)
    } else {
        None
    }
}

/// A client's experiment string is well formed: six fields, numbers where
/// numbers go, a known reconfiguration, and an election timeout in `ms`.
pub open spec fn client_params_ok(s: Seq<char>) -> bool {
    let p = split_spec(s, ',');
    &&& p.len() == 6
    &&& parse_u64_spec(p[1]) is Some
    &&& parse_u64_spec(p[2]) is Some
    &&& reconfig_flag(lowered(p[3])) is Some
    &&& parse_u64_spec(before_ms(p[4])) is Some
}

/// What a client reads from a well-formed experiment string, and the name
/// of its results directory.
pub open spec fn client_params_result(s: Seq<char>, c: ClientParamsDeser, subdir: Seq<char>) -> bool {
    let p = split_spec(s, ',');
    &&& c.algorithm@ == lowered(p[0])
    &&& c.num_nodes == parse_u64_spec(p[1])->Some_0
    &&& c.concurrent_proposals == parse_u64_spec(p[2])->Some_0
    &&& c.is_reconfig_exp == reconfig_flag(lowered(p[3]))->Some_0
    &&& c.election_timeout_ms == parse_u64_spec(before_ms(p[4]))->Some_0
    &&& c.run_id@ == p[5]
    &&& subdir == sub_dir_spec(c.num_nodes, c.concurrent_proposals, lowered(p[3]))
}

/// Decimal digits hold neither a `,` nor an `m`.
proof fn lemma_decimal_plain(n: u64)
    ensures
        lacks(decimal(n as nat), ','),
        lacks(decimal(n as nat), 'm'),
        parse_u64_spec(decimal(n as nat)) == Some(n),
{
    lemma_decimal_digits(n as nat);
    lemma_parse_decimal(n);
    let d = decimal(n as nat);
    assert forall|i: int| 0 <= i < d.len() implies #[trigger] d[i] != ',' && d[i] != 'm' by {
        assert(is_digit(d[i]));
    }
}

/// The experiment string handed to a client reads back as what was put in
/// it: the algorithm (lower-case ASCII) and the run id as they are, the
/// numbers, whether the experiment reconfigures, and the results directory
/// named by the lowered reconfiguration.
pub proof fn lemma_experiment_str_roundtrip(
    algorithm: Seq<char>,
    num_nodes: u64,
    concurrent_proposals: u64,
    reconfig: Seq<char>,
    election_timeout_ms: u64,
    run_id: Seq<char>,
)
    requires
        lacks(algorithm, ','),
        lacks(reconfig, ','),
        lacks(run_id, ','),
        is_ascii_chars(algorithm),
        ascii_lower(algorithm) == algorithm,
        is_ascii_chars(reconfig),
        reconfig_flag(ascii_lower(reconfig)) is Some,
    ensures
        ({
            let s = experiment_str_spec(
                algorithm,
                num_nodes,
                concurrent_proposals,
                reconfig,
                election_timeout_ms,
                run_id,
            );
            &&& client_params_ok(s)
            &&& forall|c: ClientParamsDeser, d: Seq<char>| #[trigger]
                client_params_result(s, c, d) ==> {
                    &&& c.algorithm@ == algorithm
                    &&& c.num_nodes == num_nodes
                    &&& c.concurrent_proposals == concurrent_proposals
                    &&& c.is_reconfig_exp == (ascii_lower(reconfig) != "off"@)
                    &&& c.election_timeout_ms == election_timeout_ms
                    &&& c.run_id@ == run_id
                    &&& d == sub_dir_spec(num_nodes, concurrent_proposals, ascii_lower(reconfig))
                }
        }),
{
    let d1 = decimal(num_nodes as nat);
    let d2 = decimal(concurrent_proposals as nat);
    let d3 = decimal(election_timeout_ms as nat);
    lemma_decimal_plain(num_nodes);
    lemma_decimal_plain(concurrent_proposals);
    lemma_decimal_plain(election_timeout_ms);
    lemma_before_ms_without_m(d3);
    let p1 = algorithm + seq![','] + d1;
    let p2 = p1 + seq![','] + d2;
    let p3 = p2 + seq![','] + reconfig;
    let p4 = p3 + seq![','] + d3;
    let p5 = p4 + seq![','] + run_id;
    lemma_split_single(algorithm, ',');
    lemma_split_append(algorithm, d1, ',');
    lemma_split_append(p1, d2, ',');
    lemma_split_append(p2, reconfig, ',');
    lemma_split_append(p3, d3, ',');
    lemma_split_append(p4, run_id, ',');
    let parts = split_spec(p5, ',');
    assert(parts =~= seq![algorithm, d1, d2, reconfig, d3, run_id]);
    assert(lowered(algorithm) == algorithm);
    assert(lowered(reconfig) == ascii_lower(reconfig));
}

/// Reads a client's parameters from its experiment string.
pub fn get_deser_clientparams_and_subdir(s: &str) -> (r: (ClientParamsDeser, String))
    requires
        client_params_ok(s@),
    ensures
        client_params_result(s@, r.0, r.1@),
{
    let cs = chars_of(s);
    let split = split_chars(cs.as_slice(), ',');
    let algorithm = to_lowercase(string_of(split[0].as_slice()).as_str());
    let num_nodes = match parse_u64(split[1].as_slice()) {
        Some(n) => n,
        None => 0,
    };
    let concurrent_proposals = match parse_u64(split[2].as_slice()) {
        Some(n) => n,
        None => 0,
    };
    let reconfig = to_lowercase(string_of(split[3].as_slice()).as_str());
    let rc = chars_of(reconfig.as_str());
    let is_reconfig_exp = !is_word(rc.as_slice(), "off");
    let timeout = take_before_ms(split[4].as_slice());
    let election_timeout_ms = match parse_u64(timeout.as_slice()) {
        Some(n) => n,
        None => 0,
    };
    let run_id = string_of(split[5].as_slice());
    let subdir = create_metaresults_sub_dir(num_nodes, concurrent_proposals, reconfig.as_str());
    let cp = ClientParamsDeser {
        algorithm,
        num_nodes,
        concurrent_proposals,
        is_reconfig_exp,
        election_timeout_ms,
        run_id,
    };
    (cp, subdir)
}

/// Reads a client's parameters, or `None` where the experiment string is
/// not well formed.
pub fn parse_client_params(s: &str) -> (r: Option<(ClientParamsDeser, String)>)
    ensures
        r is None <==> !client_params_ok(s@),
        r matches Some((c, d)) ==> client_params_result(s@, c, d@),
{
    let cs = chars_of(s);
    let split = split_chars(cs.as_slice(), ',');
    if split.len() != 6 {
        return None;
    }
    if parse_u64(split[1].as_slice()).is_none() || parse_u64(split[2].as_slice()).is_none() {
        return None;
    }
    let reconfig = to_lowercase(string_of(split[3].as_slice()).as_str());
    let rc = chars_of(reconfig.as_str());
    if !(is_word(rc.as_slice(), "off") || is_word(rc.as_slice(), "single") || is_word(
        rc.as_slice(),
        "majority",
    )) {
        return None;
    }
    let timeout = take_before_ms(split[4].as_slice());
    if parse_u64(timeout.as_slice()).is_none() {
        return None;
    }
    Some(get_deser_clientparams_and_subdir(s))
}

/// Whether an experiment is a test run: 3 nodes, 200 concurrent
/// proposals, fully connected, for 10 seconds (10 000 ms); a setting not
/// known counts as 0.
pub fn is_test_run(
    num_nodes: Option<u64>,
    concurrent_proposals: Option<u64>,
    network_scenario: Option<NetworkScenario>,
    exp_duration_ms: Option<u64>,
) -> (t: bool)
    ensures
        t == (num_nodes.unwrap_or(0) == 3 && concurrent_proposals.unwrap_or(0) == 200
            && network_scenario == Some(NetworkScenario::FullyConnected)
            && exp_duration_ms.unwrap_or(0) == 10_000),
{
    let nodes = match num_nodes {
        Some(n) => n,
        None => 0,
    };
    let cp = match concurrent_proposals {
        Some(c) => c,
        None => 0,
    };
    let fully_connected = match network_scenario {
        Some(NetworkScenario::FullyConnected) => true,
        _ => false,
    };
    let duration = match exp_duration_ms {
        Some(d) => d,
        None => 0,
    };
    nodes == 3 && cp == 200 && fully_connected && duration == 10_000
}

/// A lagging follower is cut from the rest this fraction of an election
/// timeout after it is cut from the leader.
pub const LAGGING_DELAY_FACTOR: u64 = 2;

/// How long an experiment runs, in milliseconds, and the lagging delay:
/// a partition scenario runs for its partition's duration, plus the
/// lagging delay under a constrained election; the others for
/// `duration_secs`. The lagging delay is 0 but under a constrained election.
pub fn experiment_duration_ms(scenario: NetworkScenario, election_timeout_ms: u64, duration_secs: u64) -> (r: (u64, u64))
    requires
        match scenario {
            NetworkScenario::Chained(d) => d * 1000 <= u64::MAX,
            NetworkScenario::QuorumLoss(d) => d * 1000 <= u64::MAX,
            NetworkScenario::ConstrainedElection(d) => d * 1000 + election_timeout_ms
                / LAGGING_DELAY_FACTOR <= u64::MAX,
            _ => duration_secs * 1000 <= u64::MAX,
        },
    ensures
        r == match scenario {
            NetworkScenario::Chained(d) => ((d * 1000) as u64, 0u64),
            NetworkScenario::QuorumLoss(d) => ((d * 1000) as u64, 0u64),
            NetworkScenario::ConstrainedElection(d) => (
                (d * 1000 + election_timeout_ms / LAGGING_DELAY_FACTOR) as u64,
                election_timeout_ms / LAGGING_DELAY_FACTOR,
            ),
            _ => ((duration_secs * 1000) as u64, 0u64),
        },
{
    match scenario {
        NetworkScenario::Chained(d) => (d * 1000, 0),
        NetworkScenario::QuorumLoss(d) => (d * 1000, 0),
        NetworkScenario::ConstrainedElection(d) => {
            let lagging_delay_ms = election_timeout_ms / LAGGING_DELAY_FACTOR;
            (d * 1000 + lagging_delay_ms, lagging_delay_ms)
        },
        _ => (duration_secs * 1000, 0),
    }
}

/// The short timeout of the client's proposals under a partition: a
/// fraction of the election timeout, at least 25 ms; with no partition, the
/// usual client timeout.
pub fn client_short_timeout_ms(
    scenario: NetworkScenario,
    election_timeout_ms: u64,
    client_timeout_factor: u64,
    client_timeout_ms: u64,
) -> (ms: u64)
    requires
        scenario != NetworkScenario::FullyConnected ==> client_timeout_factor > 0,
    ensures
        ms == (if scenario != NetworkScenario::FullyConnected {
            if election_timeout_ms / client_timeout_factor < 25 {
                25
            } else {
                election_timeout_ms / client_timeout_factor
            }
        } else {
            client_timeout_ms
        }),
{
    if scenario != NetworkScenario::FullyConnected {
        let mut short_timeout_ms = election_timeout_ms / client_timeout_factor;
        if short_timeout_ms < 25 {
            short_timeout_ms = 25;
        }
        short_timeout_ms
    } else {
        client_timeout_ms
    }
}

/// The pids of the initial configuration: `1 ..= num_nodes`.
pub fn initial_config(num_nodes: u64) -> (pids: Vec<u64>)
    requires
        num_nodes < u64::MAX,
    ensures
        pids@.len() == num_nodes,
        forall|i: int| 0 <= i < num_nodes ==> #[trigger] pids@[i] == i + 1,
{
    let mut pids: Vec<u64> = Vec::new();
    let mut p: u64 = 1;
    while p <= num_nodes
        invariant
            1 <= p <= num_nodes + 1,
            num_nodes < u64::MAX,
            pids@.len() == p - 1,
            forall|i: int| 0 <= i < p - 1 ==> #[trigger] pids@[i] == i + 1,
        decreases num_nodes + 1 - p,
    {
        pids.push(p);
        p = p + 1;
    }
    pids
}

/// The name of an experiment: algorithm, nodes, concurrent proposals,
/// duration in whole minutes, reconfiguration, policy, network scenario and
/// election timeout, joined by `,`.
pub open spec fn experiment_name_spec(c: AtomicBroadcastRequest) -> Seq<char> {
    c.algorithm@ + seq![','] + decimal(c.number_of_nodes as nat) + seq![','] + decimal(
        c.concurrent_proposals as nat,
    ) + seq![','] + decimal((c.duration_secs / 60) as nat) + seq!['m', 'i', 'n', ','] + c.reconfiguration@
        + seq![','] + c.reconfig_policy@ + seq![','] + c.network_scenario@ + seq![','] + decimal(
        c.election_timeout_ms as nat,
    ) + seq!['m', 's']
}

/// Names an experiment.
pub fn create_experiment_str(c: &AtomicBroadcastRequest) -> (s: String)
    ensures
        s@ == experiment_name_spec(*c),
{
    let mut out: Vec<char> = Vec::new();
    let a = chars_of(c.algorithm.as_str());
    push_chars(&mut out, a.as_slice());
    out.push(',');
    push_decimal(&mut out, c.number_of_nodes);
    out.push(',');
    push_decimal(&mut out, c.concurrent_proposals);
    out.push(',');
    push_decimal(&mut out, c.duration_secs / 60);
    out.push('m');
    out.push('i');
    out.push('n');
    out.push(',');
    let r = chars_of(c.reconfiguration.as_str());
    push_chars(&mut out, r.as_slice());
    out.push(',');
    let p = chars_of(c.reconfig_policy.as_str());
    push_chars(&mut out, p.as_slice());
    out.push(',');
    let n = chars_of(c.network_scenario.as_str());
    push_chars(&mut out, n.as_slice());
    out.push(',');
    push_decimal(&mut out, c.election_timeout_ms);
    out.push('m');
    out.push('s');
    assert(out@ =~= experiment_name_spec(*c));
    string_of(out.as_slice())
}

/// The leader election a Paxos replica runs with.
#[derive(PartialEq, Eq, Structural, Clone, Copy)]
pub enum LeaderElection {
    BLE,
    VR,
    MultiPaxos,
}

/// The replicated log a client node runs for an algorithm.
#[derive(PartialEq, Eq, Structural, Clone, Copy)]
pub enum ReplicaKind {
    Paxos(LeaderElection),
    MultiPaxos,
    Raft { pv_qc: bool },
}

/// The replica an algorithm names: Paxos with ballot, view-stamped or
/// Multi-Paxos leader election, Multi-Paxos, or Raft with or without
/// pre-vote and check-quorum; `None` for any other name.
pub open spec fn replica_kind_spec(a: Seq<char>) -> Option<ReplicaKind> {
    if a == "paxos"@ {
        Some(ReplicaKind::Paxos(LeaderElection::BLE))
    } else if a == "vr"@ {
        Some(ReplicaKind::Paxos(LeaderElection::VR))
    } else if a == "mple"@ {
        Some(ReplicaKind::Paxos(LeaderElection::MultiPaxos))
    } else if a == "multi-paxos"@ {
        Some(ReplicaKind::MultiPaxos)
    } else if a == "raft"@ {
        Some(ReplicaKind::Raft { pv_qc: false })
    } else if a == "raft_pv_qc"@ {
        Some(ReplicaKind::Raft { pv_qc: true })
    } else {
        None
    }
}

/// The replica a client node runs for `algorithm`.
pub fn replica_kind(algorithm: &str) -> (k: Option<ReplicaKind>)
    ensures
        k == replica_kind_spec(algorithm@),
{
    let a = chars_of(algorithm);
    let s = a.as_slice();
    if is_word(s, "paxos") {
        Some(ReplicaKind::Paxos(LeaderElection::BLE))
    } else if is_word(s, "vr") {
        Some(ReplicaKind::Paxos(LeaderElection::VR))
    } else if is_word(s, "mple") {
        Some(ReplicaKind::Paxos(LeaderElection::MultiPaxos))
    } else if is_word(s, "multi-paxos") {
        Some(ReplicaKind::MultiPaxos)
    } else if is_word(s, "raft") {
        Some(ReplicaKind::Raft { pv_qc: false })
    } else if is_word(s, "raft_pv_qc") {
        Some(ReplicaKind::Raft { pv_qc: true })
    } else {
        None
    }
}

} // verus!
