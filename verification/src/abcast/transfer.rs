//! Reconfiguration in the replicated log: where a client's proposal goes,
//! how a joining node splits the decided sequence of the previous
//! configuration into segments to pull from the continuing nodes, and how
//! the segments it gets back are answered, tracked and put together.
use vstd::prelude::*;
use crate::abcast::partition::{others, without, copy_pids};
use crate::random::random_in_range;

verus! {

/// A range `from .. to` of positions in a decided sequence.
#[derive(PartialEq, Eq, Structural, Clone, Copy)]
pub struct SegmentIndex {
    pub from: u64,
    pub to: u64,
}

impl SegmentIndex {
    pub fn with(from: u64, to: u64) -> (s: SegmentIndex)
        ensures
            s == (SegmentIndex { from, to }),
    {
        SegmentIndex { from, to }
    }
}

/// The entries of one segment of a decided sequence.
pub struct SequenceSegment<T> {
    pub idx: SegmentIndex,
    pub entries: Vec<T>,
}

impl<T> SequenceSegment<T> {
    pub fn with(idx: SegmentIndex, entries: Vec<T>) -> (s: SequenceSegment<T>)
        ensures
            s.idx == idx,
            s.entries@ == entries@,
    {
        SequenceSegment { idx, entries }
    }

    pub fn get_index(&self) -> (i: SegmentIndex)
        ensures
            i == self.idx,
    {
        self.idx
    }

    pub fn get_from_idx(&self) -> (f: u64)
        ensures
            f == self.idx.from,
    {
        self.idx.from
    }

    pub fn get_to_idx(&self) -> (t: u64)
        ensures
            t == self.idx.to,
    {
        self.idx.to
    }
}

/// The length of the decided sequence of a configuration.
#[derive(PartialEq, Eq, Structural, Clone, Copy)]
pub struct SequenceMetaData {
    pub config_id: u32,
    pub len: u64,
}

impl SequenceMetaData {
    pub fn with(config_id: u32, len: u64) -> (m: SequenceMetaData)
        ensures
            m == (SequenceMetaData { config_id, len }),
    {
        SequenceMetaData { config_id, len }
    }
}

/// A node asks for a segment of the decided sequence of a configuration.
#[derive(PartialEq, Eq, Structural, Clone, Copy)]
pub struct SegmentRequest {
    pub config_id: u32,
    pub idx: SegmentIndex,
    pub requestor_pid: u64,
}

impl SegmentRequest {
    pub fn with(config_id: u32, idx: SegmentIndex, requestor_pid: u64) -> (r: SegmentRequest)
        ensures
            r == (SegmentRequest { config_id, idx, requestor_pid }),
    {
        SegmentRequest { config_id, idx, requestor_pid }
    }
}

/// The nodes of a new configuration: those that continue from the previous
/// one, then those that join.
pub struct Reconfig {
    pub continued_nodes: Vec<u64>,
    pub new_nodes: Vec<u64>,
}

impl Reconfig {
    pub fn with(continued_nodes: Vec<u64>, new_nodes: Vec<u64>) -> (r: Reconfig)
        ensures
            r.continued_nodes@ == continued_nodes@,
            r.new_nodes@ == new_nodes@,
    {
        Reconfig { continued_nodes, new_nodes }
    }

    /// The peers of `pid` in the new configuration: every node but `pid`,
    /// the continuing ones first.
    pub fn get_peers_of(&self, pid: u64) -> (peers: Vec<u64>)
        ensures
            peers@ == others(self.continued_nodes@ + self.new_nodes@, pid),
    {
        let mut all = copy_pids(&self.continued_nodes);
        let mut i: usize = 0;
        while i < self.new_nodes.len()
            invariant
                i <= self.new_nodes@.len(),
                all@ == self.continued_nodes@ + self.new_nodes@.take(i as int),
            decreases self.new_nodes@.len() - i,
        {
            all.push(self.new_nodes[i]);
            i = i + 1;
            proof {
                assert(all@ =~= self.continued_nodes@ + self.new_nodes@.take(i as int));
            }
        }
        assert(self.new_nodes@.take(self.new_nodes@.len() as int) =~= self.new_nodes@);
        without(&all, pid)
    }
}

/// The state of the current configuration at a node: its id, its leader
/// (0 where none is known) and whether a reconfiguration is under way.
#[derive(PartialEq, Eq, Structural, Clone, Copy)]
pub struct ConfigMeta {
    pub id: u32,
    pub leader: u64,
    pub pending_reconfig: bool,
}

impl ConfigMeta {
    pub fn new(id: u32) -> (c: ConfigMeta)
        ensures
            c == (ConfigMeta { id, leader: 0, pending_reconfig: false }),
    {
        ConfigMeta { id, leader: 0, pending_reconfig: false }
    }
}

/// Where a proposal from the client goes.
#[derive(PartialEq, Eq, Structural, Clone, Copy)]
pub enum ProposalRoute {
    /// The node has stopped: the proposal is dropped.
    Drop,
    /// The node left the configuration: back to the client.
    ToClient,
    /// Held back until a leader is known and no reconfiguration is pending.
    HoldBack,
    /// This node leads: it proposes it.
    Propose,
    /// To the leader with this pid.
    ForwardTo(u64),
}

/// Routes a client's proposal arriving at node `pid`.
pub fn route_proposal(stopped: bool, removed: bool, config: ConfigMeta, pid: u64) -> (r: ProposalRoute)
    ensures
        r == (if stopped {
            ProposalRoute::Drop
        } else if removed {
            ProposalRoute::ToClient
        } else if config.pending_reconfig || config.leader == 0 {
            ProposalRoute::HoldBack
        } else if config.leader == pid {
            ProposalRoute::Propose
        } else {
            ProposalRoute::ForwardTo(config.leader)
        }),
{
    if stopped {
        ProposalRoute::Drop
    } else if removed {
        ProposalRoute::ToClient
    } else if config.pending_reconfig || config.leader == 0 {
        ProposalRoute::HoldBack
    } else if config.leader == pid {
        ProposalRoute::Propose
    } else {
        ProposalRoute::ForwardTo(config.leader)
    }
}

/// The segment pulled from the `i`-th of `n` nodes of a sequence of
/// `seq_len` entries: `seq_len / n` entries from `i * (seq_len / n)`.
pub open spec fn segment_of(seq_len: u64, n: nat, i: int) -> SegmentIndex {
    let offset = seq_len as int / n as int;
    SegmentIndex { from: (i * offset) as u64, to: (i * offset + offset) as u64 }
}

proof fn lemma_segment_bound(seq_len: u64, n: nat, i: int)
    requires
        n > 0,
        0 <= i < n,
    ensures
        0 <= i * (seq_len as int / n as int),
        i * (seq_len as int / n as int) + seq_len as int / n as int <= seq_len,
{
    let offset = seq_len as int / n as int;
    assert(0 <= offset) by (nonlinear_arith)
        requires
            n > 0,
            offset == seq_len as int / n as int,
            seq_len >= 0,
    ;
    assert(n * offset <= seq_len) by (nonlinear_arith)
        requires
            n > 0,
            offset == seq_len as int / n as int,
            seq_len >= 0,
    ;
    assert(0 <= i * offset && i * offset + offset <= n * offset) by (nonlinear_arith)
        requires
            0 <= i < n,
            0 <= offset,
    ;
}

/// Splits a sequence of `seq_len` entries among `from_nodes`: the `i`-th
/// node is asked for the `i`-th segment.
pub fn get_node_segment_idx(seq_len: u64, from_nodes: &Vec<u64>) -> (idx: Vec<(u64, SegmentIndex)>)
    requires
        from_nodes@.len() > 0,
    ensures
        idx@.len() == from_nodes@.len(),
        forall|i: int|
            0 <= i < idx@.len() ==> #[trigger] idx@[i] == (
                from_nodes@[i],
                segment_of(seq_len, from_nodes@.len(), i),
            ),
{
    let n = from_nodes.len() as u64;
    let offset = seq_len / n;
    let mut idx: Vec<(u64, SegmentIndex)> = Vec::new();
    let mut i: usize = 0;
    while i < from_nodes.len()
        invariant
            i <= from_nodes@.len(),
            n == from_nodes@.len(),
            n > 0,
            offset == seq_len as int / n as int,
            idx@.len() == i,
            forall|k: int|
                0 <= k < i ==> #[trigger] idx@[k] == (
                    from_nodes@[k],
                    segment_of(seq_len, from_nodes@.len(), k),
                ),
        decreases from_nodes@.len() - i,
    {
        proof {
            lemma_segment_bound(seq_len, from_nodes@.len(), i as int);
        }
        let from_idx = i as u64 * offset;
        let to_idx = if from_idx + offset > seq_len {
            seq_len
        } else {
            from_idx + offset
        };
        idx.push((from_nodes[i], SegmentIndex::with(from_idx, to_idx)));
        i = i + 1;
    }
    idx
}

/// The peer asked again for the `i`-th still missing segment: the ready
/// peers are taken from the last one backwards, round and round.
pub open spec fn retry_peer_index(i: int, n: int) -> int {
    if i < n {
        n - 1 - i
    } else {
        n - 1 - i % n
    }
}

/// The segment requests sent again for the segments of `config_id` still
/// missing, each to a peer known to have decided that sequence.
pub fn retry_requests(config_id: u32, remaining: &Vec<SegmentIndex>, ready_peers: &Vec<u64>, pid: u64) -> (reqs: Vec<(u64, SegmentRequest)>)
    requires
        remaining@.len() > 0 ==> ready_peers@.len() > 0,
    ensures
        reqs@.len() == remaining@.len(),
        forall|i: int|
            0 <= i < reqs@.len() ==> #[trigger] reqs@[i] == (
                ready_peers@[retry_peer_index(i, ready_peers@.len() as int)],
                SegmentRequest { config_id, idx: remaining@[i], requestor_pid: pid },
            ),
{
    let num_active = ready_peers.len();
    let mut reqs: Vec<(u64, SegmentRequest)> = Vec::new();
    let mut i: usize = 0;
    while i < remaining.len()
        invariant
            i <= remaining@.len(),
            num_active == ready_peers@.len(),
            remaining@.len() > 0 ==> num_active > 0,
            reqs@.len() == i,
            forall|k: int|
                0 <= k < i ==> #[trigger] reqs@[k] == (
                    ready_peers@[retry_peer_index(k, num_active as int)],
                    SegmentRequest { config_id, idx: remaining@[k], requestor_pid: pid },
                ),
        decreases remaining@.len() - i,
    {
        let idx = if i < num_active {
            num_active - 1 - i
        } else {
            num_active - 1 - (i % num_active)
        };
        reqs.push((ready_peers[idx], SegmentRequest::with(config_id, remaining[i], pid)));
        i = i + 1;
    }
    reqs
}

/// The missing segments once `idx` has come: every other one, in order.
pub fn remove_segment(pending: &Vec<SegmentIndex>, idx: SegmentIndex) -> (rest: Vec<SegmentIndex>)
    ensures
        rest@ == pending@.filter(|s: SegmentIndex| s != idx),
{
    let mut rest: Vec<SegmentIndex> = Vec::new();
    let mut i: usize = 0;
    while i < pending.len()
        invariant
            i <= pending@.len(),
            rest@ == pending@.take(i as int).filter(|s: SegmentIndex| s != idx),
        decreases pending@.len() - i,
    {
        proof {
            assert(pending@.take(i + 1).drop_last() =~= pending@.take(i as int));
            reveal(Seq::filter);
        }
        if pending[i] != idx {
            rest.push(pending[i]);
        }
        i = i + 1;
    }
    assert(pending@.take(pending@.len() as int) =~= pending@);
    rest
}

/// Whether a segment need not be taken: it came already (`received` holds
/// the indices of those that came for its configuration), its
/// configuration is active or past, or its whole sequence is known.
pub fn has_handled_segment(
    received: &Vec<SegmentIndex>,
    active_config_id: u32,
    sequence_known: bool,
    config_id: u32,
    idx: SegmentIndex,
) -> (handled: bool)
    ensures
        handled == (received@.contains(idx) || active_config_id >= config_id || sequence_known),
{
    let mut found = false;
    let mut i: usize = 0;
    while i < received.len()
        invariant
            i <= received@.len(),
            found == exists|k: int| 0 <= k < i && received@[k] == idx,
        decreases received@.len() - i,
    {
        if received[i] == idx {
            found = true;
        }
        i = i + 1;
    }
    found || active_config_id >= config_id || sequence_known
}

/// How a segment request is answered.
#[derive(PartialEq, Eq, Structural, Clone, Copy)]
pub enum SegmentReply {
    /// Not at all: it comes from the leader or was answered before.
    Ignore,
    /// By the entries `idx.from .. idx.to` of the known sequence
    /// (`succeeded`), or with nothing; `metadata` describes the sequence of
    /// the configuration before, and a successful answer is remembered.
    Reply { succeeded: bool, metadata: SequenceMetaData },
    /// By the replica of the active configuration, which may still hold the
    /// entries; `metadata` as above.
    Delegate { metadata: SequenceMetaData },
}

/// Whether `sr` is among the requests answered before.
pub fn was_answered(answered: &Vec<SegmentRequest>, sr: SegmentRequest) -> (found: bool)
    ensures
        found == answered@.contains(sr),
{
    let mut found = false;
    let mut i: usize = 0;
    while i < answered.len()
        invariant
            i <= answered@.len(),
            found == exists|k: int| 0 <= k < i && answered@[k] == sr,
        decreases answered@.len() - i,
    {
        if answered[i] == sr {
            found = true;
        }
        i = i + 1;
    }
    found
}

/// Answers a segment request. `requested_len` is the length of the known
/// sequence of the requested configuration (`None` where it is not known
/// yet) and `prev_len` that of the configuration before it (0 where unknown).
pub fn answer_segment_request(
    sr: SegmentRequest,
    active: ConfigMeta,
    answered: &Vec<SegmentRequest>,
    requested_len: Option<u64>,
    prev_len: u64,
) -> (reply: SegmentReply)
    requires
        !(active.leader == sr.requestor_pid || answered@.contains(sr)) ==> sr.config_id >= 1,
    ensures
        reply == (if active.leader == sr.requestor_pid || answered@.contains(sr) {
            SegmentReply::Ignore
        } else {
            let metadata = SequenceMetaData { config_id: (sr.config_id - 1) as u32, len: prev_len };
            match requested_len {
                Some(_) => SegmentReply::Reply { succeeded: true, metadata },
                None => if active.id == sr.config_id {
                    SegmentReply::Delegate { metadata }
                } else {
                    SegmentReply::Reply { succeeded: false, metadata }
                },
            }
        }),
{
    if active.leader == sr.requestor_pid || was_answered(answered, sr) {
        return SegmentReply::Ignore;
    }
    let metadata = SequenceMetaData::with(sr.config_id - 1, prev_len);
    match requested_len {
        Some(_) => SegmentReply::Reply { succeeded: true, metadata },
        None => {
            if active.id == sr.config_id {
                SegmentReply::Delegate { metadata }
            } else {
                SegmentReply::Reply { succeeded: false, metadata }
            }
        },
    }
}

/// Whether `pid` is one of `pids`.
pub fn has_pid(pids: &Vec<u64>, pid: u64) -> (found: bool)
    ensures
        found == pids@.contains(pid),
{
    let mut found = false;
    let mut i: usize = 0;
    while i < pids.len()
        invariant
            i <= pids@.len(),
            found == exists|k: int| 0 <= k < i && pids@[k] == pid,
        decreases pids@.len() - i,
    {
        if pids[i] == pid {
            found = true;
        }
        i = i + 1;
    }
    found
}

/// What a node does with a segment that came for configuration `config_id`.
pub struct TransferStep {
    /// The sequence of the configuration before, to pull too.
    pub pull_previous: Option<SequenceMetaData>,
    /// The segment holds its entries and is kept.
    pub take: bool,
    /// The segment was refused: it is asked again from this peer.
    pub ask_again: Option<(u64, SegmentRequest)>,
}

/// Handles a segment transfer at node `pid`. `already_handled` says whether
/// the segment need not be taken (see [`has_handled_segment`]),
/// `previous_known` whether the sequence that `metadata` describes is known
/// or being pulled. A refused segment is asked again from a ready peer drawn
/// at random; with no ready peer the retry timer will ask again.
pub fn on_segment_transfer(
    config_id: u32,
    succeeded: bool,
    idx: SegmentIndex,
    metadata: SequenceMetaData,
    already_handled: bool,
    previous_known: bool,
    ready_peers: &Vec<u64>,
    pid: u64,
) -> (step: TransferStep)
    ensures
        already_handled ==> step.pull_previous is None && !step.take && step.ask_again is None,
        !already_handled ==> {
            &&& step.pull_previous == (if metadata.config_id != 0 && !previous_known {
                Some(metadata)
            } else {
                None
            })
            &&& step.take == succeeded
            &&& (succeeded || ready_peers@.len() == 0) ==> step.ask_again is None
            &&& (!succeeded && ready_peers@.len() > 0) ==> (step.ask_again matches Some((p, req))
                && ready_peers@.contains(p) && req == SegmentRequest {
                config_id,
                idx,
                requestor_pid: pid,
            })
        },
{
    if already_handled {
        return TransferStep { pull_previous: None, take: false, ask_again: None };
    }
    let pull_previous = if metadata.config_id != 0 && !previous_known {
        Some(metadata)
    } else {
        None
    };
    if succeeded {
        return TransferStep { pull_previous, take: true, ask_again: None };
    }
    let num_active = ready_peers.len();
    if num_active > 0 {
        let rnd = random_in_range(0, num_active as u64) as usize;
        let peer = ready_peers[rnd];
        assert(ready_peers@[rnd as int] == peer);
        TransferStep {
            pull_previous,
            take: false,
            ask_again: Some((peer, SegmentRequest::with(config_id, idx, pid))),
        }
    } else {
        TransferStep { pull_previous, take: false, ask_again: None }
    }
}

/// What a node does when told of a new configuration.
pub enum InitStep {
    /// It has stopped: it tells these nodes so.
    NotifyStop(Vec<u64>),
    /// Nothing: the configuration is not newer, or is known already.
    Ignore,
    /// The sender is known to have decided the sequence before the next
    /// configuration.
    ReadyPeer(u64),
    /// It joins the configuration: with these peers; the sender is ready
    /// where it continues; it starts at once where the sequence before holds
    /// only the stop sign of the first configuration, else it pulls that
    /// sequence from the continuing nodes.
    Join { peers: Vec<u64>, ready_peer: Option<u64>, start_now: bool, pull: Option<(SequenceMetaData, Vec<u64>)> },
}

/// Handles the announcement of configuration `config_id` at node `pid`.
pub fn on_reconfig_init(
    stopped: bool,
    active_config_id: u32,
    next_config_id: Option<u32>,
    pid: u64,
    config_id: u32,
    nodes: &Reconfig,
    seq_metadata: SequenceMetaData,
    from: u64,
) -> (step: InitStep)
    ensures
        stopped ==> (step matches InitStep::NotifyStop(peers) && peers@ == nodes.continued_nodes@
            + nodes.new_nodes@),
        !stopped && active_config_id >= config_id ==> step is Ignore,
        !stopped && active_config_id < config_id && next_config_id is Some ==> (if next_config_id
            == Some(config_id) && nodes.continued_nodes@.contains(from) {
            step == InitStep::ReadyPeer(from)
        } else {
            step is Ignore
        }),
        !stopped && active_config_id < config_id && next_config_id is None ==> ({
            let start_now = seq_metadata.len == 1 && seq_metadata.config_id == 1;
            step matches InitStep::Join { peers, ready_peer, start_now: s, pull } && peers@ == others(
                nodes.continued_nodes@ + nodes.new_nodes@,
                pid,
            ) && ready_peer == (if nodes.continued_nodes@.contains(from) {
                Some(from)
            } else {
                None
            }) && s == start_now && (start_now ==> pull is None) && (!start_now ==> (pull matches Some(
                (m, f),
            ) && m == seq_metadata && f@ == nodes.continued_nodes@))
        }),
{
    if stopped {
        let mut all = copy_pids(&nodes.continued_nodes);
        let mut extra = copy_pids(&nodes.new_nodes);
        all.append(&mut extra);
        return InitStep::NotifyStop(all);
    }
    if active_config_id >= config_id {
        return InitStep::Ignore;
    }
    match next_config_id {
        None => {
            let peers = nodes.get_peers_of(pid);
            let ready_peer = if has_pid(&nodes.continued_nodes, from) {
                Some(from)
            } else {
                None
            };
            let start_now = seq_metadata.len == 1 && seq_metadata.config_id == 1;
            let pull = if start_now {
                None
            } else {
                Some((seq_metadata, copy_pids(&nodes.continued_nodes)))
            };
            InitStep::Join { peers, ready_peer, start_now, pull }
        },
        Some(next) => {
            if next == config_id && has_pid(&nodes.continued_nodes, from) {
                InitStep::ReadyPeer(from)
            } else {
                InitStep::Ignore
            }
        },
    }
}

/// The entries of `segs`, one segment after the other.
pub open spec fn flatten<T>(segs: Seq<SequenceSegment<T>>) -> Seq<T>
    decreases segs.len(),
{
    if segs.len() == 0 {
        Seq::empty()
    } else {
        segs[0].entries@ + flatten(segs.skip(1))
    }
}

/// The segments begin in order.
pub open spec fn sorted_by_from<T>(segs: Seq<SequenceSegment<T>>) -> bool {
    forall|a: int, b: int| 0 <= a < b < segs.len() ==> segs[a].idx.from <= segs[b].idx.from
}

/// `perm` puts `0 .. n` in some order.
pub open spec fn is_permutation(perm: Seq<int>, n: nat) -> bool {
    &&& perm.len() == n
    &&& forall|k: int| 0 <= k < n ==> 0 <= #[trigger] perm[k] < n
    &&& forall|a: int, b: int| 0 <= a < b < n ==> perm[a] != perm[b]
}

/// The segments in the order that `perm` gives.
pub open spec fn arrange<T>(segs: Seq<SequenceSegment<T>>, perm: Seq<int>) -> Seq<SequenceSegment<T>> {
    perm.map_values(|j: int| segs[j])
}

/// The decided sequence of a configuration, once all its segments came:
/// the segments are put in the order in which they begin (those that begin
/// at the same place in the order in which they came) and their entries
/// joined.
pub fn assemble_sequence<T>(segments: Vec<SequenceSegment<T>>) -> (sequence: Vec<T>)
    ensures
        exists|perm: Seq<int>|
            #![trigger arrange(segments@, perm)]
            is_permutation(perm, segments@.len()) && sorted_by_from(arrange(segments@, perm))
                && sequence@ == flatten(arrange(segments@, perm)),
{
    let ghost orig = segments@;
    let mut input = segments;
    let mut sorted: Vec<SequenceSegment<T>> = Vec::new();
    let ghost mut perm: Seq<int> = Seq::empty();
    let n = input.len();
    let mut i: usize = 0;
    while i < n
        invariant
            i <= n,
            n == orig.len(),
            input@ == orig.skip(i as int),
            perm.len() == i,
            forall|k: int| 0 <= k < i ==> 0 <= #[trigger] perm[k] < i,
            forall|a: int, b: int| 0 <= a < b < i ==> perm[a] != perm[b],
            sorted@ == arrange(orig, perm),
            sorted_by_from(sorted@),
        decreases n - i,
    {
        let seg = input.remove(0);
        assert(seg == orig[i as int]);
        assert(input@ =~= orig.skip(i + 1));
        let mut pos: usize = 0;
        while pos < sorted.len() && sorted[pos].idx.from <= seg.idx.from
            invariant
                pos <= sorted@.len(),
                forall|a: int| 0 <= a < pos ==> sorted@[a].idx.from <= seg.idx.from,
            decreases sorted@.len() - pos,
        {
            pos = pos + 1;
        }
        let ghost before = sorted@;
        let ghost from = seg.idx.from;
        proof {
            assert forall|a: int| pos <= a < before.len() implies before[a].idx.from > from by {
                assert(before[pos as int].idx.from > from);
            }
        }
        sorted.insert(pos, seg);
        proof {
            let old_perm = perm;
            perm = old_perm.insert(pos as int, i as int);
            assert(sorted@ =~= arrange(orig, perm));
            assert forall|a: int, b: int| 0 <= a < b < sorted@.len() implies sorted@[a].idx.from
                <= sorted@[b].idx.from by {
                if b < pos {
                } else if b == pos {
                } else if a < pos {
                    assert(before[a].idx.from <= from);
                } else if a == pos {
                } else {
                    assert(sorted@[a] == before[a - 1]);
                    assert(sorted@[b] == before[b - 1]);
                }
            }
            assert forall|k: int| 0 <= k < i + 1 implies 0 <= #[trigger] perm[k] < i + 1 by {
                if k < pos {
                    assert(perm[k] == old_perm[k]);
                } else if k > pos {
                    assert(perm[k] == old_perm[k - 1]);
                }
            }
            assert forall|a: int, b: int| 0 <= a < b < i + 1 implies perm[a] != perm[b] by {
                if a < pos && b < pos {
                } else if a < pos && b == pos {
                    assert(old_perm[a] < i);
                } else if a < pos {
                    assert(perm[b] == old_perm[b - 1]);
                } else if a == pos {
                    assert(perm[b] == old_perm[b - 1]);
                    assert(old_perm[b - 1] < i);
                } else {
                    assert(perm[a] == old_perm[a - 1]);
                    assert(perm[b] == old_perm[b - 1]);
                }
            }
        }
        i = i + 1;
    }
    let ghost full = sorted@;
    let mut sequence: Vec<T> = Vec::new();
    let mut rest = sorted;
    while rest.len() > 0
        invariant
            sequence@ + flatten(rest@) == flatten(full),
        decreases rest@.len(),
    {
        let ghost r = rest@;
        let mut seg = rest.remove(0);
        proof {
            assert(rest@ =~= r.skip(1));
            assert(sequence@ + seg.entries@ + flatten(rest@) =~= sequence@ + flatten(r));
        }
        sequence.append(&mut seg.entries);
    }
    proof {
        assert(sequence@ =~= sequence@ + flatten(rest@));
        assert(is_permutation(perm, orig.len()));
    }
    sequence
}

/// What a node does when a leader is elected in one of its configurations.
#[derive(PartialEq, Eq, Structural, Clone, Copy)]
pub struct LeaderStep {
    /// The active configuration after the election.
    pub config: ConfigMeta,
    /// This node now leads and tells the client so.
    pub notify_client: bool,
    /// This node now leads and proposes the proposals it held back.
    pub propose_held_back: bool,
    /// Another node leads: the held-back proposals go to it.
    pub forward_held_back_to: Option<u64>,
}

/// Handles the election of `leader` in configuration `config_id` at node
/// `pid`. Only an election in the active configuration counts. A node that
/// becomes leader tells the client where no leader was known before, or
/// always where `always_notify` (under network partitions).
pub fn on_leader(
    active: ConfigMeta,
    config_id: u32,
    leader: u64,
    pid: u64,
    held_back: bool,
    always_notify: bool,
) -> (step: LeaderStep)
    ensures
        active.id != config_id ==> step == (LeaderStep {
            config: active,
            notify_client: false,
            propose_held_back: false,
            forward_held_back_to: None,
        }),
        active.id == config_id ==> step == (LeaderStep {
            config: ConfigMeta { leader, ..active },
            notify_client: leader == pid && (active.leader == 0 || always_notify),
            propose_held_back: leader == pid,
            forward_held_back_to: if leader != pid && held_back {
                Some(leader)
            } else {
                None
            },
        }),
{
    if active.id != config_id {
        return LeaderStep {
            config: active,
            notify_client: false,
            propose_held_back: false,
            forward_held_back_to: None,
        };
    }
    let config = ConfigMeta { leader, ..active };
    if leader == pid {
        LeaderStep {
            config,
            notify_client: active.leader == 0 || always_notify,
            propose_held_back: true,
            forward_held_back_to: None,
        }
    } else {
        LeaderStep {
            config,
            notify_client: false,
            propose_held_back: false,
            forward_held_back_to: if held_back {
                Some(leader)
            } else {
                None
            },
        }
    }
}

/// What a node does when its active configuration decided to reconfigure.
pub struct FinalStep {
    /// The decided sequence of the configuration that ended.
    pub metadata: SequenceMetaData,
    /// The node continues: it starts its replica of the new configuration
    /// with these peers and tells each new node of the configuration.
    pub continued: bool,
    pub peers: Vec<u64>,
    pub notify: Vec<u64>,
    /// Where the held-back proposals go, if any are held back.
    pub forward_held_back_to: Option<u64>,
}

/// Handles the end of the active configuration `active_config_id`, whose
/// decided sequence has `final_len` entries, at node `pid`. The held-back
/// proposals go to the leader named for the new configuration, else to its
/// first continuing node, else to its first new node.
pub fn on_final_sequence(
    pid: u64,
    active_config_id: u32,
    final_len: u64,
    nodes: &Reconfig,
    skip_prepare_leader: Option<u64>,
    held_back: bool,
) -> (step: FinalStep)
    requires
        held_back && skip_prepare_leader is None && nodes.continued_nodes@.len() == 0 ==> nodes.new_nodes@.len()
            > 0,
    ensures
        step.metadata == (SequenceMetaData { config_id: active_config_id, len: final_len }),
        step.continued == nodes.continued_nodes@.contains(pid),
        step.continued ==> step.peers@ == others(nodes.continued_nodes@ + nodes.new_nodes@, pid)
            && step.notify@ == nodes.new_nodes@,
        !step.continued ==> step.peers@.len() == 0 && step.notify@.len() == 0,
        step.forward_held_back_to == (if !held_back {
            None
        } else {
            match skip_prepare_leader {
                Some(l) => Some(l),
                None => if nodes.continued_nodes@.len() > 0 {
                    Some(nodes.continued_nodes@[0])
                } else {
                    Some(nodes.new_nodes@[0])
                },
            }
        }),
{
    let metadata = SequenceMetaData::with(active_config_id, final_len);
    let continued = has_pid(&nodes.continued_nodes, pid);
    let (peers, notify) = if continued {
        (nodes.get_peers_of(pid), copy_pids(&nodes.new_nodes))
    } else {
        (Vec::new(), Vec::new())
    };
    let forward_held_back_to = if !held_back {
        None
    } else {
        match skip_prepare_leader {
            Some(l) => Some(l),
            None => if nodes.continued_nodes.len() > 0 {
                Some(nodes.continued_nodes[0])
            } else {
                Some(nodes.new_nodes[0])
            },
        }
    };
    FinalStep { metadata, continued, peers, notify, forward_held_back_to }
}

/// When the client stops a node before the replica of its next
/// configuration started (the active configuration is before the last of
/// its `num_configs` replicas), that replica is started so that it can
/// stop too: the first one where none is active, else the last.
pub fn replica_to_start_on_stop(active_config_id: u32, num_configs: u32, first_config_id: u32) -> (r: Option<u32>)
    ensures
        r == (if active_config_id < num_configs {
            Some(
                if active_config_id == 0 {
                    first_config_id
                } else {
                    num_configs
                },
            )
        } else {
            None
        }),
{
    if active_config_id < num_configs {
        Some(
            if active_config_id == 0 {
                first_config_id
            } else {
                num_configs
            },
        )
    } else {
        None
    }
}

/// The segments pulled from `n` nodes follow one another from the start of
/// the sequence: each begins where the one before ends, and the last ends
/// at `n * (seq_len / n)`, the end of the sequence where `n` divides it.
pub proof fn lemma_segments_contiguous(seq_len: u64, n: nat)
    requires
        n > 0,
    ensures
        segment_of(seq_len, n, 0).from == 0,
        forall|i: int|
            0 <= i < n - 1 ==> (#[trigger] segment_of(seq_len, n, i)).to == segment_of(
                seq_len,
                n,
                i + 1,
            ).from,
        forall|i: int| 0 <= i < n ==> (#[trigger] segment_of(seq_len, n, i)).from <= segment_of(seq_len, n, i).to <= seq_len,
        segment_of(seq_len, n, n - 1).to == n * (seq_len as int / n as int),
        (seq_len as int) % (n as int) == 0 ==> segment_of(seq_len, n, n - 1).to == seq_len,
{
    let offset = seq_len as int / n as int;
    assert forall|i: int| 0 <= i < n - 1 implies (#[trigger] segment_of(seq_len, n, i)).to == segment_of(
        seq_len,
        n,
        i + 1,
    ).from by {
        lemma_segment_bound(seq_len, n, i);
        lemma_segment_bound(seq_len, n, i + 1);
        assert(i * offset + offset == (i + 1) * offset) by (nonlinear_arith);
    }
    assert forall|i: int| 0 <= i < n implies (#[trigger] segment_of(seq_len, n, i)).from <= segment_of(seq_len, n, i).to <= seq_len by {
        lemma_segment_bound(seq_len, n, i);
    }
    lemma_segment_bound(seq_len, n, n - 1);
    assert((n - 1) * offset + offset == n * offset) by (nonlinear_arith);
    assert((seq_len as int) % (n as int) == 0 ==> n * offset == seq_len) by (nonlinear_arith)
        requires
            n > 0,
            offset == seq_len as int / n as int,
    ;
}

/// Once the sequence of a configuration is put together, the node starts
/// the replica of its next configuration where it knows the sequences of
/// every configuration before that one.
pub fn all_sequences_known(num_known_sequences: usize, next_config_id: u32) -> (ready: bool)
    ensures
        ready == (num_known_sequences + 1 == next_config_id),
{
    next_config_id > 0 && num_known_sequences as u64 == (next_config_id - 1) as u64
}

} // verus!
