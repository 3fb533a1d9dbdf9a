//! A linearizability test for histories of reads and writes on a
//! key-value store: each key's history, ordered by time, must be explainable
//! by some order of its operations that respects invocation order and in
//! which every read returns the latest write (the store starts at 0).
use vstd::prelude::*;
use itertools::Itertools;

verus! {

#[derive(Clone, Copy, PartialEq, Eq, Structural)]
pub enum KVOperation {
    ReadInvokation,
    ReadResponse,
    WriteInvokation,
    WriteResponse,
}

/// One event of a history: an invocation or response of a read or write.
#[derive(Clone, Copy)]
pub struct KVTimestamp {
    pub key: u64,
    pub operation: KVOperation,
    pub value: Option<u32>,
    pub time: i64,
    pub sender: u32,
}

pub open spec fn is_invocation(op: KVOperation) -> bool {
    op is ReadInvokation || op is WriteInvokation
}

/// The end of the run of invocations that starts at `i`.
pub open spec fn invocations_end(h: Seq<KVTimestamp>, i: int) -> int
    decreases h.len() - i,
{
    if i < 0 || i >= h.len() || !is_invocation(h[i].operation) {
        i
    } else {
        invocations_end(h, i + 1)
    }
}

/// The operations that may take effect first: the invocations before the first response.
pub open spec fn minimal_ops(h: Seq<KVTimestamp>) -> Seq<KVTimestamp> {
    h.take(invocations_end(h, 0))
}

/// The value of the first read response of `sender` from position `i` on.
pub open spec fn read_response(h: Seq<KVTimestamp>, sender: u32, i: int) -> Option<u32>
    decreases h.len() - i,
{
    if i < 0 || i >= h.len() {
        None
    } else if h[i].operation == KVOperation::ReadResponse && h[i].sender == sender {
        h[i].value
    } else {
        read_response(h, sender, i + 1)
    }
}

/// The value an invocation reads or writes: a read's comes from its
/// response, a write's is its own.
pub open spec fn response_value(op: KVTimestamp, h: Seq<KVTimestamp>) -> Option<u32> {
    if op.operation == KVOperation::ReadInvokation {
        read_response(h, op.sender, 0)
    } else {
        op.value
    }
}

/// The history without the events of `sender`.
pub open spec fn remove_sender(h: Seq<KVTimestamp>, sender: u32) -> Seq<KVTimestamp>
    decreases h.len(),
{
    if h.len() == 0 {
        h
    } else {
        let r = remove_sender(h.drop_last(), sender);
        if h.last().sender == sender {
            r
        } else {
            r.push(h.last())
        }
    }
}

pub proof fn lemma_remove_sender_len(h: Seq<KVTimestamp>, sender: u32, j: int)
    requires
        0 <= j < h.len(),
        h[j].sender == sender,
    ensures
        remove_sender(h, sender).len() < h.len(),
    decreases h.len(),
{
    lemma_remove_sender_le(h.drop_last(), sender);
    if j < h.len() - 1 {
        lemma_remove_sender_len(h.drop_last(), sender, j);
    }
}

pub proof fn lemma_remove_sender_le(h: Seq<KVTimestamp>, sender: u32)
    ensures
        remove_sender(h, sender).len() <= h.len(),
    decreases h.len(),
{
    if h.len() > 0 {
        lemma_remove_sender_le(h.drop_last(), sender);
    }
}

pub proof fn lemma_invocations_end(h: Seq<KVTimestamp>, i: int)
    requires
        0 <= i <= h.len(),
    ensures
        i <= invocations_end(h, i) <= h.len(),
        forall|k: int| i <= k < invocations_end(h, i) ==> is_invocation(#[trigger] h[k].operation),
        invocations_end(h, i) < h.len() ==> !is_invocation(h[invocations_end(h, i)].operation),
    decreases h.len() - i,
{
    if i < h.len() && is_invocation(h[i].operation) {
        lemma_invocations_end(h, i + 1);
    }
}

/// Whether the history `h` is linearizable from the store state `s` (its
/// last value is the current one); `None` where checking it meets an
/// invocation whose value is unknown. The minimal operations are tried in
/// order, the first that works decides. What this search decides, said
/// directly, is in `crate::linearization`.
pub open spec fn linearizable(h: Seq<KVTimestamp>, s: Seq<u32>) -> Option<bool>
    decreases h.len(), 1int, 0int,
{
    if h.len() == 0 {
        Some(true)
    } else {
        linearizable_from(h, s, 0)
    }
}

/// Trying the minimal operations of `h` from the `i`-th on.
pub open spec fn linearizable_from(h: Seq<KVTimestamp>, s: Seq<u32>, i: int) -> Option<bool>
    decreases h.len(), 0int, invocations_end(h, 0) - i,
{
    if i < 0 || i >= invocations_end(h, 0) {
        Some(false)
    } else {
        proof {
            lemma_invocations_end(h, 0);
            lemma_remove_sender_len(h, h[i].sender, i);
        }
        let op = h[i];
        match response_value(op, h) {
            None => None,
            Some(v) => {
                let rest = remove_sender(h, op.sender);
                if op.operation == KVOperation::WriteInvokation || op.operation
                    == KVOperation::WriteResponse {
                    match linearizable(rest, s.push(v)) {
                        None => None,
                        Some(true) => Some(true),
                        Some(false) => linearizable_from(h, s, i + 1),
                    }
                } else if s.last() == v {
                    match linearizable(rest, s) {
                        None => None,
                        Some(true) => Some(true),
                        Some(false) => linearizable_from(h, s, i + 1),
                    }
                } else {
                    linearizable_from(h, s, i + 1)
                }
            },
        }
    }
}

/// The values written, in their order, along the linearization that
/// `linearizable` finds for `h` from `s`: the values a successful check
/// pushes onto the store state.
pub open spec fn linearization_writes(h: Seq<KVTimestamp>, s: Seq<u32>) -> Seq<u32>
    decreases h.len(), 1int, 0int,
{
    if h.len() == 0 {
        Seq::empty()
    } else {
        linearization_writes_from(h, s, 0)
    }
}

/// The written values along the linearization found from the `i`-th
/// minimal operation on.
pub open spec fn linearization_writes_from(h: Seq<KVTimestamp>, s: Seq<u32>, i: int) -> Seq<u32>
    decreases h.len(), 0int, invocations_end(h, 0) - i,
{
    if i < 0 || i >= invocations_end(h, 0) {
        Seq::empty()
    } else {
        proof {
            lemma_invocations_end(h, 0);
            lemma_remove_sender_len(h, h[i].sender, i);
        }
        let op = h[i];
        match response_value(op, h) {
            None => Seq::empty(),
            Some(v) => {
                let rest = remove_sender(h, op.sender);
                if op.operation == KVOperation::WriteInvokation || op.operation
                    == KVOperation::WriteResponse {
                    if linearizable(rest, s.push(v)) == Some(true) {
                        seq![v] + linearization_writes(rest, s.push(v))
                    } else {
                        linearization_writes_from(h, s, i + 1)
                    }
                } else if s.last() == v && linearizable(rest, s) == Some(true) {
                    linearization_writes(rest, s)
                } else {
                    linearization_writes_from(h, s, i + 1)
                }
            },
        }
    }
}

/// The operations that may take effect first.
pub fn get_minimal_ops(trace: &Vec<KVTimestamp>) -> (ops: Vec<KVTimestamp>)
    ensures
        ops@ == minimal_ops(trace@),
{
    let ghost h = trace@;
    proof {
        lemma_invocations_end(h, 0);
    }
    let mut ops: Vec<KVTimestamp> = Vec::new();
    let mut i: usize = 0;
    while i < trace.len()
        invariant
            h == trace@,
            0 <= i <= invocations_end(h, 0) <= h.len(),
            forall|k: int| 0 <= k < invocations_end(h, 0) ==> is_invocation(#[trigger] h[k].operation),
            invocations_end(h, 0) < h.len() ==> !is_invocation(h[invocations_end(h, 0)].operation),
            ops@ == h.take(i as int),
        ensures
            i == invocations_end(h, 0),
            ops@ == h.take(i as int),
        decreases h.len() - i,
    {
        match trace[i].operation {
            KVOperation::ReadInvokation | KVOperation::WriteInvokation => {
                ops.push(trace[i]);
                i = i + 1;
                assert(ops@ =~= h.take(i as int));
            },
            _ => {
                assert(!is_invocation(h[i as int].operation));
                break;
            },
        }
    }
    ops
}

/// The value an invocation reads or writes.
pub fn get_response_value(invokation: &KVTimestamp, trace: &Vec<KVTimestamp>) -> (v: Option<u32>)
    ensures
        v == response_value(*invokation, trace@),
{
    match invokation.operation {
        KVOperation::ReadInvokation => {
            let mut i: usize = 0;
            while i < trace.len()
                invariant
                    i <= trace@.len(),
                    invokation.operation == KVOperation::ReadInvokation,
                    read_response(trace@, invokation.sender, 0) == read_response(
                        trace@,
                        invokation.sender,
                        i as int,
                    ),
                decreases trace@.len() - i,
            {
                if trace[i].operation == KVOperation::ReadResponse && trace[i].sender
                    == invokation.sender {
                    assert(read_response(trace@, invokation.sender, i as int) == trace@[i as int].value);
                    assert(invokation.operation == KVOperation::ReadInvokation);
                    assert(response_value(*invokation, trace@) == read_response(trace@, invokation.sender, 0));
                    return trace[i].value;
                }
                i = i + 1;
            }
            None
        },
        _ => invokation.value,
    }
}

/// The history without the events of the entry's sender; the entry's sender
/// has an event in it, so the history shrinks.
pub fn remove_op(entry: &KVTimestamp, trace: &Vec<KVTimestamp>) -> (r: Vec<KVTimestamp>)
    requires
        exists|j: int| 0 <= j < trace@.len() && trace@[j].sender == entry.sender,
    ensures
        r@ == remove_sender(trace@, entry.sender),
        r@.len() < trace@.len(),
{
    let mut cloned: Vec<KVTimestamp> = Vec::new();
    let mut i: usize = 0;
    while i < trace.len()
        invariant
            i <= trace@.len(),
            cloned@ == remove_sender(trace@.take(i as int), entry.sender),
        decreases trace@.len() - i,
    {
        proof {
            assert(trace@.take(i + 1).drop_last() =~= trace@.take(i as int));
        }
        if trace[i].sender != entry.sender {
            cloned.push(trace[i]);
        }
        i = i + 1;
    }
    proof {
        assert(trace@.take(trace@.len() as int) =~= trace@);
        let j = choose|j: int| 0 <= j < trace@.len() && trace@[j].sender == entry.sender;
        lemma_remove_sender_len(trace@, entry.sender, j);
    }
    cloned
}

/// Checks the history `h` from the store state `s`; on success the values
/// written along the linearization found are pushed onto `s`, in order, and
/// on failure `s` is as it was.
pub fn is_linearizable(h: &Vec<KVTimestamp>, s: &mut Vec<u32>) -> (r: bool)
    requires
        old(s)@.len() > 0,
        linearizable(h@, old(s)@) is Some,
    ensures
        r == linearizable(h@, old(s)@)->Some_0,
        !r ==> final(s)@ == old(s)@,
        r ==> final(s)@ == old(s)@ + linearization_writes(h@, old(s)@),
    decreases h@.len(), 1int,
{
    if h.len() == 0 {
        assert(s@ =~= s@ + Seq::<u32>::empty());
        return true;
    }
    let ops = get_minimal_ops(h);
    let ghost s0 = s@;
    proof {
        lemma_invocations_end(h@, 0);
    }
    let mut i: usize = 0;
    while i < ops.len()
        invariant
            s@ == s0,
            s0 == old(s)@,
            s0.len() > 0,
            h@.len() > 0,
            ops@ == minimal_ops(h@),
            0 <= invocations_end(h@, 0) <= h@.len(),
            i <= ops@.len(),
            linearizable(h@, s0) == linearizable_from(h@, s0, i as int),
            linearizable_from(h@, s0, i as int) is Some,
            linearization_writes(h@, s0) == linearization_writes_from(h@, s0, i as int),
        decreases ops@.len() - i,
    {
        let op = ops[i];
        assert(op == h@[i as int]);
        let ghost hv = h@;
        let response_val = match get_response_value(&op, h) {
            Some(v) => v,
            None => {
                assert(linearizable_from(hv, s0, i as int) == None::<bool>);
                0
            },
        };
        proof {
            lemma_remove_sender_len(h@, op.sender, i as int);
            assert(response_value(op, hv) == Some(response_val));
        }
        let ghost rest = remove_sender(hv, op.sender);
        match op.operation {
            KVOperation::WriteInvokation | KVOperation::WriteResponse => {
                let removed_op_trace = remove_op(&op, h);
                s.push(response_val);
                proof {
                    assert(linearizable_from(hv, s0, i as int) == match linearizable(
                        rest,
                        s0.push(response_val),
                    ) {
                        None => None,
                        Some(true) => Some(true),
                        Some(false) => linearizable_from(hv, s0, i + 1),
                    });
                }
                if is_linearizable(&removed_op_trace, s) {
                    assert(removed_op_trace@ == rest);
                    assert(linearizable(rest, s0.push(response_val)) == Some(true));
                    assert(linearizable_from(hv, s0, i as int) == Some(true));
                    assert(linearizable(hv, s0) == Some(true));
                    assert(linearization_writes_from(hv, s0, i as int) == seq![response_val]
                        + linearization_writes(rest, s0.push(response_val)));
                    assert(s@ =~= s0 + linearization_writes(hv, s0));
                    return true;
                } else {
                    s.pop();
                    assert(s@ =~= s0);
                }
            },
            KVOperation::ReadInvokation | KVOperation::ReadResponse => {
                let removed_op_trace = remove_op(&op, h);
                let last = s[s.len() - 1];
                assert(last == s0.last());
                proof {
                    assert(linearizable_from(hv, s0, i as int) == if s0.last() == response_val {
                        match linearizable(rest, s0) {
                            None => None,
                            Some(true) => Some(true),
                            Some(false) => linearizable_from(hv, s0, i + 1),
                        }
                    } else {
                        linearizable_from(hv, s0, i + 1)
                    });
                }
                if last == response_val && is_linearizable(&removed_op_trace, s) {
                    assert(removed_op_trace@ == rest);
                    assert(linearizable(rest, s0) == Some(true));
                    assert(linearizable_from(hv, s0, i as int) == Some(true));
                    assert(linearization_writes_from(hv, s0, i as int) == linearization_writes(rest, s0));
                    return true;
                }
            },
        }
        i = i + 1;
    }
    false
}

/// Inserts `x` into the time-ordered `s` after every event at its time or earlier.
pub open spec fn insert_by_time(s: Seq<KVTimestamp>, x: KVTimestamp) -> Seq<KVTimestamp>
    decreases s.len(),
{
    if s.len() == 0 {
        seq![x]
    } else if s.last().time <= x.time {
        s.push(x)
    } else {
        insert_by_time(s.drop_last(), x).push(s.last())
    }
}

/// The history ordered by time, events at equal times in their order: the
/// result of a stable sort by time.
pub open spec fn sort_by_time(s: Seq<KVTimestamp>) -> Seq<KVTimestamp>
    decreases s.len(),
{
    if s.len() == 0 {
        s
    } else {
        insert_by_time(sort_by_time(s.drop_last()), s.last())
    }
}

proof fn lemma_insert_at(s: Seq<KVTimestamp>, x: KVTimestamp, j: int)
    requires
        0 <= j <= s.len(),
        forall|k: int| j <= k < s.len() ==> #[trigger] s[k].time > x.time,
        j > 0 ==> s[j - 1].time <= x.time,
    ensures
        insert_by_time(s, x) == s.take(j).push(x) + s.skip(j),
    decreases s.len(),
{
    if s.len() == 0 {
        assert(s.take(j).push(x) + s.skip(j) =~= seq![x]);
    } else if j == s.len() {
        assert(s.take(j).push(x) + s.skip(j) =~= s.push(x));
    } else {
        let t = s.drop_last();
        lemma_insert_at(t, x, j);
        assert(s.take(j).push(x) + s.skip(j) =~= (t.take(j).push(x) + t.skip(j)).push(s.last()));
    }
}

/// Sorts the events by time, keeping events at equal times in their order.
pub fn sort_events_by_time(v: &Vec<KVTimestamp>) -> (out: Vec<KVTimestamp>)
    ensures
        out@ == sort_by_time(v@),
{
    let mut out: Vec<KVTimestamp> = Vec::new();
    let mut i: usize = 0;
    while i < v.len()
        invariant
            i <= v@.len(),
            out@ == sort_by_time(v@.take(i as int)),
        decreases v@.len() - i,
    {
        let x = v[i];
        let mut j: usize = out.len();
        while j > 0 && out[j - 1].time > x.time
            invariant
                j <= out@.len(),
                forall|k: int| j <= k < out@.len() ==> #[trigger] out@[k].time > x.time,
            decreases j,
        {
            j = j - 1;
        }
        proof {
            lemma_insert_at(out@, x, j as int);
            assert(v@.take(i + 1).drop_last() =~= v@.take(i as int));
            assert(v@.take(i + 1).last() == x);
        }
        out.insert(j, x);
        assert(out@ =~= sort_by_time(v@.take(i as int)).take(j as int).push(x) + sort_by_time(
            v@.take(i as int),
        ).skip(j as int));
        i = i + 1;
    }
    assert(v@.take(v@.len() as int) =~= v@);
    out
}

/// The events of one key, in their order.
pub open spec fn events_of(ts: Seq<KVTimestamp>, key: u64) -> Seq<KVTimestamp> {
    ts.filter(|x: KVTimestamp| x.key == key)
}

/// Calls `itertools::Itertools::into_group_map` on the (key, event) pairs
/// and hands out its groups. Each group holds, in their order, exactly the
/// events of one key, and every key has a group; the map's order of keys is
/// left open.
#[verifier::external_body]
fn group_by_key(timestamps: &Vec<KVTimestamp>) -> (groups: Vec<Vec<KVTimestamp>>)
    ensures
        forall|g: int|
            0 <= g < groups@.len() ==> (#[trigger] groups@[g])@.len() > 0 && groups@[g]@
                == events_of(timestamps@, groups@[g]@[0].key),
        forall|i: int|
            #![trigger timestamps@[i]]
            0 <= i < timestamps@.len() ==> exists|g: int|
                0 <= g < groups@.len() && (#[trigger] groups@[g])@[0].key == timestamps@[i].key,
{
    timestamps.iter().map(|x| (x.key, *x)).into_group_map().into_iter().map(|(_, v)| v).collect()
}

/// Whether the events of `key`, ordered by time, are linearizable from a store holding 0.
pub open spec fn key_linearizable(ts: Seq<KVTimestamp>, key: u64) -> Option<bool> {
    linearizable(sort_by_time(events_of(ts, key)), seq![0u32])
}

/// Whether the history of every key is linearizable.
pub fn all_linearizable(timestamps: &Vec<KVTimestamp>) -> (r: bool)
    requires
        forall|i: int|
            0 <= i < timestamps@.len() ==> #[trigger] key_linearizable(
                timestamps@,
                timestamps@[i].key,
            ) is Some,
    ensures
        r == all_keys_linearizable(timestamps@),
{
    let groups = group_by_key(timestamps);
    let mut g: usize = 0;
    while g < groups.len()
        invariant
            g <= groups@.len(),
            forall|j: int|
                0 <= j < groups@.len() ==> (#[trigger] groups@[j])@.len() > 0 && groups@[j]@
                    == events_of(timestamps@, groups@[j]@[0].key),
            forall|i: int|
                #![trigger timestamps@[i]]
                0 <= i < timestamps@.len() ==> exists|j: int|
                    0 <= j < groups@.len() && (#[trigger] groups@[j])@[0].key == timestamps@[i].key,
            forall|i: int|
                0 <= i < timestamps@.len() ==> #[trigger] key_linearizable(
                    timestamps@,
                    timestamps@[i].key,
                ) is Some,
            forall|j: int|
                0 <= j < g ==> key_linearizable(timestamps@, (#[trigger] groups@[j])@[0].key)
                    == Some(true),
        decreases groups@.len() - g,
    {
        let key = groups[g][0].key;
        let ghost ev = events_of(timestamps@, key);
        proof {
            assert(groups@[g as int]@[0] == ev[0]);
            assert(ev.contains(ev[0]));
            timestamps@.lemma_filter_contains_rev(|x: KVTimestamp| x.key == key, ev[0]);
            let i = choose|i: int| 0 <= i < timestamps@.len() && timestamps@[i] == ev[0];
            assert(key_linearizable(timestamps@, timestamps@[i].key) is Some);
        }
        let trace = sort_events_by_time(&groups[g]);
        let mut s: Vec<u32> = Vec::new();
        s.push(0);
        assert(s@ =~= seq![0u32]);
        if !is_linearizable(&trace, &mut s) {
            proof {
                let i = choose|i: int| 0 <= i < timestamps@.len() && timestamps@[i] == ev[0];
                assert(timestamps@[i].key == key);
            }
            return false;
        }
        g = g + 1;
    }
    proof {
        assert forall|i: int| 0 <= i < timestamps@.len() implies #[trigger] key_linearizable(
            timestamps@,
            timestamps@[i].key,
        ) == Some(true) by {
            let j = choose|j: int|
                0 <= j < groups@.len() && (#[trigger] groups@[j])@[0].key == timestamps@[i].key;
        }
    }
    true
}

/// Whether the history of every key occurring in `ts` is linearizable.
pub open spec fn all_keys_linearizable(ts: Seq<KVTimestamp>) -> bool {
    forall|i: int| 0 <= i < ts.len() ==> #[trigger] key_linearizable(ts, ts[i].key) == Some(true)
}

proof fn lemma_events_of_step(ts: Seq<KVTimestamp>, k: u64)
    requires
        ts.len() > 0,
    ensures
        events_of(ts, k) == (if ts.last().key == k {
            events_of(ts.drop_last(), k).push(ts.last())
        } else {
            events_of(ts.drop_last(), k)
        }),
{
    reveal(Seq::filter);
}

/// The events of `k` all have key `k`, and every event of `k` in the
/// history is among them.
proof fn lemma_events_of_keys(ts: Seq<KVTimestamp>, k: u64)
    ensures
        forall|j: int| 0 <= j < events_of(ts, k).len() ==> (#[trigger] events_of(ts, k)[j]).key == k,
        forall|i: int| 0 <= i < ts.len() && ts[i].key == k ==> events_of(ts, k).contains(#[trigger] ts[i]),
    decreases ts.len(),
{
    if ts.len() > 0 {
        let t = ts.drop_last();
        lemma_events_of_keys(t, k);
        lemma_events_of_step(ts, k);
        let e = events_of(t, k);
        assert forall|i: int| 0 <= i < ts.len() && ts[i].key == k implies events_of(ts, k).contains(
            #[trigger] ts[i],
        ) by {
            if i < ts.len() - 1 {
                assert(t[i] == ts[i]);
                let j = choose|j: int| 0 <= j < e.len() && e[j] == t[i];
                assert(events_of(ts, k)[j] == ts[i]);
            } else {
                assert(events_of(ts, k)[e.len() as int] == ts[i]);
            }
        }
    }
}

proof fn lemma_events_of_idempotent(ts: Seq<KVTimestamp>, k: u64)
    ensures
        events_of(events_of(ts, k), k) == events_of(ts, k),
    decreases ts.len(),
{
    if ts.len() > 0 {
        let t = ts.drop_last();
        lemma_events_of_idempotent(t, k);
        lemma_events_of_step(ts, k);
        let e = events_of(t, k);
        if ts.last().key == k {
            lemma_events_of_step(e.push(ts.last()), k);
            assert(e.push(ts.last()).drop_last() =~= e);
        }
    }
}

/// The verdict for a key is local to it: it is the same on the key's events
/// alone as on the whole history, whatever the events of other keys.
pub proof fn lemma_key_verdict_is_local(ts: Seq<KVTimestamp>, k: u64)
    ensures
        key_linearizable(events_of(ts, k), k) == key_linearizable(ts, k),
{
    lemma_events_of_idempotent(ts, k);
}

/// A history is linearizable exactly where the events of each of its keys,
/// taken alone, are: the verdict does not depend on how the events of
/// different keys interleave.
pub proof fn lemma_all_linearizable_by_key(ts: Seq<KVTimestamp>)
    ensures
        all_keys_linearizable(ts) <==> forall|i: int|
            0 <= i < ts.len() ==> #[trigger] all_keys_linearizable(events_of(ts, ts[i].key)),
{
    assert forall|i: int| 0 <= i < ts.len() implies (#[trigger] all_keys_linearizable(
        events_of(ts, ts[i].key),
    ) <==> key_linearizable(ts, ts[i].key) == Some(true)) by {
        let k = ts[i].key;
        let ev = events_of(ts, k);
        lemma_key_verdict_is_local(ts, k);
        lemma_events_of_keys(ts, k);
        if key_linearizable(ts, k) == Some(true) {
            assert forall|j: int| 0 <= j < ev.len() implies #[trigger] key_linearizable(
                ev,
                ev[j].key,
            ) == Some(true) by {
                assert(ev[j].key == k);
            }
        } else {
            assert(ev.contains(ts[i]));
            let j = choose|j: int| 0 <= j < ev.len() && ev[j] == ts[i];
            assert(ev[j].key == k);
            assert(key_linearizable(ev, ev[j].key) != Some(true));
        }
    }
    if all_keys_linearizable(ts) {
        assert forall|i: int| 0 <= i < ts.len() implies #[trigger] all_keys_linearizable(
            events_of(ts, ts[i].key),
        ) by {
            assert(key_linearizable(ts, ts[i].key) == Some(true));
        }
    }
    if forall|i: int|
        0 <= i < ts.len() ==> #[trigger] all_keys_linearizable(events_of(ts, ts[i].key)) {
        assert forall|i: int| 0 <= i < ts.len() implies #[trigger] key_linearizable(
            ts,
            ts[i].key,
        ) == Some(true) by {
            assert(all_keys_linearizable(events_of(ts, ts[i].key)));
        }
    }
}

} // verus!
