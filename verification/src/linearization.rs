//! What the linearizability test decides, said directly: a history is
//! linearizable from a store state where its operations can be put in one
//! order that respects real time (an operation that responded before
//! another was invoked comes first) and in which every read returns the
//! latest write, or the store's value where none came before.
use vstd::prelude::*;
use crate::test_utils::{
    KVOperation, KVTimestamp, invocations_end, is_invocation, lemma_invocations_end,
    lemma_remove_sender_len, linearizable, linearizable_from, read_response, remove_sender,
    response_value,
};

verus! {

pub open spec fn is_response(op: KVOperation) -> bool {
    op is ReadResponse || op is WriteResponse
}

/// Whether the event is an invocation (`inv`) or a read response (`!inv`)
/// of process `q`.
pub open spec fn event_of(x: KVTimestamp, q: u32, inv: bool) -> bool {
    &&& x.sender == q
    &&& if inv {
        is_invocation(x.operation)
    } else {
        x.operation == KVOperation::ReadResponse
    }
}

/// How many invocations (`inv`) or read responses (`!inv`) of `q` the history holds.
pub open spec fn count_of(h: Seq<KVTimestamp>, q: u32, inv: bool) -> nat
    decreases h.len(),
{
    if h.len() == 0 {
        0
    } else {
        count_of(h.drop_last(), q, inv) + if event_of(h.last(), q, inv) {
            1nat
        } else {
            0nat
        }
    }
}

/// Every process invokes at most once and reads a response at most once.
pub open spec fn well_formed_history(h: Seq<KVTimestamp>) -> bool {
    forall|q: u32, inv: bool| #[trigger] count_of(h, q, inv) <= 1
}

/// Whether `t` holds an invocation of process `q`.
pub open spec fn invokes_in(t: Seq<KVTimestamp>, q: u32) -> bool {
    exists|a: int| 0 <= a < t.len() && t[a].sender == q && is_invocation(#[trigger] t[a].operation)
}

/// Whether `t` holds a response of process `q`.
pub open spec fn responds_in(t: Seq<KVTimestamp>, q: u32) -> bool {
    exists|a: int| 0 <= a < t.len() && t[a].sender == q && is_response(#[trigger] t[a].operation)
}

/// Process `q` responded before process `r` was invoked.
pub open spec fn precedes(h: Seq<KVTimestamp>, q: u32, r: u32) -> bool {
    exists|k: int| 0 <= k <= h.len() && #[trigger] responds_in(h.take(k), q) && invokes_in(h.skip(k), r)
}

proof fn lemma_remove_concat(a: Seq<KVTimestamp>, b: Seq<KVTimestamp>, p: u32)
    ensures
        remove_sender(a + b, p) == remove_sender(a, p) + remove_sender(b, p),
    decreases b.len(),
{
    if b.len() == 0 {
        assert(a + b =~= a);
        assert(remove_sender(a, p) + remove_sender(b, p) =~= remove_sender(a, p));
    } else {
        lemma_remove_concat(a, b.drop_last(), p);
        assert((a + b).drop_last() =~= a + b.drop_last());
        assert((a + b).last() == b.last());
        let ra = remove_sender(a, p);
        let rb = remove_sender(b.drop_last(), p);
        if b.last().sender != p {
            assert(ra + rb.push(b.last()) =~= (ra + rb).push(b.last()));
        }
    }
}

proof fn lemma_remove_contains(h: Seq<KVTimestamp>, p: u32, x: KVTimestamp)
    ensures
        remove_sender(h, p).contains(x) <==> (h.contains(x) && x.sender != p),
    decreases h.len(),
{
    if h.len() > 0 {
        let t = h.drop_last();
        let last = h.last();
        lemma_remove_contains(t, p, x);
        let r = remove_sender(t, p);
        let r2 = remove_sender(h, p);
        assert(r2 == if last.sender == p {
            r
        } else {
            r.push(last)
        });
        if r2.contains(x) {
            let j = choose|j: int| 0 <= j < r2.len() && r2[j] == x;
            if j < r.len() {
                assert(r[j] == x);
                assert(r.contains(x));
                let a = choose|a: int| 0 <= a < t.len() && t[a] == x;
                assert(h[a] == x);
            } else {
                assert(x == last);
                assert(h[h.len() - 1] == x);
            }
        }
        if h.contains(x) && x.sender != p {
            let a = choose|a: int| 0 <= a < h.len() && h[a] == x;
            if a < h.len() - 1 {
                assert(t[a] == x);
                assert(t.contains(x));
                let j = choose|j: int| 0 <= j < r.len() && r[j] == x;
                assert(r2[j] == x);
            } else {
                assert(r2[r.len() as int] == x);
            }
        }
    }
}

proof fn lemma_count_remove(h: Seq<KVTimestamp>, p: u32, q: u32, inv: bool)
    ensures
        q != p ==> count_of(remove_sender(h, p), q, inv) == count_of(h, q, inv),
        q == p ==> count_of(remove_sender(h, p), q, inv) == 0,
    decreases h.len(),
{
    if h.len() > 0 {
        lemma_count_remove(h.drop_last(), p, q, inv);
        let r = remove_sender(h.drop_last(), p);
        if h.last().sender != p {
            assert(r.push(h.last()).drop_last() =~= r);
        }
    }
}

proof fn lemma_count_concat(a: Seq<KVTimestamp>, b: Seq<KVTimestamp>, q: u32, inv: bool)
    ensures
        count_of(a + b, q, inv) == count_of(a, q, inv) + count_of(b, q, inv),
    decreases b.len(),
{
    if b.len() == 0 {
        assert(a + b =~= a);
    } else {
        lemma_count_concat(a, b.drop_last(), q, inv);
        assert((a + b).drop_last() =~= a + b.drop_last());
    }
}

proof fn lemma_count_pos(h: Seq<KVTimestamp>, q: u32, inv: bool, a: int)
    requires
        0 <= a < h.len(),
        event_of(h[a], q, inv),
    ensures
        count_of(h, q, inv) >= 1,
    decreases h.len(),
{
    if a < h.len() - 1 {
        lemma_count_pos(h.drop_last(), q, inv, a);
    }
}

/// In a well-formed history, two invocations (or two read responses) of
/// one process are one and the same event.
proof fn lemma_unique_event(h: Seq<KVTimestamp>, q: u32, inv: bool, a: int, b: int)
    requires
        well_formed_history(h),
        0 <= a < h.len(),
        0 <= b < h.len(),
        event_of(h[a], q, inv),
        event_of(h[b], q, inv),
    ensures
        a == b,
{
    if a != b {
        let (lo, hi) = if a < b {
            (a, b)
        } else {
            (b, a)
        };
        assert(h =~= h.take(hi) + h.skip(hi));
        lemma_count_concat(h.take(hi), h.skip(hi), q, inv);
        assert(h.take(hi)[lo] == h[lo]);
        lemma_count_pos(h.take(hi), q, inv, lo);
        assert(h.skip(hi)[0] == h[hi]);
        lemma_count_pos(h.skip(hi), q, inv, 0);
        assert(count_of(h, q, inv) <= 1);
    }
}


/// The invocation of process `q` in `h`.
pub open spec fn invocation_of(h: Seq<KVTimestamp>, q: u32) -> KVTimestamp {
    h[choose|a: int| 0 <= a < h.len() && event_of(h[a], q, true)]
}

/// Replaying the operations of `h` in the order `ord` from the store state
/// `s` (its last value is the current one): a write sets the value it
/// writes, and a read must return the current value.
pub open spec fn replay_ok(h: Seq<KVTimestamp>, ord: Seq<u32>, s: Seq<u32>) -> bool
    decreases ord.len(),
{
    if ord.len() == 0 {
        true
    } else {
        let op = invocation_of(h, ord[0]);
        match response_value(op, h) {
            None => false,
            Some(v) => if op.operation == KVOperation::WriteInvokation {
                replay_ok(h, ord.skip(1), s.push(v))
            } else {
                s.last() == v && replay_ok(h, ord.skip(1), s)
            },
        }
    }
}

/// `ord` is a linearization of `h` from `s`: it lists every invoked
/// operation once, never puts an operation before one that responded
/// before it was invoked, and replays to what every read returned.
pub open spec fn is_linearization(h: Seq<KVTimestamp>, s: Seq<u32>, ord: Seq<u32>) -> bool {
    &&& ord.no_duplicates()
    &&& forall|q: u32| ord.contains(q) <==> invokes_in(h, q)
    &&& forall|i: int, j: int| 0 <= i < j < ord.len() ==> !precedes(h, #[trigger] ord[j], #[trigger] ord[i])
    &&& replay_ok(h, ord, s)
}

proof fn lemma_invocation_of(h: Seq<KVTimestamp>, q: u32, a: int)
    requires
        well_formed_history(h),
        0 <= a < h.len(),
        event_of(h[a], q, true),
    ensures
        invocation_of(h, q) == h[a],
{
    let b = choose|b: int| 0 <= b < h.len() && event_of(h[b], q, true);
    lemma_unique_event(h, q, true, a, b);
}

proof fn lemma_rr_at(h: Seq<KVTimestamp>, q: u32, i: int, a: int)
    requires
        well_formed_history(h),
        0 <= i <= a < h.len(),
        event_of(h[a], q, false),
    ensures
        read_response(h, q, i) == h[a].value,
    decreases a - i,
{
    if event_of(h[i], q, false) {
        lemma_unique_event(h, q, false, i, a);
    } else {
        lemma_rr_at(h, q, i + 1, a);
    }
}

proof fn lemma_rr_none(h: Seq<KVTimestamp>, q: u32, i: int)
    requires
        0 <= i,
        forall|a: int| i <= a < h.len() ==> !event_of(#[trigger] h[a], q, false),
    ensures
        read_response(h, q, i) == None::<u32>,
    decreases h.len() - i,
{
    if i < h.len() {
        assert(!event_of(h[i], q, false));
        lemma_rr_none(h, q, i + 1);
    }
}

proof fn lemma_wf_remove(h: Seq<KVTimestamp>, p: u32)
    requires
        well_formed_history(h),
    ensures
        well_formed_history(remove_sender(h, p)),
{
    assert forall|q: u32, inv: bool| #[trigger] count_of(remove_sender(h, p), q, inv) <= 1 by {
        lemma_count_remove(h, p, q, inv);
    }
}

/// Removing another process's events changes neither the invocation nor the
/// value of an operation.
proof fn lemma_op_after_remove(h: Seq<KVTimestamp>, p: u32, q: u32)
    requires
        well_formed_history(h),
        q != p,
        invokes_in(remove_sender(h, p), q),
    ensures
        invocation_of(remove_sender(h, p), q) == invocation_of(h, q),
        response_value(invocation_of(h, q), remove_sender(h, p)) == response_value(invocation_of(h, q), h),
{
    let r = remove_sender(h, p);
    lemma_wf_remove(h, p);
    let j = choose|j: int| 0 <= j < r.len() && r[j].sender == q && is_invocation(#[trigger] r[j].operation);
    lemma_invocation_of(r, q, j);
    assert(r.contains(r[j]));
    lemma_remove_contains(h, p, r[j]);
    let a = choose|a: int| 0 <= a < h.len() && h[a] == r[j];
    lemma_invocation_of(h, q, a);
    if exists|a: int| 0 <= a < h.len() && event_of(#[trigger] h[a], q, false) {
        let a = choose|a: int| 0 <= a < h.len() && event_of(#[trigger] h[a], q, false);
        lemma_rr_at(h, q, 0, a);
        assert(h.contains(h[a]));
        lemma_remove_contains(h, p, h[a]);
        let k = choose|k: int| 0 <= k < r.len() && r[k] == h[a];
        lemma_rr_at(r, q, 0, k);
    } else {
        lemma_rr_none(h, q, 0);
        assert forall|k: int| 0 <= k < r.len() implies !event_of(#[trigger] r[k], q, false) by {
            if event_of(r[k], q, false) {
                assert(r.contains(r[k]));
                lemma_remove_contains(h, p, r[k]);
                let a = choose|a: int| 0 <= a < h.len() && h[a] == r[k];
                assert(event_of(h[a], q, false));
            }
        }
        lemma_rr_none(r, q, 0);
    }
}

/// Replaying operations of other processes is the same with or without the
/// events of `p`.
proof fn lemma_replay_after_remove(h: Seq<KVTimestamp>, p: u32, ord: Seq<u32>, s: Seq<u32>)
    requires
        well_formed_history(h),
        forall|k: int| 0 <= k < ord.len() ==> #[trigger] ord[k] != p && invokes_in(remove_sender(h, p), ord[k]),
    ensures
        replay_ok(remove_sender(h, p), ord, s) == replay_ok(h, ord, s),
    decreases ord.len(),
{
    if ord.len() > 0 {
        let q = ord[0];
        lemma_op_after_remove(h, p, q);
        let rest = ord.skip(1);
        assert forall|k: int| 0 <= k < rest.len() implies #[trigger] rest[k] != p && invokes_in(
            remove_sender(h, p),
            rest[k],
        ) by {
            assert(rest[k] == ord[k + 1]);
        }
        let op = invocation_of(h, q);
        match response_value(op, h) {
            None => {},
            Some(v) => {
                lemma_replay_after_remove(h, p, rest, s.push(v));
                lemma_replay_after_remove(h, p, rest, s);
            },
        }
    }
}

/// Removing another process's events keeps every real-time precedence.
proof fn lemma_precedes_after_remove(h: Seq<KVTimestamp>, p: u32, q: u32, r: u32)
    requires
        q != p,
        r != p,
        precedes(h, q, r),
    ensures
        precedes(remove_sender(h, p), q, r),
{
    let k = choose|k: int| 0 <= k <= h.len() && #[trigger] responds_in(h.take(k), q) && invokes_in(h.skip(k), r);
    let a = h.take(k);
    let b = h.skip(k);
    assert(h =~= a + b);
    lemma_remove_concat(a, b, p);
    let ra = remove_sender(a, p);
    let rb = remove_sender(b, p);
    let rest = remove_sender(h, p);
    let k2 = ra.len() as int;
    assert(rest.take(k2) =~= ra);
    assert(rest.skip(k2) =~= rb);
    let x = choose|x: int| 0 <= x < a.len() && a[x].sender == q && is_response(#[trigger] a[x].operation);
    assert(a.contains(a[x]));
    lemma_remove_contains(a, p, a[x]);
    let x2 = choose|x2: int| 0 <= x2 < ra.len() && ra[x2] == a[x];
    assert(is_response(ra[x2].operation));
    let y = choose|y: int| 0 <= y < b.len() && b[y].sender == r && is_invocation(#[trigger] b[y].operation);
    assert(b.contains(b[y]));
    lemma_remove_contains(b, p, b[y]);
    let y2 = choose|y2: int| 0 <= y2 < rb.len() && rb[y2] == b[y];
    assert(is_invocation(rb[y2].operation));
    assert(responds_in(rest.take(k2), q));
    assert(invokes_in(rest.skip(k2), r));
}

/// An operation invoked before any response in the history is preceded by none.
proof fn lemma_minimal_not_preceded(h: Seq<KVTimestamp>, i: int, q: u32)
    requires
        well_formed_history(h),
        0 <= i < invocations_end(h, 0),
        invocations_end(h, 0) <= h.len(),
        forall|k: int| 0 <= k < invocations_end(h, 0) ==> is_invocation(#[trigger] h[k].operation),
    ensures
        !precedes(h, q, h[i].sender),
{
    if precedes(h, q, h[i].sender) {
        let p = h[i].sender;
        let k = choose|k: int| 0 <= k <= h.len() && #[trigger] responds_in(h.take(k), q) && invokes_in(h.skip(k), p);
        let x = choose|x: int| 0 <= x < h.take(k).len() && h.take(k)[x].sender == q && is_response(#[trigger] h.take(k)[x].operation);
        assert(h[x] == h.take(k)[x]);
        assert(x >= invocations_end(h, 0));
        let y = choose|y: int| 0 <= y < h.skip(k).len() && h.skip(k)[y].sender == p && is_invocation(#[trigger] h.skip(k)[y].operation);
        assert(h[k + y] == h.skip(k)[y]);
        assert(event_of(h[i], p, true));
        lemma_unique_event(h, p, true, i, k + y);
    }
}


proof fn lemma_invokes_after_remove(h: Seq<KVTimestamp>, p: u32, q: u32)
    ensures
        invokes_in(remove_sender(h, p), q) <==> (invokes_in(h, q) && q != p),
{
    let r = remove_sender(h, p);
    if invokes_in(r, q) {
        let j = choose|j: int| 0 <= j < r.len() && r[j].sender == q && is_invocation(#[trigger] r[j].operation);
        assert(r.contains(r[j]));
        lemma_remove_contains(h, p, r[j]);
        let a = choose|a: int| 0 <= a < h.len() && h[a] == r[j];
        assert(is_invocation(h[a].operation));
    }
    if invokes_in(h, q) && q != p {
        let a = choose|a: int| 0 <= a < h.len() && h[a].sender == q && is_invocation(#[trigger] h[a].operation);
        assert(h.contains(h[a]));
        lemma_remove_contains(h, p, h[a]);
        let j = choose|j: int| 0 <= j < r.len() && r[j] == h[a];
        assert(is_invocation(r[j].operation));
    }
}

/// A linearization of the history without `p` extends, with `p`'s operation
/// first, to one of the history, where `p` was invoked before any response.
proof fn lemma_extend(h: Seq<KVTimestamp>, s: Seq<u32>, i: int, v: u32, s2: Seq<u32>, ord2: Seq<u32>)
    requires
        well_formed_history(h),
        0 <= i < invocations_end(h, 0),
        invocations_end(h, 0) <= h.len(),
        forall|k: int| 0 <= k < invocations_end(h, 0) ==> is_invocation(#[trigger] h[k].operation),
        response_value(h[i], h) == Some(v),
        h[i].operation == KVOperation::WriteInvokation ==> s2 == s.push(v),
        h[i].operation != KVOperation::WriteInvokation ==> s2 == s && s.last() == v,
        is_linearization(remove_sender(h, h[i].sender), s2, ord2),
    ensures
        is_linearization(h, s, seq![h[i].sender] + ord2),
{
    let p = h[i].sender;
    let rest = remove_sender(h, p);
    let ord = seq![p] + ord2;
    assert(is_invocation(h[i].operation));
    assert(event_of(h[i], p, true));
    lemma_invocation_of(h, p, i);
    assert(invokes_in(h, p));
    lemma_invokes_after_remove(h, p, p);
    assert forall|k: int| 0 <= k < ord2.len() implies #[trigger] ord2[k] != p && invokes_in(rest, ord2[k]) by {
        assert(ord2.contains(ord2[k]));
    }
    lemma_replay_after_remove(h, p, ord2, s2);
    assert(ord[0] == p);
    assert(ord.skip(1) =~= ord2);
    assert(replay_ok(h, ord, s));
    assert forall|q: u32| ord.contains(q) <==> invokes_in(h, q) by {
        lemma_invokes_after_remove(h, p, q);
        if ord.contains(q) && q != p {
            let k = choose|k: int| 0 <= k < ord.len() && ord[k] == q;
            assert(ord2[k - 1] == q);
        }
        if invokes_in(h, q) && q != p {
            assert(ord2.contains(q));
            let k = choose|k: int| 0 <= k < ord2.len() && ord2[k] == q;
            assert(ord[k + 1] == q);
        }
    }
    assert forall|a: int, b: int| 0 <= a < b < ord.len() implies !precedes(h, #[trigger] ord[b], #[trigger] ord[a]) by {
        assert(ord[b] == ord2[b - 1]);
        assert(ord2[b - 1] != p);
        if a == 0 {
            lemma_minimal_not_preceded(h, i, ord[b]);
        } else {
            assert(ord[a] == ord2[a - 1]);
            assert(ord2[a - 1] != p);
            assert(!precedes(rest, ord2[b - 1], ord2[a - 1]));
            if precedes(h, ord[b], ord[a]) {
                lemma_precedes_after_remove(h, p, ord[b], ord[a]);
            }
        }
    }
    assert forall|a: int, b: int| 0 <= a < ord.len() && 0 <= b < ord.len() && a != b implies ord[a] != ord[b] by {
        if a > 0 && b > 0 {
            assert(ord[a] == ord2[a - 1]);
            assert(ord[b] == ord2[b - 1]);
        } else if a == 0 {
            assert(ord[b] == ord2[b - 1]);
        } else {
            assert(ord[a] == ord2[a - 1]);
        }
    }
}

/// Where the test finds a well-formed history linearizable from `s`, it
/// is: its operations have an order that respects real time and in which
/// every read returns the latest write, or the last value of `s`.
pub proof fn lemma_linearizable_sound(h: Seq<KVTimestamp>, s: Seq<u32>)
    requires
        well_formed_history(h),
        s.len() > 0,
        linearizable(h, s) == Some(true),
    ensures
        exists|ord: Seq<u32>| is_linearization(h, s, ord),
    decreases h.len(), 1int, 0int,
{
    if h.len() == 0 {
        let ord = Seq::<u32>::empty();
        assert(is_linearization(h, s, ord));
    } else {
        lemma_sound_from(h, s, 0);
    }
}

proof fn lemma_sound_from(h: Seq<KVTimestamp>, s: Seq<u32>, i: int)
    requires
        well_formed_history(h),
        s.len() > 0,
        h.len() > 0,
        linearizable_from(h, s, i) == Some(true),
    ensures
        exists|ord: Seq<u32>| is_linearization(h, s, ord),
    decreases h.len(), 0int, invocations_end(h, 0) - i,
{
    lemma_invocations_end(h, 0);
    if 0 <= i < invocations_end(h, 0) {
        let op = h[i];
        let p = op.sender;
        lemma_remove_sender_len(h, p, i);
        let rest = remove_sender(h, p);
        match response_value(op, h) {
            None => {},
            Some(v) => {
                if op.operation == KVOperation::WriteInvokation || op.operation == KVOperation::WriteResponse {
                    if linearizable(rest, s.push(v)) == Some(true) {
                        lemma_wf_remove(h, p);
                        lemma_linearizable_sound(rest, s.push(v));
                        let ord2 = choose|o: Seq<u32>| is_linearization(rest, s.push(v), o);
                        lemma_extend(h, s, i, v, s.push(v), ord2);
                    } else {
                        lemma_sound_from(h, s, i + 1);
                    }
                } else if s.last() == v && linearizable(rest, s) == Some(true) {
                    lemma_wf_remove(h, p);
                    lemma_linearizable_sound(rest, s);
                    let ord2 = choose|o: Seq<u32>| is_linearization(rest, s, o);
                    lemma_extend(h, s, i, v, s, ord2);
                } else {
                    lemma_sound_from(h, s, i + 1);
                }
            },
        }
    }
}


proof fn lemma_kept_prefix(h: Seq<KVTimestamp>, p: u32, k2: int)
    requires
        0 <= k2 <= remove_sender(h, p).len(),
    ensures
        exists|k: int| 0 <= k <= h.len() && #[trigger] remove_sender(h.take(k), p).len() == k2,
    decreases h.len(),
{
    if h.len() == 0 {
        assert(h.take(0) =~= h);
        assert(remove_sender(h.take(0), p).len() == k2);
    } else {
        let t = h.drop_last();
        if k2 <= remove_sender(t, p).len() {
            lemma_kept_prefix(t, p, k2);
            let k = choose|k: int| 0 <= k <= t.len() && #[trigger] remove_sender(t.take(k), p).len() == k2;
            assert(h.take(k) =~= t.take(k));
            assert(remove_sender(h.take(k), p).len() == k2);
        } else {
            assert(h.take(h.len() as int) =~= h);
            assert(remove_sender(h.take(h.len() as int), p).len() == k2);
        }
    }
}

/// A real-time precedence among what is left after removing `p`'s events
/// held in the whole history.
proof fn lemma_precedes_from_remove(h: Seq<KVTimestamp>, p: u32, q: u32, r: u32)
    requires
        precedes(remove_sender(h, p), q, r),
    ensures
        precedes(h, q, r),
{
    let rest = remove_sender(h, p);
    let k2 = choose|k: int| 0 <= k <= rest.len() && #[trigger] responds_in(rest.take(k), q) && invokes_in(rest.skip(k), r);
    lemma_kept_prefix(h, p, k2);
    let k = choose|k: int| 0 <= k <= h.len() && #[trigger] remove_sender(h.take(k), p).len() == k2;
    let a = h.take(k);
    let b = h.skip(k);
    assert(h =~= a + b);
    lemma_remove_concat(a, b, p);
    let ra = remove_sender(a, p);
    let rb = remove_sender(b, p);
    assert(rest.take(k2) =~= ra);
    assert(rest.skip(k2) =~= rb);
    let x = choose|x: int| 0 <= x < ra.len() && ra[x].sender == q && is_response(#[trigger] ra[x].operation);
    assert(ra.contains(ra[x]));
    lemma_remove_contains(a, p, ra[x]);
    let x2 = choose|x2: int| 0 <= x2 < a.len() && a[x2] == ra[x];
    assert(is_response(a[x2].operation));
    let y = choose|y: int| 0 <= y < rb.len() && rb[y].sender == r && is_invocation(#[trigger] rb[y].operation);
    assert(rb.contains(rb[y]));
    lemma_remove_contains(b, p, rb[y]);
    let y2 = choose|y2: int| 0 <= y2 < b.len() && b[y2] == rb[y];
    assert(is_invocation(b[y2].operation));
    assert(responds_in(h.take(k), q));
}

/// A history the test can judge: every process invokes at most once and
/// reads a response at most once, never responds before it is invoked, and
/// is invoked where it responds.
pub open spec fn history_ok(h: Seq<KVTimestamp>) -> bool {
    &&& well_formed_history(h)
    &&& forall|r: u32| !#[trigger] precedes(h, r, r)
    &&& forall|r: u32| #[trigger] responds_in(h, r) ==> invokes_in(h, r)
}

proof fn lemma_history_ok_remove(h: Seq<KVTimestamp>, p: u32)
    requires
        history_ok(h),
    ensures
        history_ok(remove_sender(h, p)),
{
    let rest = remove_sender(h, p);
    lemma_wf_remove(h, p);
    assert forall|r: u32| !#[trigger] precedes(rest, r, r) by {
        if precedes(rest, r, r) {
            lemma_precedes_from_remove(h, p, r, r);
        }
    }
    assert forall|r: u32| #[trigger] responds_in(rest, r) implies invokes_in(rest, r) by {
        let j = choose|j: int| 0 <= j < rest.len() && rest[j].sender == r && is_response(#[trigger] rest[j].operation);
        assert(rest.contains(rest[j]));
        lemma_remove_contains(h, p, rest[j]);
        let a = choose|a: int| 0 <= a < h.len() && h[a] == rest[j];
        assert(is_response(h[a].operation));
        assert(responds_in(h, r));
        lemma_invokes_after_remove(h, p, r);
    }
}

proof fn lemma_invocations_end_above(h: Seq<KVTimestamp>, j: int, iq: int)
    requires
        0 <= j <= iq + 1,
        iq < h.len(),
        forall|k: int| 0 <= k <= iq ==> is_invocation(#[trigger] h[k].operation),
    ensures
        invocations_end(h, j) > iq,
    decreases iq + 1 - j,
{
    if j <= iq {
        lemma_invocations_end_above(h, j + 1, iq);
    } else {
        lemma_invocations_end(h, j);
    }
}

/// The first operation of a linearization was invoked before any response.
proof fn lemma_first_is_minimal(h: Seq<KVTimestamp>, s: Seq<u32>, ord: Seq<u32>, iq: int)
    requires
        history_ok(h),
        is_linearization(h, s, ord),
        ord.len() > 0,
        0 <= iq < h.len(),
        event_of(h[iq], ord[0], true),
    ensures
        iq < invocations_end(h, 0),
{
    let q = ord[0];
    assert forall|k: int| 0 <= k <= iq implies is_invocation(#[trigger] h[k].operation) by {
        if !is_invocation(h[k].operation) {
            let r = h[k].sender;
            assert(is_response(h[k].operation));
            assert(h.take(k + 1)[k] == h[k]);
            assert(responds_in(h.take(k + 1), r));
            assert(h.skip(k + 1)[iq - k - 1] == h[iq]);
            assert(invokes_in(h.skip(k + 1), q));
            assert(precedes(h, r, q));
            assert(responds_in(h, r));
            assert(ord.contains(r));
            let j = choose|j: int| 0 <= j < ord.len() && ord[j] == r;
            if j == 0 {
                assert(precedes(h, r, r));
            } else {
                assert(!precedes(h, ord[j], ord[0]));
            }
        }
    }
    lemma_invocations_end_above(h, 0, iq);
}

/// What follows the first operation of a linearization linearizes the rest.
proof fn lemma_tail_linearizes(h: Seq<KVTimestamp>, s: Seq<u32>, ord: Seq<u32>, s2: Seq<u32>)
    requires
        history_ok(h),
        is_linearization(h, s, ord),
        ord.len() > 0,
        replay_ok(h, ord.skip(1), s2),
    ensures
        is_linearization(remove_sender(h, ord[0]), s2, ord.skip(1)),
{
    let q = ord[0];
    let rest = remove_sender(h, q);
    let tail = ord.skip(1);
    assert forall|k: int| 0 <= k < tail.len() implies #[trigger] tail[k] != q && invokes_in(rest, tail[k]) by {
        assert(tail[k] == ord[k + 1]);
        assert(ord.contains(ord[k + 1]));
        lemma_invokes_after_remove(h, q, tail[k]);
    }
    lemma_replay_after_remove(h, q, tail, s2);
    assert forall|r: u32| tail.contains(r) <==> invokes_in(rest, r) by {
        lemma_invokes_after_remove(h, q, r);
        if tail.contains(r) {
            let k = choose|k: int| 0 <= k < tail.len() && tail[k] == r;
            assert(ord[k + 1] == r);
        }
        if invokes_in(rest, r) {
            assert(ord.contains(r));
            let k = choose|k: int| 0 <= k < ord.len() && ord[k] == r;
            assert(k != 0);
            assert(tail[k - 1] == r);
        }
    }
    assert forall|a: int, b: int| 0 <= a < b < tail.len() implies !precedes(rest, #[trigger] tail[b], #[trigger] tail[a]) by {
        assert(tail[a] == ord[a + 1]);
        assert(tail[b] == ord[b + 1]);
        if precedes(rest, tail[b], tail[a]) {
            lemma_precedes_from_remove(h, q, tail[b], tail[a]);
        }
    }
}

/// Where a well-formed history has a linearization from `s` and the test
/// gives a verdict, the verdict is that it is linearizable.
pub proof fn lemma_linearizable_complete(h: Seq<KVTimestamp>, s: Seq<u32>, ord: Seq<u32>)
    requires
        history_ok(h),
        s.len() > 0,
        is_linearization(h, s, ord),
        linearizable(h, s) is Some,
    ensures
        linearizable(h, s) == Some(true),
    decreases h.len(), 1int, 0int,
{
    if h.len() > 0 {
        let x = h[0];
        if !is_invocation(x.operation) {
            assert(responds_in(h, x.sender));
        }
        let r0 = x.sender;
        assert(invokes_in(h, r0));
        assert(ord.contains(r0));
        let q = ord[0];
        assert(ord.contains(q));
        let iq = choose|a: int| 0 <= a < h.len() && h[a].sender == q && is_invocation(#[trigger] h[a].operation);
        assert(event_of(h[iq], q, true));
        lemma_first_is_minimal(h, s, ord, iq);
        lemma_invocations_end(h, 0);
        lemma_complete_from(h, s, ord, 0, iq);
    }
}

proof fn lemma_complete_from(h: Seq<KVTimestamp>, s: Seq<u32>, ord: Seq<u32>, i: int, iq: int)
    requires
        history_ok(h),
        s.len() > 0,
        h.len() > 0,
        is_linearization(h, s, ord),
        ord.len() > 0,
        0 <= i <= iq < invocations_end(h, 0),
        invocations_end(h, 0) <= h.len(),
        event_of(h[iq], ord[0], true),
        linearizable_from(h, s, i) is Some,
    ensures
        linearizable_from(h, s, i) == Some(true),
    decreases h.len(), 0int, invocations_end(h, 0) - i,
{
    lemma_invocations_end(h, 0);
    let op = h[i];
    let p = op.sender;
    lemma_remove_sender_len(h, p, i);
    let rest = remove_sender(h, p);
    if i == iq {
        let q = ord[0];
        lemma_invocation_of(h, q, iq);
        let v = response_value(op, h)->Some_0;
        lemma_history_ok_remove(h, q);
        if op.operation == KVOperation::WriteInvokation {
            lemma_tail_linearizes(h, s, ord, s.push(v));
            lemma_linearizable_complete(rest, s.push(v), ord.skip(1));
        } else {
            assert(op.operation != KVOperation::WriteResponse);
            lemma_tail_linearizes(h, s, ord, s);
            lemma_linearizable_complete(rest, s, ord.skip(1));
        }
    } else {
        if linearizable_from(h, s, i) != Some(true) {
            assert(linearizable_from(h, s, i) == linearizable_from(h, s, i + 1));
            lemma_complete_from(h, s, ord, i + 1, iq);
        }
    }
}


/// The test decides linearizability: on a history it can judge, where it
/// gives a verdict, the history is found linearizable from `s` exactly
/// where its operations have an order that respects real time and in which
/// every read returns the latest write, or the last value of `s`.
pub proof fn lemma_linearizable_decides(h: Seq<KVTimestamp>, s: Seq<u32>)
    requires
        history_ok(h),
        s.len() > 0,
        linearizable(h, s) is Some,
    ensures
        linearizable(h, s) == Some(true) <==> exists|ord: Seq<u32>| is_linearization(h, s, ord),
{
    if linearizable(h, s) == Some(true) {
        lemma_linearizable_sound(h, s);
    }
    if exists|ord: Seq<u32>| is_linearization(h, s, ord) {
        let ord = choose|ord: Seq<u32>| is_linearization(h, s, ord);
        lemma_linearizable_complete(h, s, ord);
    }
}

} // verus!
