//! The summary of timeouts and retries over the runs of an experiment.
use vstd::prelude::*;

verus! {

/// The sum of the values.
pub open spec fn sum_of(s: Seq<u64>) -> int
    decreases s.len(),
{
    if s.len() == 0 {
        0
    } else {
        sum_of(s.drop_last()) + s.last()
    }
}

/// The values are in ascending order.
pub open spec fn ascending(s: Seq<u64>) -> bool {
    forall|a: int, b: int| 0 <= a < b < s.len() ==> s[a] <= s[b]
}

/// How many values are positive.
pub open spec fn num_positive(s: Seq<u64>) -> nat {
    s.filter(|x: u64| x > 0).len()
}

proof fn lemma_sum_prefix_bound(s: Seq<u64>, i: int)
    requires
        0 <= i <= s.len(),
    ensures
        sum_of(s.take(i)) <= sum_of(s),
    decreases s.len() - i,
{
    if i < s.len() {
        lemma_sum_prefix_bound(s, i + 1);
        assert(s.take(i + 1).drop_last() =~= s.take(i));
    } else {
        assert(s.take(i) =~= s);
    }
}

/// Returns the sum of the values.
pub fn sum(values: &Vec<u64>) -> (total: u64)
    requires
        sum_of(values@) <= u64::MAX,
    ensures
        total == sum_of(values@),
{
    let mut total: u64 = 0;
    let mut i: usize = 0;
    while i < values.len()
        invariant
            i <= values@.len(),
            total == sum_of(values@.take(i as int)),
            sum_of(values@) <= u64::MAX,
        decreases values@.len() - i,
    {
        proof {
            assert(values@.take(i + 1).drop_last() =~= values@.take(i as int));
            lemma_sum_prefix_bound(values@, i + 1);
        }
        total = total + values[i];
        i = i + 1;
    }
    assert(values@.take(values@.len() as int) =~= values@);
    total
}

/// Returns how many values are positive.
pub fn count_positive(values: &Vec<u64>) -> (n: usize)
    ensures
        n == num_positive(values@),
{
    let mut n: usize = 0;
    let mut i: usize = 0;
    while i < values.len()
        invariant
            i <= values@.len(),
            n == num_positive(values@.take(i as int)),
            n <= i,
        decreases values@.len() - i,
    {
        proof {
            assert(values@.take(i + 1).drop_last() =~= values@.take(i as int));
            reveal(Seq::filter);
        }
        if values[i] > 0 {
            n = n + 1;
        }
        i = i + 1;
    }
    assert(values@.take(values@.len() as int) =~= values@);
    n
}

/// Returns the values in ascending order.
pub fn sorted(values: &Vec<u64>) -> (s: Vec<u64>)
    ensures
        ascending(s@),
        s@.to_multiset() == values@.to_multiset(),
{
    let mut s: Vec<u64> = Vec::new();
    let mut i: usize = 0;
    assert(s@ =~= values@.take(0));
    while i < values.len()
        invariant
            i <= values@.len(),
            ascending(s@),
            s@.to_multiset() == values@.take(i as int).to_multiset(),
        decreases values@.len() - i,
    {
        let x = values[i];
        let mut pos: usize = 0;
        while pos < s.len() && s[pos] <= x
            invariant
                pos <= s@.len(),
                forall|a: int| 0 <= a < pos ==> s@[a] <= x,
            decreases s@.len() - pos,
        {
            pos = pos + 1;
        }
        let ghost before = s@;
        proof {
            assert forall|a: int| pos <= a < before.len() implies before[a] > x by {
                assert(before[pos as int] > x);
            }
        }
        s.insert(pos, x);
        proof {
            vstd::seq_lib::to_multiset_insert(before, pos as int, x);
            assert(values@.take(i + 1) =~= values@.take(i as int).push(x));
            assert(values@.take(i as int).push(x).to_multiset() =~= values@.take(i as int).to_multiset().insert(x)) by {
                vstd::seq_lib::to_multiset_build(values@.take(i as int), x);
            }
            assert forall|a: int, b: int| 0 <= a < b < s@.len() implies s@[a] <= s@[b] by {
                if b < pos {
                } else if b == pos {
                } else if a < pos {
                } else if a == pos {
                } else {
                    assert(s@[a] == before[a - 1]);
                    assert(s@[b] == before[b - 1]);
                }
            }
        }
        i = i + 1;
    }
    assert(values@.take(values@.len() as int) =~= values@);
    s
}

/// The summary of the positive counts of a kind over the runs.
#[derive(PartialEq, Eq, Structural, Clone, Copy)]
pub struct CountSummary {
    /// How many runs had some.
    pub runs_with: usize,
    pub runs: usize,
    pub sum: u64,
    pub avg: u64,
    pub median: u64,
    pub min: u64,
    pub max: u64,
}

/// The summary of `values` over `num_iterations` runs, given them in
/// ascending order (`sorted`) and the list the median is read from.
pub open spec fn summary_of(values: Seq<u64>, sorted: Seq<u64>, median_from: Seq<u64>, num_iterations: u64) -> CountSummary {
    CountSummary {
        runs_with: num_positive(values) as usize,
        runs: values.len() as usize,
        sum: sum_of(values) as u64,
        avg: (sum_of(values) / num_iterations as int) as u64,
        median: median_from[(values.len() / 2) as int],
        min: sorted[0],
        max: sorted[sorted.len() - 1],
    }
}

/// The summaries of the timeouts and of the retries, one per run, each
/// where some run had any. The median of the retries is read from the
/// timeout counts (sorted where there were timeouts), at the middle
/// position of the retry counts.
pub fn timeouts_retried_summary(num_timed_out: &Vec<u64>, num_retried: &Vec<u64>, num_iterations: u64) -> (out: (
    Option<CountSummary>,
    Option<CountSummary>,
))
    requires
        sum_of(num_timed_out@) <= u64::MAX,
        sum_of(num_retried@) <= u64::MAX,
        sum_of(num_timed_out@) > 0 || sum_of(num_retried@) > 0 ==> num_iterations > 0,
        sum_of(num_retried@) > 0 ==> num_retried@.len() / 2 < num_timed_out@.len(),
    ensures
        sum_of(num_timed_out@) == 0 ==> out.0 is None,
        sum_of(num_timed_out@) > 0 ==> (out.0 matches Some(t) && exists|s: Seq<u64>|
            #![trigger summary_of(num_timed_out@, s, s, num_iterations)]
            ascending(s) && s.to_multiset() == num_timed_out@.to_multiset() && t == summary_of(
                num_timed_out@,
                s,
                s,
                num_iterations,
            )),
        sum_of(num_retried@) == 0 ==> out.1 is None,
        sum_of(num_retried@) > 0 ==> (out.1 matches Some(r) && exists|s: Seq<u64>, t: Seq<u64>|
            #![trigger summary_of(num_retried@, s, t, num_iterations)]
            ascending(s) && s.to_multiset() == num_retried@.to_multiset() && (if sum_of(
                num_timed_out@,
            ) > 0 {
                ascending(t) && t.to_multiset() == num_timed_out@.to_multiset()
            } else {
                t == num_timed_out@
            }) && r == summary_of(num_retried@, s, t, num_iterations)),
{
    let timed_out_sum = sum(num_timed_out);
    let retried_sum = sum(num_retried);
    let timed_out_sorted = if timed_out_sum > 0 {
        sorted(num_timed_out)
    } else {
        copy_counts(num_timed_out)
    };
    proof {
        vstd::seq_lib::to_multiset_len(timed_out_sorted@);
        vstd::seq_lib::to_multiset_len(num_timed_out@);
    }
    let timed_out = if timed_out_sum > 0 {
        let len = num_timed_out.len();
        proof {
            if len == 0 {
                assert(num_timed_out@ =~= Seq::<u64>::empty());
            }
        }
        let t = CountSummary {
            runs_with: count_positive(num_timed_out),
            runs: len,
            sum: timed_out_sum,
            avg: timed_out_sum / num_iterations,
            median: timed_out_sorted[len / 2],
            min: timed_out_sorted[0],
            max: timed_out_sorted[len - 1],
        };
        proof {
            let ss = timed_out_sorted@;
            assert(ss[ss.len() - 1] == t.max);
            assert(t == summary_of(num_timed_out@, ss, ss, num_iterations));
        }
        Some(t)
    } else {
        None
    };
    let retried = if retried_sum > 0 {
        let len = num_retried.len();
        proof {
            if len == 0 {
                assert(num_retried@ =~= Seq::<u64>::empty());
            }
        }
        let retried_sorted = sorted(num_retried);
        proof {
            vstd::seq_lib::to_multiset_len(retried_sorted@);
            vstd::seq_lib::to_multiset_len(num_retried@);
        }
        let r = CountSummary {
            runs_with: count_positive(num_retried),
            runs: len,
            sum: retried_sum,
            avg: retried_sum / num_iterations,
            median: timed_out_sorted[len / 2],
            min: retried_sorted[0],
            max: retried_sorted[len - 1],
        };
        proof {
            let ss = retried_sorted@;
            let tt = timed_out_sorted@;
            assert(ss[ss.len() - 1] == r.max);
            assert(tt[(num_retried@.len() / 2) as int] == r.median);
            assert(r == summary_of(num_retried@, ss, tt, num_iterations));
        }
        Some(r)
    } else {
        None
    };
    (timed_out, retried)
}

/// A copy of a list of counts.
fn copy_counts(values: &Vec<u64>) -> (c: Vec<u64>)
    ensures
        c@ == values@,
{
    let mut c: Vec<u64> = Vec::new();
    let mut i: usize = 0;
    while i < values.len()
        invariant
            i <= values@.len(),
            c@ == values@.take(i as int),
        decreases values@.len() - i,
    {
        c.push(values[i]);
        i = i + 1;
        proof {
            assert(c@ =~= values@.take(i as int));
        }
    }
    assert(values@.take(values@.len() as int) =~= values@);
    c
}

} // verus!
