use vstd::prelude::*;

use vstd::arithmetic::div_mod::lemma_div_decreases;
use vstd::arithmetic::div_mod::lemma_fundamental_div_mod;
use vstd::arithmetic::div_mod::lemma_mod_bound;

verus! {

/// A well-formed partition plan over the index range `[0, n)`: every range
/// `[r[k].0, r[k].1)` is nonempty, consecutive ranges abut (so the plan is
/// ordered and the ranges are pairwise disjoint), the first range starts at
/// `0` and the last ends at `n`. An empty plan stands exactly for `n == 0`.
pub open spec fn ranges_wf(r: Seq<(usize, usize)>, n: int) -> bool {
    &&& forall|k: int| 0 <= k < r.len() ==> (#[trigger] r[k]).0 < r[k].1
    &&& forall|k: int| 0 <= k < r.len() - 1 ==> (#[trigger] r[k]).1 == r[k + 1].0
    &&& (r.len() == 0 <==> n == 0)
    &&& r.len() > 0 ==> r[0].0 == 0 && r[r.len() - 1].1 == n
}

/// The total number of indices a plan assigns: the sum of its range lengths.
pub open spec fn ranges_total(r: Seq<(usize, usize)>) -> int
    decreases r.len(),
{
    if r.len() == 0 {
        0
    } else {
        ranges_total(r.drop_last()) + (r.last().1 - r.last().0)
    }
}

/// Partitions the index range `[0, n)` into at most `workers` disjoint,
/// consecutive, nonempty index ranges, assigned before any work begins.
///
/// Each worker of the fan-out driver owns one range: it draws the samples
/// for exactly those stream positions with its own generator instance and
/// writes only there, so no position is observed or written by two workers,
/// and the assembled stream is ordered by index position alone, never by
/// completion time. `n == 0` yields the empty plan.
pub fn partition_ranges(n: usize, workers: usize) -> (r: Vec<(usize, usize)>)
    requires
        1 <= workers,
    ensures
        ranges_wf(r@, n as int),
        r@.len() <= workers,
{
    let chunk: usize;
    if n == 0 {
        chunk = 1;
    } else if workers == 1 {
        chunk = n;
        assert(n <= chunk * workers) by (nonlinear_arith)
            requires
                chunk == n && workers == 1,
        {}
    } else if n % workers == 0 {
        chunk = n / workers;
        proof {
            lemma_fundamental_div_mod(n as int, workers as int);
            assert(chunk >= 1 && n <= chunk * workers) by (nonlinear_arith)
                requires
                    n as int == workers as int * (chunk as int),
                    n >= 1,
                    workers >= 1,
            {}
        }
    } else {
        proof {
            lemma_div_decreases(n as int, workers as int);
        }
        chunk = n / workers + 1;
        proof {
            lemma_fundamental_div_mod(n as int, workers as int);
            lemma_mod_bound(n as int, workers as int);
            assert(n <= chunk * workers) by (nonlinear_arith)
                requires
                    n as int == (workers as int) * ((chunk - 1) as int) + (n as int) % (
                    workers as int),
                    (n as int) % (workers as int) < workers as int,
                    workers >= 1,
                    chunk >= 1,
            {}
        }
    }
    let mut out: Vec<(usize, usize)> = Vec::new();
    let mut start: usize = 0;
    while start < n
        invariant
            1 <= workers,
            n > 0 ==> chunk >= 1,
            n > 0 ==> n <= chunk * workers,
            n == 0 ==> out@.len() == 0,
            start <= n,
            start as int == out@.len() * (chunk as int) || start == n,
            out@.len() == 0 ==> start == 0,
            out@.len() > 0 ==> out@[0].0 == 0 && out@[out@.len() - 1].1 == start,
            forall|k: int| 0 <= k < out@.len() ==> (#[trigger] out@[k]).0 < out@[k].1,
            forall|k: int| 0 <= k < out@.len() - 1 ==> (#[trigger] out@[k]).1 == out@[k + 1].0,
            out@.len() == 0 || (out@.len() - 1) * (chunk as int) < n as int,
        decreases n - start,
    {
        let remaining = n - start;
        let size = if remaining < chunk {
            remaining
        } else {
            chunk
        };
        let end = start + size;
        let ghost prior = out@;
        proof {
            if size == chunk {
                assert((prior.len() + 1) * (chunk as int) == prior.len() * (chunk as int)
                    + chunk as int) by (nonlinear_arith);
            }
        }
        out.push((start, end));
        proof {
            assert forall|k: int| 0 <= k < out@.len() implies (#[trigger] out@[k]).0
                < out@[k].1 by {
                if k < prior.len() {
                    assert(out@[k] == prior[k]);
                }
            }
            assert forall|k: int| 0 <= k < out@.len() - 1 implies (#[trigger] out@[k]).1 == out@[k
                + 1].0 by {
                if k < prior.len() - 1 {
                    assert(out@[k] == prior[k]);
                    assert(out@[k + 1] == prior[k + 1]);
                }
            }
        }
        start = end;
    }
    proof {
        if out@.len() > 0 {
            assert(out@.len() - 1 < workers as int) by (nonlinear_arith)
                requires
                    (out@.len() - 1) * (chunk as int) < n as int,
                    n as int <= (chunk as int) * (workers as int),
                    chunk >= 1,
            {}
        }
    }
    out
}

/// The concatenation of partial streams, in order: part `k` lands, whole and
/// unchanged, before part `k + 1`.
pub open spec fn streams_cat(parts: Seq<Seq<u64>>) -> Seq<u64>
    decreases parts.len(),
{
    if parts.len() == 0 {
        Seq::empty()
    } else {
        streams_cat(parts.drop_last()) + parts.last()
    }
}

/// Collects the workers' partial outputs into one flat, order-preserving
/// buffer: the result is exactly the parts laid end to end in plan order,
/// whatever order the workers finished in.
pub fn concat_streams(parts: Vec<Vec<u64>>) -> (r: Vec<u64>)
    ensures
        r@ == streams_cat(parts@.map_values(|p: Vec<u64>| p@)),
{
    let ghost orig = parts@.map_values(|p: Vec<u64>| p@);
    let mut rest = parts;
    let mut acc: Vec<u64> = Vec::new();
    proof {
        assert(orig.subrange(0, 0) =~= Seq::<Seq<u64>>::empty());
    }
    while rest.len() > 0
        invariant
            orig == parts@.map_values(|p: Vec<u64>| p@),
            rest@.len() <= orig.len(),
            forall|k: int|
                0 <= k < rest@.len() ==> (#[trigger] rest@[k])@ == orig[orig.len() - rest@.len()
                    + k],
            acc@ == streams_cat(orig.subrange(0, orig.len() - rest@.len())),
        decreases rest@.len(),
    {
        let ghost done = orig.len() - rest@.len();
        let mut s = rest.remove(0);
        acc.append(&mut s);
        proof {
            let t = orig.subrange(0, done + 1);
            assert(t.drop_last() =~= orig.subrange(0, done));
            assert(t.last() == orig[done]);
            assert(streams_cat(t) == streams_cat(t.drop_last()) + t.last());
        }
    }
    proof {
        assert(orig.subrange(0, orig.len() as int) =~= orig);
    }
    acc
}

/// Law of exact coverage: a well-formed plan over `[0, n)` assigns exactly
/// `n` indices in total — every stream position is drawn by some worker, and
/// the range lengths sum to the stream length.
pub proof fn lemma_ranges_cover(r: Seq<(usize, usize)>, n: int)
    requires
        ranges_wf(r, n),
    ensures
        ranges_total(r) == n,
    decreases r.len(),
{
    if r.len() == 0 {
    } else if r.len() == 1 {
        assert(r.drop_last().len() == 0);
        assert(ranges_total(r.drop_last()) == 0);
    } else {
        let prefix = r.drop_last();
        let m = prefix[prefix.len() - 1].1;
        assert forall|k: int| 0 <= k < prefix.len() implies (#[trigger] prefix[k]).0
            < prefix[k].1 by {
            assert(prefix[k] == r[k]);
        }
        assert forall|k: int| 0 <= k < prefix.len() - 1 implies (#[trigger] prefix[k]).1 == prefix[k
            + 1].0 by {
            assert(prefix[k] == r[k]);
            assert(prefix[k + 1] == r[k + 1]);
        }
        assert(prefix[0] == r[0]);
        assert(ranges_wf(prefix, m as int));
        lemma_ranges_cover(prefix, m as int);
        // The last range begins where the prefix ends and ends at `n`.
        assert(r[r.len() - 2].1 == r[r.len() - 1].0);
        assert(ranges_total(r) == ranges_total(prefix) + (r.last().1 - r.last().0));
    }
}

/// Law of assembled length: when every worker hands back exactly as many
/// samples as its assigned range holds, the collected flat stream holds
/// exactly `n` samples — generation over a well-formed plan yields the
/// requested length, for any `n`.
pub proof fn lemma_assembled_len(parts: Seq<Seq<u64>>, plan: Seq<(usize, usize)>, n: int)
    requires
        ranges_wf(plan, n),
        parts.len() == plan.len(),
        forall|k: int|
            0 <= k < plan.len() ==> (#[trigger] parts[k]).len() == plan[k].1 - plan[k].0,
    ensures
        streams_cat(parts).len() == n,
    decreases parts.len(),
{
    if plan.len() == 0 {
    } else if plan.len() == 1 {
        assert(parts.drop_last().len() == 0);
        assert(streams_cat(parts.drop_last()).len() == 0);
    } else {
        let plan_prefix = plan.drop_last();
        let m = plan_prefix[plan_prefix.len() - 1].1;
        assert forall|k: int| 0 <= k < plan_prefix.len() implies (#[trigger] plan_prefix[k]).0
            < plan_prefix[k].1 by {
            assert(plan_prefix[k] == plan[k]);
        }
        assert forall|k: int|
            0 <= k < plan_prefix.len() - 1 implies (#[trigger] plan_prefix[k]).1 == plan_prefix[k
            + 1].0 by {
            assert(plan_prefix[k] == plan[k]);
            assert(plan_prefix[k + 1] == plan[k + 1]);
        }
        assert(plan_prefix[0] == plan[0]);
        assert(ranges_wf(plan_prefix, m as int));
        let parts_prefix = parts.drop_last();
        assert forall|k: int|
            0 <= k < plan_prefix.len() implies (#[trigger] parts_prefix[k]).len() == plan_prefix[
            k].1 - plan_prefix[k].0 by {
            assert(parts_prefix[k] == parts[k]);
            assert(plan_prefix[k] == plan[k]);
        }
        lemma_assembled_len(parts_prefix, plan_prefix, m as int);
        // The last range begins where the prefix ends and ends at `n`.
        assert(plan[plan.len() - 2].1 == plan[plan.len() - 1].0);
        assert(parts[parts.len() - 1].len() == n - m);
        assert(streams_cat(parts) == streams_cat(parts_prefix) + parts.last());
    }
}

/// Law of exclusive ownership: two distinct ranges of a well-formed plan are
/// disjoint — the earlier one ends no later than the later one begins, so no
/// buffer position is assigned to two workers.
pub proof fn lemma_ranges_disjoint(r: Seq<(usize, usize)>, n: int, k1: int, k2: int)
    requires
        ranges_wf(r, n),
        0 <= k1 < k2 < r.len(),
    ensures
        r[k1].1 <= r[k2].0,
    decreases k2 - k1,
{
    if k2 > k1 + 1 {
        lemma_ranges_disjoint(r, n, k1, k2 - 1);
    }
}

} // verus!
