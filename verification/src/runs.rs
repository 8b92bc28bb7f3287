//! Runs of consecutive prefixes: an ascending list of prefixes compressed into the closed
//! ranges that it fills.

use vstd::prelude::*;

verus! {

/// A run begins at position `i`: nothing stands before it, or its predecessor is not the
/// number just below.
pub open spec fn is_run_start(data: Seq<u16>, i: int) -> bool {
    i == 0 || data[i - 1] + 1 != data[i]
}

/// A run ends at position `i`: nothing stands behind it, or its successor is not the number
/// just above.
pub open spec fn is_run_end(data: Seq<u16>, i: int) -> bool {
    i == data.len() - 1 || data[i] + 1 != data[i + 1]
}

/// The elements at which a run begins, among the first `n` positions, in order.
pub open spec fn starts_before(data: Seq<u16>, n: int) -> Seq<u16>
    decreases n,
{
    if n <= 0 {
        Seq::empty()
    } else if is_run_start(data, n - 1) {
        starts_before(data, n - 1).push(data[n - 1])
    } else {
        starts_before(data, n - 1)
    }
}

/// The elements at which a run ends, among the first `n` positions, in order.
pub open spec fn ends_before(data: Seq<u16>, n: int) -> Seq<u16>
    decreases n,
{
    if n <= 0 {
        Seq::empty()
    } else if is_run_end(data, n - 1) {
        ends_before(data, n - 1).push(data[n - 1])
    } else {
        ends_before(data, n - 1)
    }
}

/// The first element of every run of `data`, in order.
pub open spec fn run_starts(data: Seq<u16>) -> Seq<u16> {
    starts_before(data, data.len() as int)
}

/// The last element of every run of `data`, in order.
pub open spec fn run_ends(data: Seq<u16>) -> Seq<u16> {
    ends_before(data, data.len() as int)
}

/// `data` ascends strictly.
pub open spec fn strictly_ascending(data: Seq<u16>) -> bool {
    forall|i: int, j: int| 0 <= i < j < data.len() ==> data[i] < data[j]
}

/// The run with number `k` holds `p`.
pub open spec fn run_holds(starts: Seq<u16>, ends: Seq<u16>, k: int, p: u16) -> bool {
    0 <= k < starts.len() && k < ends.len() && starts[k] <= p <= ends[k]
}

/// Some run holds `p`.
pub open spec fn in_some_run(starts: Seq<u16>, ends: Seq<u16>, p: u16) -> bool {
    exists|k: int| run_holds(starts, ends, k, p)
}

/// The runs stand in ascending order with a gap of at least one number between neighbours,
/// and none is empty.
pub open spec fn runs_separated(starts: Seq<u16>, ends: Seq<u16>) -> bool {
    &&& starts.len() == ends.len()
    &&& forall|k: int| 0 <= k < starts.len() ==> starts[k] <= ends[k]
    &&& forall|k: int| 0 <= k < starts.len() - 1 ==> ends[k] + 1 < starts[k + 1]
}

/// One of the first `n + 1` elements of `data` is `p`.
pub open spec fn holds_upto(data: Seq<u16>, n: int, p: u16) -> bool {
    exists|i: int| 0 <= i <= n && data[i] == p
}

/// Compresses `data` into its runs of consecutive numbers: the first elements of the runs
/// and, in the same order, their last elements.
pub fn consecutive_runs(data: &[u16]) -> (runs: (Vec<u16>, Vec<u16>))
    ensures
        runs.0@ == run_starts(data@),
        runs.1@ == run_ends(data@),
{
    let mut starts: Vec<u16> = Vec::new();
    let mut ends: Vec<u16> = Vec::new();
    if data.len() == 0 {
        return (starts, ends);
    }
    let mut slice_start: u16 = data[0];
    let mut i: usize = 1;
    proof {
        reveal_with_fuel(starts_before, 2);
        assert(starts@.push(slice_start) =~= starts_before(data@, 1));
    }
    while i < data.len()
        invariant
            1 <= i <= data.len(),
            starts@.push(slice_start) == starts_before(data@, i as int),
            ends@ == ends_before(data@, i - 1),
        decreases data.len() - i,
    {
        let previous: u32 = data[i - 1] as u32;
        let current: u32 = data[i] as u32;
        if previous + 1 != current {
            starts.push(slice_start);
            ends.push(data[i - 1]);
            slice_start = data[i];
        }
        i = i + 1;
    }
    starts.push(slice_start);
    ends.push(data[data.len() - 1]);
    (starts, ends)
}

/// The runs of the first `n + 1` elements of a strictly ascending list: as many starts as
/// ends once the end at position `n` is counted, separated from each other, and holding
/// exactly the first `n + 1` elements.
proof fn lemma_runs_of_prefix(data: Seq<u16>, n: int)
    requires
        strictly_ascending(data),
        0 <= n < data.len(),
    ensures
        runs_separated(starts_before(data, n + 1), ends_before(data, n).push(data[n])),
        forall|p: u16|
            #[trigger] in_some_run(
                starts_before(data, n + 1),
                ends_before(data, n).push(data[n]),
                p,
            ) <==> holds_upto(data, n, p),
        starts_before(data, n + 1).len() > 0,
    decreases n,
{
    let starts = starts_before(data, n + 1);
    let ends = ends_before(data, n).push(data[n]);
    if n == 0 {
        assert(starts_before(data, 0) =~= Seq::<u16>::empty());
        assert(ends_before(data, 0) =~= Seq::<u16>::empty());
        assert(starts =~= seq![data[0]]);
        assert(ends =~= seq![data[0]]);
        assert forall|p: u16| #[trigger]
            in_some_run(starts, ends, p) <==> holds_upto(data, n, p) by {
            if in_some_run(starts, ends, p) {
                let k = choose|k: int| run_holds(starts, ends, k, p);
                assert(data[0] == p);
            }
            if holds_upto(data, n, p) {
                assert(run_holds(starts, ends, 0, p));
            }
        }
    } else {
        lemma_runs_of_prefix(data, n - 1);
        let old_starts = starts_before(data, n);
        let old_ends = ends_before(data, n - 1).push(data[n - 1]);
        let last = old_starts.len() - 1;
        assert(data[n - 1] < data[n]);
        if data[n - 1] + 1 == data[n] {
            assert(starts == old_starts);
            assert(ends_before(data, n) == ends_before(data, n - 1));
            assert(ends =~= old_ends.update(last, data[n]));
            assert forall|p: u16| #[trigger]
                in_some_run(starts, ends, p) <==> holds_upto(data, n, p) by {
                if in_some_run(starts, ends, p) {
                    let k = choose|k: int| run_holds(starts, ends, k, p);
                    if k == last && p == data[n] {
                    } else {
                        assert(run_holds(old_starts, old_ends, k, p));
                        assert(in_some_run(old_starts, old_ends, p));
                        assert(holds_upto(data, n - 1, p));
                        let i = choose|i: int| 0 <= i <= n - 1 && data[i] == p;
                        assert(0 <= i <= n && data[i] == p);
                    }
                }
                if holds_upto(data, n, p) {
                    let i = choose|i: int| 0 <= i <= n && data[i] == p;
                    if i == n {
                        assert(run_holds(starts, ends, last, p));
                    } else {
                        assert(0 <= i <= n - 1 && data[i] == p);
                        assert(holds_upto(data, n - 1, p));
                        assert(in_some_run(old_starts, old_ends, p));
                        let k = choose|k: int| run_holds(old_starts, old_ends, k, p);
                        assert(run_holds(starts, ends, k, p));
                    }
                }
            }
        } else {
            assert(starts =~= old_starts.push(data[n]));
            assert(ends_before(data, n) =~= old_ends);
            assert(ends =~= old_ends.push(data[n]));
            assert forall|p: u16| #[trigger]
                in_some_run(starts, ends, p) <==> holds_upto(data, n, p) by {
                if in_some_run(starts, ends, p) {
                    let k = choose|k: int| run_holds(starts, ends, k, p);
                    if k == last + 1 {
                        assert(data[n] == p);
                    } else {
                        assert(run_holds(old_starts, old_ends, k, p));
                        assert(in_some_run(old_starts, old_ends, p));
                        assert(holds_upto(data, n - 1, p));
                        let i = choose|i: int| 0 <= i <= n - 1 && data[i] == p;
                        assert(0 <= i <= n && data[i] == p);
                    }
                }
                if holds_upto(data, n, p) {
                    let i = choose|i: int| 0 <= i <= n && data[i] == p;
                    if i == n {
                        assert(run_holds(starts, ends, last + 1, p));
                    } else {
                        assert(0 <= i <= n - 1 && data[i] == p);
                        assert(holds_upto(data, n - 1, p));
                        assert(in_some_run(old_starts, old_ends, p));
                        let k = choose|k: int| run_holds(old_starts, old_ends, k, p);
                        assert(run_holds(starts, ends, k, p));
                    }
                }
            }
        }
    }
}

/// The runs of a strictly ascending list are separated from each other, and a number lies in
/// one of them exactly when the list holds it.
pub proof fn lemma_runs_cover(data: Seq<u16>)
    requires
        strictly_ascending(data),
    ensures
        runs_separated(run_starts(data), run_ends(data)),
        forall|p: u16| #[trigger]
            in_some_run(run_starts(data), run_ends(data), p) <==> data.contains(p),
{
    let starts = run_starts(data);
    let ends = run_ends(data);
    if data.len() == 0 {
        assert forall|p: u16| #[trigger]
            in_some_run(starts, ends, p) <==> data.contains(p) by {
            if in_some_run(starts, ends, p) {
                let k = choose|k: int| run_holds(starts, ends, k, p);
            }
        }
    } else {
        let n = data.len() - 1;
        lemma_runs_of_prefix(data, n);
        assert(ends == ends_before(data, n).push(data[n]));
        assert forall|p: u16| #[trigger]
            in_some_run(starts, ends, p) <==> data.contains(p) by {
            if in_some_run(starts, ends, p) {
                assert(holds_upto(data, n, p));
                let i = choose|i: int| 0 <= i <= n && data[i] == p;
                assert(data[i] == p);
            }
            if data.contains(p) {
                let i = choose|i: int| 0 <= i < data.len() && data[i] == p;
                assert(0 <= i <= n && data[i] == p);
                assert(holds_upto(data, n, p));
            }
        }
    }
}

/// In separated runs no number lies in two runs.
pub proof fn lemma_run_unique(starts: Seq<u16>, ends: Seq<u16>, j: int, k: int, p: u16)
    requires
        runs_separated(starts, ends),
        run_holds(starts, ends, j, p),
        run_holds(starts, ends, k, p),
    ensures
        j == k,
{
    if j < k {
        lemma_runs_ascend(starts, ends, j, k);
    } else if k < j {
        lemma_runs_ascend(starts, ends, k, j);
    }
}

/// In separated runs a later run begins above the end of an earlier one.
proof fn lemma_runs_ascend(starts: Seq<u16>, ends: Seq<u16>, j: int, k: int)
    requires
        runs_separated(starts, ends),
        0 <= j < k < starts.len(),
    ensures
        ends[j] < starts[k],
    decreases k - j,
{
    if j + 1 < k {
        lemma_runs_ascend(starts, ends, j, k - 1);
    }
}

} // verus!
