//! Sorting the positions of a list by a strict total order on them.

use vstd::prelude::*;

verus! {

/// A strict total order on the positions `0 .. size` of some list.
pub trait Precedence {
    /// The number of positions.
    spec fn size(&self) -> nat;

    /// Position `a` comes before position `b`.
    spec fn before(&self, a: int, b: int) -> bool;

    /// Of two different positions one comes before the other.
    proof fn lemma_total(&self, a: int, b: int)
        requires
            0 <= a < self.size(),
            0 <= b < self.size(),
            a != b,
        ensures
            self.before(a, b) || self.before(b, a),
    ;

    /// The order is transitive.
    proof fn lemma_transitive(&self, a: int, b: int, c: int)
        requires
            0 <= a < self.size(),
            0 <= b < self.size(),
            0 <= c < self.size(),
            self.before(a, b),
            self.before(b, c),
        ensures
            self.before(a, c),
    ;

    /// The number of positions.
    fn count(&self) -> (n: usize)
        ensures
            n == self.size(),
    ;

    /// Decides whether position `a` comes before position `b`.
    fn precedes(&self, a: usize, b: usize) -> (r: bool)
        requires
            a < self.size(),
            b < self.size(),
        ensures
            r == self.before(a as int, b as int),
    ;
}

/// `order` lists every position below `n` once.
pub open spec fn is_permutation(order: Seq<usize>, n: nat) -> bool {
    &&& order.len() == n
    &&& forall|i: int| 0 <= i < n ==> (#[trigger] order[i]) < n
    &&& forall|i: int, j: int| 0 <= i < j < n ==> order[i] != order[j]
}

/// A list of `n` different positions below `n` holds each of them.
pub proof fn lemma_permutation_onto(order: Seq<usize>, s: int)
    requires
        is_permutation(order, order.len()),
        0 <= s < order.len(),
    ensures
        exists|i: int| 0 <= i < order.len() && order[i] == s,
{
    let n = order.len();
    let values = order.to_set();
    let all = Set::new(|v: usize| v < n);
    vstd::seq_lib::seq_to_set_is_finite(order);
    assert(order.no_duplicates());
    order.unique_seq_to_set();
    assert(values.subset_of(all)) by {
        assert forall|v: usize| values.contains(v) implies all.contains(v) by {
            let i = choose|i: int| 0 <= i < order.len() && order[i] == v;
        }
    }
    lemma_positions_below(n);
    vstd::set_lib::lemma_len_subset(values, all);
    vstd::set_lib::lemma_subset_equality(values, all);
    assert(all.contains(s as usize));
    assert(values.contains(s as usize));
}

/// There are `n` positions below `n`.
proof fn lemma_positions_below(n: nat)
    ensures
        Set::new(|v: usize| v < n).finite(),
        Set::new(|v: usize| v < n).len() == (if n <= usize::MAX + 1 {
            n
        } else {
            (usize::MAX + 1) as nat
        }),
    decreases n,
{
    let all = Set::new(|v: usize| v < n);
    if n == 0 {
        assert(all =~= Set::<usize>::empty());
    } else {
        lemma_positions_below((n - 1) as nat);
        let fewer = Set::new(|v: usize| v < n - 1);
        if n <= usize::MAX + 1 {
            assert(all =~= fewer.insert((n - 1) as usize));
        } else {
            assert(all =~= fewer);
        }
    }
}

/// Neighbours among the first `bound` positions of `order` stand in order.
pub open spec fn neighbours_ordered<P: Precedence>(p: &P, order: Seq<usize>, bound: int) -> bool {
    forall|k: int| 0 <= k < bound - 1 ==> p.before(#[trigger] order[k] as int, order[k + 1] as int)
}

/// Every earlier position of `order` comes before every later one.
pub open spec fn is_sorted<P: Precedence>(p: &P, order: Seq<usize>) -> bool {
    forall|i: int, j: int|
        0 <= i < j < order.len() ==> p.before(
            #[trigger] order[i] as int,
            #[trigger] order[j] as int,
        )
}

/// Where neighbours stand in order, any two positions do.
pub proof fn lemma_neighbours_suffice<P: Precedence>(p: &P, order: Seq<usize>, i: int, j: int)
    requires
        is_permutation(order, p.size()),
        neighbours_ordered(p, order, order.len() as int),
        0 <= i < j < order.len(),
    ensures
        p.before(order[i] as int, order[j] as int),
    decreases j - i,
{
    if i + 1 < j {
        lemma_neighbours_suffice(p, order, i, j - 1);
        assert(p.before(order[j - 1] as int, order[j - 1 + 1] as int));
        p.lemma_transitive(order[i] as int, order[j - 1] as int, order[j] as int);
    }
}

/// No two positions come before each other under `lt`.
pub open spec fn is_asymmetric(lt: spec_fn(int, int) -> bool) -> bool {
    forall|a: int, b: int| #![trigger lt(a, b)] !(lt(a, b) && lt(b, a))
}

/// Every earlier position of `order` comes before every later one under `lt`.
pub open spec fn sorted_by(lt: spec_fn(int, int) -> bool, order: Seq<usize>) -> bool {
    forall|i: int, j: int|
        0 <= i < j < order.len() ==> lt(#[trigger] order[i] as int, #[trigger] order[j] as int)
}

/// Two sorted lists of the same positions agree up to `k`.
proof fn lemma_sorted_agree(lt: spec_fn(int, int) -> bool, a: Seq<usize>, b: Seq<usize>, k: int)
    requires
        is_permutation(a, a.len()),
        is_permutation(b, a.len()),
        sorted_by(lt, a),
        sorted_by(lt, b),
        is_asymmetric(lt),
        0 <= k <= a.len(),
    ensures
        forall|i: int| 0 <= i < k ==> a[i] == b[i],
    decreases k,
{
    if k > 0 {
        lemma_sorted_agree(lt, a, b, k - 1);
        let x = a[k - 1];
        let y = b[k - 1];
        if x != y {
            lemma_permutation_onto(b, x as int);
            let j = choose|j: int| 0 <= j < b.len() && b[j] == x;
            lemma_permutation_onto(a, y as int);
            let i = choose|i: int| 0 <= i < a.len() && a[i] == y;
            if j < k - 1 {
                assert(a[j] == b[j]);
            }
            if i < k - 1 {
                assert(a[i] == b[i]);
            }
            assert(lt(b[k - 1] as int, b[j] as int));
            assert(lt(a[k - 1] as int, a[i] as int));
        }
    }
}

/// Under an order in which no two positions come before each other, the positions have
/// one sorted list only.
pub proof fn lemma_sorted_decided(lt: spec_fn(int, int) -> bool, a: Seq<usize>, b: Seq<usize>)
    requires
        is_permutation(a, a.len()),
        is_permutation(b, a.len()),
        sorted_by(lt, a),
        sorted_by(lt, b),
        is_asymmetric(lt),
    ensures
        a == b,
{
    lemma_sorted_agree(lt, a, b, a.len() as int);
    assert(a =~= b);
}

/// The positions of `p`, sorted by `p`.
pub fn sorted_positions<P: Precedence>(p: &P) -> (order: Vec<usize>)
    ensures
        is_permutation(order@, p.size()),
        is_sorted(p, order@),
{
    let n = p.count();
    let mut order: Vec<usize> = Vec::new();
    let mut i: usize = 0;
    while i < n
        invariant
            i <= n,
            order.len() == i,
            forall|k: int| 0 <= k < i ==> order@[k] == k,
        decreases n - i,
    {
        order.push(i);
        i = i + 1;
    }
    let mut i: usize = 1;
    while i < n
        invariant
            n == p.size(),
            1 <= i,
            is_permutation(order@, n as nat),
            neighbours_ordered(p, order@, if i <= n { i as int } else { n as int }),
        decreases n - i,
    {
        let mut j: usize = i;
        while j > 0 && p.precedes(order[j], order[j - 1])
            invariant
                n == p.size(),
                0 <= j <= i < n,
                is_permutation(order@, n as nat),
                forall|k: int|
                    0 <= k < i && k != j - 1 ==> p.before(
                        #[trigger] order@[k] as int,
                        order@[k + 1] as int,
                    ),
                0 < j < i ==> p.before(order@[j - 1] as int, order@[j + 1] as int),
            decreases j,
        {
            let ghost before = order@;
            let moving = order[j];
            let resting = order[j - 1];
            order.set(j, resting);
            order.set(j - 1, moving);
            proof {
                assert forall|k: int| 0 <= k < i && k != j - 2 implies p.before(
                    #[trigger] order@[k] as int,
                    order@[k + 1] as int,
                ) by {
                    if k == j - 1 {
                    } else if k == j {
                    } else {
                        assert(p.before(before[k] as int, before[k + 1] as int));
                    }
                }
                if 1 < j {
                    assert(p.before(before[j - 2] as int, before[j - 2 + 1] as int));
                }
            }
            j = j - 1;
        }
        proof {
            if j > 0 {
                p.lemma_total(order@[j as int] as int, order@[j - 1] as int);
            }
        }
        i = i + 1;
    }
    proof {
        assert forall|a: int, b: int| 0 <= a < b < order@.len() implies p.before(
            #[trigger] order@[a] as int,
            #[trigger] order@[b] as int,
        ) by {
            lemma_neighbours_suffice(p, order@, a, b);
        }
    }
    order
}

} // verus!
