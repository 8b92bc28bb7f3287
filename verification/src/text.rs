//! Character sequences and their lexicographic order.

use vstd::prelude::*;
use vstd::std_specs::iter::IteratorSpec;

verus! {

/// Outcome of comparing two values under a total order.
#[derive(Clone, Copy, Debug, PartialEq, Eq, Structural)]
pub enum Order {
    Less,
    Equal,
    Greater,
}

/// The code point of a character.
pub open spec fn code(c: char) -> int {
    c as u32 as int
}

/// Different characters have different code points.
pub proof fn lemma_code_injective(c: char, d: char)
    requires
        code(c) == code(d),
    ensures
        c == d,
{
    vstd::utf8::char_u32_cast(c, c as u32);
    vstd::utf8::char_u32_cast(d, d as u32);
}

/// `a` and `b` agree on their first `k` characters.
pub open spec fn agree_before(a: Seq<char>, b: Seq<char>, k: int) -> bool {
    &&& 0 <= k <= a.len()
    &&& k <= b.len()
    &&& forall|i: int| 0 <= i < k ==> a[i] == b[i]
}

/// `a` sorts before `b`, decided at position `k`: the sequences agree before `k`, and there
/// either `a` ends while `b` goes on, or `a` holds the smaller code point.
pub open spec fn less_at(a: Seq<char>, b: Seq<char>, k: int) -> bool {
    &&& agree_before(a, b, k)
    &&& k < b.len()
    &&& (k == a.len() || code(a[k]) < code(b[k]))
}

/// Strict lexicographic order on character sequences, by code point.
pub open spec fn text_lt(a: Seq<char>, b: Seq<char>) -> bool {
    exists|k: int| less_at(a, b, k)
}

/// What comparing `a` with `b` gives.
pub open spec fn text_order(a: Seq<char>, b: Seq<char>) -> Order {
    if a == b {
        Order::Equal
    } else if text_lt(a, b) {
        Order::Less
    } else {
        Order::Greater
    }
}

/// Two sequences that agree on all of their common length and have the same length are equal.
pub proof fn lemma_agree_all(a: Seq<char>, b: Seq<char>)
    requires
        agree_before(a, b, a.len() as int),
        a.len() == b.len(),
    ensures
        a == b,
{
    assert(a =~= b);
}

/// No sequence sorts before itself, and no two sequences sort before each other.
pub proof fn lemma_text_lt_asymmetric(a: Seq<char>, b: Seq<char>)
    requires
        text_lt(a, b),
    ensures
        !text_lt(b, a),
        a != b,
{
    let k = choose|k: int| less_at(a, b, k);
    if text_lt(b, a) {
        let m = choose|m: int| less_at(b, a, m);
        if m < k {
            assert(a[m] == b[m]);
        } else if k < m {
            assert(b[k] == a[k]);
        }
    }
}

/// Of two different sequences one sorts before the other.
pub proof fn lemma_text_lt_total(a: Seq<char>, b: Seq<char>)
    requires
        a != b,
    ensures
        text_lt(a, b) || text_lt(b, a),
{
    lemma_first_difference(a, b, 0);
}

/// From a position up to which two different sequences agree, a deciding position is reached.
proof fn lemma_first_difference(a: Seq<char>, b: Seq<char>, k: int)
    requires
        a != b,
        agree_before(a, b, k),
    ensures
        text_lt(a, b) || text_lt(b, a),
    decreases a.len() - k,
{
    if k == a.len() {
        if k == b.len() {
            lemma_agree_all(a, b);
        } else {
            assert(less_at(a, b, k));
        }
    } else if k == b.len() {
        assert(less_at(b, a, k));
    } else if a[k] == b[k] {
        lemma_first_difference(a, b, k + 1);
    } else if code(a[k]) < code(b[k]) {
        assert(less_at(a, b, k));
    } else {
        if code(a[k]) == code(b[k]) {
            lemma_code_injective(a[k], b[k]);
        }
        assert(less_at(b, a, k));
    }
}

/// Where comparing `a` with `b` gives `Greater`, `b` sorts before `a`.
pub proof fn lemma_order_greater(a: Seq<char>, b: Seq<char>)
    requires
        text_order(a, b) == Order::Greater,
    ensures
        text_lt(b, a),
{
    lemma_text_lt_total(a, b);
}

/// The order is transitive.
pub proof fn lemma_text_lt_transitive(a: Seq<char>, b: Seq<char>, c: Seq<char>)
    requires
        text_lt(a, b),
        text_lt(b, c),
    ensures
        text_lt(a, c),
{
    let k = choose|k: int| less_at(a, b, k);
    let m = choose|m: int| less_at(b, c, m);
    if k <= m {
        assert(less_at(a, c, k));
    } else {
        assert(less_at(a, c, m));
    }
}

/// Compares two strings character by character.
pub fn compare_text(a: &str, b: &str) -> (r: Order)
    ensures
        r == text_order(a@, b@),
{
    let mut left = a.chars();
    let mut right = b.chars();
    let ghost mut k: int = 0;
    loop
        invariant
            agree_before(a@, b@, k),
            left.remaining() == a@.skip(k),
            right.remaining() == b@.skip(k),
            left.obeys_prophetic_iter_laws(),
            right.obeys_prophetic_iter_laws(),
        decreases a@.len() - k,
    {
        let x = left.next();
        let y = right.next();
        match (x, y) {
            (None, None) => {
                proof {
                    lemma_agree_all(a@, b@);
                }
                return Order::Equal;
            },
            (None, Some(_)) => {
                proof {
                    assert(less_at(a@, b@, k));
                    lemma_text_lt_asymmetric(a@, b@);
                }
                return Order::Less;
            },
            (Some(_), None) => {
                proof {
                    assert(less_at(b@, a@, k));
                    lemma_text_lt_asymmetric(b@, a@);
                }
                return Order::Greater;
            },
            (Some(p), Some(q)) => {
                assert(p == a@[k] && q == b@[k]);
                let u: u32 = p as u32;
                let v: u32 = q as u32;
                if u < v {
                    proof {
                        assert(less_at(a@, b@, k));
                        lemma_text_lt_asymmetric(a@, b@);
                    }
                    return Order::Less;
                } else if v < u {
                    proof {
                        assert(less_at(b@, a@, k));
                        lemma_text_lt_asymmetric(b@, a@);
                    }
                    return Order::Greater;
                }
                proof {
                    lemma_code_injective(p, q);
                    assert(a@.skip(k).drop_first() == a@.skip(k + 1));
                    assert(b@.skip(k).drop_first() == b@.skip(k + 1));
                    k = k + 1;
                }
            },
        }
    }
}

} // verus!
