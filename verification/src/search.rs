//! Bisection in the two sorted tables of a registry: the prefix index and the name table.

use crate::text::{
    compare_text, lemma_text_lt_asymmetric, lemma_text_lt_transitive, text_lt, Order,
};
use vstd::prelude::*;

verus! {

/// The first components of `index` ascend strictly.
pub open spec fn ascending_by_prefix(index: Seq<(u16, usize)>) -> bool {
    forall|i: int, j: int|
        0 <= i < j < index.len() ==> (#[trigger] index[i]).0 < (#[trigger] index[j]).0
}

/// The names ascend strictly.
pub open spec fn names_ascending(names: Seq<Seq<char>>) -> bool {
    forall|i: int, j: int|
        0 <= i < j < names.len() ==> text_lt(#[trigger] names[i], #[trigger] names[j])
}

/// No entry of `index` has the prefix `prefix`.
pub open spec fn prefix_absent(index: Seq<(u16, usize)>, prefix: u16) -> bool {
    forall|k: int| 0 <= k < index.len() ==> (#[trigger] index[k]).0 != prefix
}

/// No entry of `names` is `name`.
pub open spec fn name_absent(names: Seq<Seq<char>>, name: Seq<char>) -> bool {
    forall|k: int| 0 <= k < names.len() ==> #[trigger] names[k] != name
}

/// The texts of a list of string slices.
pub open spec fn slice_texts(names: Seq<&str>) -> Seq<Seq<char>> {
    names.map_values(|s: &str| s@)
}

/// Where each name sorts before the next, the names ascend.
pub proof fn lemma_neighbours_ascend(names: Seq<Seq<char>>)
    requires
        forall|i: int| 0 <= i < names.len() - 1 ==> text_lt(#[trigger] names[i], names[i + 1]),
    ensures
        names_ascending(names),
{
    assert forall|i: int, j: int| 0 <= i < j < names.len() implies text_lt(
        #[trigger] names[i],
        #[trigger] names[j],
    ) by {
        lemma_ascend_between(names, i, j);
    }
}

/// Where each name sorts before the next, an earlier name sorts before a later one.
proof fn lemma_ascend_between(names: Seq<Seq<char>>, i: int, j: int)
    requires
        forall|i: int| 0 <= i < names.len() - 1 ==> text_lt(#[trigger] names[i], names[i + 1]),
        0 <= i < j < names.len(),
    ensures
        text_lt(names[i], names[j]),
    decreases j - i,
{
    if i + 1 < j {
        lemma_ascend_between(names, i, j - 1);
        assert(text_lt(names[j - 1], names[j - 1 + 1]));
        lemma_text_lt_transitive(names[i], names[j - 1], names[j]);
    }
}

/// Looks `prefix` up in an index sorted by prefix, and gives the position of its entry.
/// In an index that is not sorted an entry may be missed; what is found is an entry.
pub fn find_prefix(index: &[(u16, usize)], prefix: u16) -> (r: Option<usize>)
    ensures
        match r {
            Some(k) => k < index@.len() && index@[k as int].0 == prefix,
            None => ascending_by_prefix(index@) ==> prefix_absent(index@, prefix),
        },
{
    let mut low: usize = 0;
    let mut high: usize = index.len();
    while low < high
        invariant
            low <= high <= index@.len(),
            ascending_by_prefix(index@) ==> forall|k: int|
                0 <= k < low ==> (#[trigger] index@[k]).0 < prefix,
            ascending_by_prefix(index@) ==> forall|k: int|
                high <= k < index@.len() ==> (#[trigger] index@[k]).0 > prefix,
        decreases high - low,
    {
        let middle = low + (high - low) / 2;
        let found = index[middle].0;
        if found == prefix {
            return Some(middle);
        } else if found < prefix {
            low = middle + 1;
        } else {
            high = middle;
        }
    }
    None
}

/// Looks `name` up in a name table sorted by text, and gives its position. In a table that
/// is not sorted a name may be missed; what is found is the name.
pub fn find_name(names: &[&str], name: &str) -> (r: Option<usize>)
    ensures
        match r {
            Some(k) => k < names@.len() && names@[k as int]@ == name@,
            None => names_ascending(slice_texts(names@)) ==> name_absent(
                slice_texts(names@),
                name@,
            ),
        },
{
    let ghost texts = slice_texts(names@);
    let mut low: usize = 0;
    let mut high: usize = names.len();
    while low < high
        invariant
            low <= high <= names@.len(),
            texts == slice_texts(names@),
            names_ascending(texts) ==> forall|k: int|
                0 <= k < low ==> text_lt(#[trigger] texts[k], name@),
            names_ascending(texts) ==> forall|k: int|
                high <= k < texts.len() ==> text_lt(name@, #[trigger] texts[k]),
        decreases high - low,
    {
        let middle = low + (high - low) / 2;
        match compare_text(names[middle], name) {
            Order::Equal => {
                return Some(middle);
            },
            Order::Less => {
                proof {
                    if names_ascending(texts) {
                        assert forall|k: int| 0 <= k < middle + 1 implies text_lt(
                            #[trigger] texts[k],
                            name@,
                        ) by {
                            if k < middle {
                                lemma_text_lt_transitive(texts[k], texts[middle as int], name@);
                            }
                        }
                    }
                }
                low = middle + 1;
            },
            Order::Greater => {
                proof {
                    crate::text::lemma_order_greater(texts[middle as int], name@);
                    if names_ascending(texts) {
                        assert forall|k: int| middle <= k < texts.len() implies text_lt(
                            name@,
                            #[trigger] texts[k],
                        ) by {
                            if middle < k {
                                lemma_text_lt_transitive(name@, texts[middle as int], texts[k]);
                            }
                        }
                    }
                }
                high = middle;
            },
        }
    }
    proof {
        if names_ascending(texts) {
            assert forall|k: int| 0 <= k < texts.len() implies #[trigger] texts[k] != name@ by {
                if k < low {
                    lemma_text_lt_asymmetric(texts[k], name@);
                } else {
                    lemma_text_lt_asymmetric(name@, texts[k]);
                }
            }
        }
    }
    None
}

} // verus!
