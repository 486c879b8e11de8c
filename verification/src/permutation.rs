use vstd::prelude::*;

use crate::error::{invalid_input, Error};

verus! {

/// `order` lists every item of `0..count` exactly once.
pub open spec fn is_permutation(order: Seq<usize>, count: nat) -> bool {
    &&& order.len() == count
    &&& forall|i: int| 0 <= i < order.len() ==> #[trigger] order[i] < count
    &&& forall|i: int, j: int|
        0 <= i < j < order.len() ==> #[trigger] order[i] != #[trigger] order[j]
}

/// The message with which `validate_order` refuses `order`.
pub open spec fn order_refusal(order: Seq<usize>, count: nat) -> Seq<char> {
    if order.len() != count {
        "permutation has the wrong length"@
    } else {
        "order must be a permutation"@
    }
}

/// Accepts `order` exactly when it is a permutation of `0..count`.
/// A wrong length is reported before anything else.
pub fn validate_order(order: &[usize], count: usize) -> (result: Result<(), Error>)
    ensures
        result is Ok <==> is_permutation(order@, count as nat),
        result matches Err(e) ==> invalid_input(e, order_refusal(order@, count as nat)),
{
    if order.len() != count {
        return Err(Error::InvalidInput(String::from_str("permutation has the wrong length")));
    }
    let mut seen: Vec<bool> = vec![false; count];
    let mut idx: usize = 0;
    while idx < order.len()
        invariant
            order@.len() == count,
            seen@.len() == count,
            idx <= count,
            forall|k: int| 0 <= k < idx ==> #[trigger] order@[k] < count,
            forall|a: int, b: int|
                0 <= a < b < idx ==> #[trigger] order@[a] != #[trigger] order@[b],
            forall|v: int|
                0 <= v < count ==> (#[trigger] seen@[v] <==> exists|k: int|
                    0 <= k < idx && #[trigger] order@[k] == v),
        decreases order@.len() - idx,
    {
        let item = order[idx];
        if item >= count || seen[item] {
            proof {
                if item < count {
                    let k = choose|k: int| 0 <= k < idx && #[trigger] order@[k] == item;
                    assert(order@[k] == order@[idx as int]);
                }
            }
            return Err(Error::InvalidInput(String::from_str("order must be a permutation")));
        }
        let ghost before = seen@;
        seen.set(item, true);
        proof {
            assert forall|v: int|
                0 <= v < count implies (#[trigger] seen@[v] <==> exists|k: int|
                    0 <= k < idx + 1 && #[trigger] order@[k] == v) by {
                if v == item {
                    assert(order@[idx as int] == v);
                } else if seen@[v] {
                    let k = choose|k: int| 0 <= k < idx && #[trigger] order@[k] == v;
                    assert(0 <= k < idx + 1 && order@[k] == v);
                }
            }
            assert forall|a: int, b: int|
                0 <= a < b < idx + 1 implies #[trigger] order@[a] != #[trigger] order@[b] by {
                if b == idx && order@[a] == order@[b] {
                    assert(before[item as int]);
                }
            }
        }
        idx = idx + 1;
    }
    Ok(())
}

} // verus!

verus! {

/// The identity order `0, 1, ..., count - 1`.
pub open spec fn identity(count: nat) -> Seq<usize> {
    Seq::new(count, |i: int| i as usize)
}

/// Builds the identity order of `count` items.
pub fn identity_order(count: usize) -> (order: Vec<usize>)
    ensures
        order@ == identity(count as nat),
{
    let mut order: Vec<usize> = Vec::new();
    let mut item: usize = 0;
    while item < count
        invariant
            item <= count,
            order@ == identity(item as nat),
        decreases count - item,
    {
        order.push(item);
        item = item + 1;
        assert(order@ =~= identity(item as nat));
    }
    order
}

/// The identity order is a permutation.
pub proof fn lemma_identity_is_permutation(count: nat)
    requires
        count <= usize::MAX + 1,
    ensures
        is_permutation(identity(count), count),
{
}

/// Any rearrangement of a permutation (the same items, counted with their
/// multiplicity) is again a permutation.
pub proof fn lemma_rearranged_permutation(original: Seq<usize>, rearranged: Seq<usize>, count: nat)
    requires
        is_permutation(original, count),
        rearranged.to_multiset() == original.to_multiset(),
    ensures
        is_permutation(rearranged, count),
{
    broadcast use vstd::seq_lib::group_to_multiset_ensures;

    assert(original.no_duplicates());
    original.lemma_multiset_has_no_duplicates();
    rearranged.lemma_multiset_has_no_duplicates_conv();
    assert(rearranged.len() == rearranged.to_multiset().len());
    assert(original.len() == original.to_multiset().len());
    assert forall|i: int| 0 <= i < rearranged.len() implies #[trigger] rearranged[i] < count by {
        let v = rearranged[i];
        assert(rearranged.contains(v));
        assert(rearranged.to_multiset().count(v) > 0);
        assert(original.to_multiset().count(v) > 0);
        assert(original.contains(v));
    }
    assert forall|i: int, j: int|
        0 <= i < j < rearranged.len() implies #[trigger] rearranged[i] != #[trigger] rearranged[j] by {
        assert(rearranged.no_duplicates());
    }
}

} // verus!

verus! {

/// `g(order[0]) + ... + g(order[count - 1])`.
pub open spec fn sum_over(g: spec_fn(int) -> int, order: Seq<usize>, count: nat) -> int
    decreases count,
{
    if count == 0 {
        0
    } else {
        sum_over(g, order, (count - 1) as nat) + g(order[count - 1] as int)
    }
}

/// `g(0) + ... + g(count - 1)`.
pub open spec fn sum_upto(g: spec_fn(int) -> int, count: nat) -> int
    decreases count,
{
    if count == 0 {
        0
    } else {
        sum_upto(g, (count - 1) as nat) + g(count - 1)
    }
}

proof fn lemma_sum_prefix_agree(g: spec_fn(int) -> int, a: Seq<usize>, b: Seq<usize>, count: nat)
    requires
        count <= a.len(),
        count <= b.len(),
        forall|i: int| 0 <= i < count ==> a[i] == b[i],
    ensures
        sum_over(g, a, count) == sum_over(g, b, count),
    decreases count,
{
    if count > 0 {
        lemma_sum_prefix_agree(g, a, b, (count - 1) as nat);
    }
}

proof fn lemma_sum_update(g: spec_fn(int) -> int, order: Seq<usize>, j: int, v: usize, count: nat)
    requires
        0 <= j < count <= order.len(),
    ensures
        sum_over(g, order.update(j, v), count) == sum_over(g, order, count) - g(order[j] as int)
            + g(v as int),
    decreases count,
{
    if count - 1 == j {
        lemma_sum_prefix_agree(g, order.update(j, v), order, (count - 1) as nat);
    } else {
        lemma_sum_update(g, order, j, v, (count - 1) as nat);
    }
}

/// Every item of `0..count` occurs in a permutation of `count` items.
pub proof fn lemma_permutation_covers(order: Seq<usize>, count: nat, item: int)
    requires
        is_permutation(order, count),
        0 <= item < count,
    ensures
        exists|j: int| 0 <= j < count && order[j] == item,
{
    let as_int = order.map_values(|v: usize| v as int);
    assert(as_int.no_duplicates()) by {
        assert forall|i: int, j: int|
            0 <= i < as_int.len() && 0 <= j < as_int.len() && i != j implies as_int[i]
            != as_int[j] by {
            if i < j {
                assert(order[i] != order[j]);
            } else {
                assert(order[j] != order[i]);
            }
        }
    }
    as_int.unique_seq_to_set();
    vstd::set_lib::lemma_int_range(0, count as int);
    let range = vstd::set_lib::set_int_range(0, count as int);
    assert(as_int.to_set().subset_of(range)) by {
        assert forall|v: int| as_int.to_set().contains(v) implies range.contains(v) by {
            let i = choose|i: int| 0 <= i < as_int.len() && as_int[i] == v;
            assert(order[i] < count);
        }
    }
    vstd::set_lib::lemma_set_subset_finite(range, as_int.to_set());
    vstd::set_lib::lemma_subset_equality(as_int.to_set(), range);
    assert(range.contains(item));
    assert(as_int.to_set().contains(item));
    let j = choose|j: int| 0 <= j < as_int.len() && as_int[j] == item;
    assert(order[j] == item);
}

/// Summing over a permutation of `0..count` is summing over `0..count`.
pub proof fn lemma_permutation_sum(g: spec_fn(int) -> int, order: Seq<usize>, count: nat)
    requires
        is_permutation(order, count),
    ensures
        sum_over(g, order, count) == sum_upto(g, count),
    decreases count,
{
    if count > 0 {
        let last = count - 1;
        lemma_permutation_covers(order, count, last);
        let j = choose|j: int| 0 <= j < count && order[j] == last;
        let moved = order.update(j, order[last]);
        let rest = moved.take(last);
        assert forall|i: int| 0 <= i < rest.len() implies #[trigger] rest[i] < last by {
            if i == j {
                assert(order[last] != order[j]);
            } else {
                if i < j {
                    assert(order[i] != order[j]);
                } else {
                    assert(order[j] != order[i]);
                }
            }
        }
        assert forall|a: int, b: int|
            0 <= a < b < rest.len() implies #[trigger] rest[a] != #[trigger] rest[b] by {
            if a == j {
                assert(order[b] != order[last]);
            } else if b == j {
                assert(order[a] != order[last]);
            } else {
                assert(order[a] != order[b]);
            }
        }
        lemma_permutation_sum(g, rest, last as nat);
        lemma_sum_prefix_agree(g, rest, moved, last as nat);
        if j < last {
            lemma_sum_update(g, order, j, order[last], last as nat);
        } else {
            lemma_sum_prefix_agree(g, moved, order, last as nat);
        }
    }
}

} // verus!
