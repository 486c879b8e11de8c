//! Nearest-neighbour paths and local-search candidates. Distances enter as
//! order keys: integers that order like the distances' `total_cmp`, so that
//! ties are broken by item index exactly as the search does.

use vstd::prelude::*;

use crate::permutation::is_permutation;

verus! {

/// `keys` is a `count` by `count` table.
pub open spec fn is_key_table(keys: Seq<Vec<i64>>, count: nat) -> bool {
    &&& keys.len() == count
    &&& forall|i: int| 0 <= i < count ==> (#[trigger] keys[i])@.len() == count
}

/// Seen from `from`, item `a` comes before item `b`: its key is smaller, or
/// the keys tie and its index is smaller.
pub open spec fn closer(keys: Seq<Vec<i64>>, from: int, a: int, b: int) -> bool {
    ||| keys[from]@[a] < keys[from]@[b]
    ||| (keys[from]@[a] == keys[from]@[b] && a < b)
}

/// `order[i + 1]` is, seen from `order[i]`, the first of the items that
/// `order[0..=i]` has not visited yet.
pub open spec fn nearest_step(keys: Seq<Vec<i64>>, order: Seq<usize>, i: int, count: nat) -> bool {
    forall|item: int|
        0 <= item < count && item != order[i + 1] && !order.subrange(0, i + 1).contains(
            item as usize,
        ) ==> #[trigger] closer(keys, order[i] as int, order[i + 1] as int, item)
}

/// A sequence without repeats, of items below `count`, shorter than `count`,
/// misses some item.
proof fn lemma_missing_item(order: Seq<usize>, count: nat)
    requires
        order.len() < count,
        count <= usize::MAX,
        forall|i: int| 0 <= i < order.len() ==> #[trigger] order[i] < count,
    ensures
        exists|item: usize| item < count && !#[trigger] order.contains(item),
{
    if forall|item: usize| item < count ==> #[trigger] order.contains(item) {
        let as_int = order.map_values(|v: usize| v as int);
        let range = vstd::set_lib::set_int_range(0, count as int);
        vstd::set_lib::lemma_int_range(0, count as int);
        assert(range.subset_of(as_int.to_set())) by {
            assert forall|v: int| range.contains(v) implies as_int.to_set().contains(v) by {
                assert(order.contains(v as usize));
                let i = choose|i: int| 0 <= i < order.len() && order[i] == v as usize;
                assert(as_int[i] == v);
            }
        }
        as_int.lemma_cardinality_of_set();
        vstd::set_lib::lemma_len_subset(range, as_int.to_set());
        assert(false);
    }
}

/// Starting at `start`, repeatedly moves to the closest item not yet visited
/// (smaller index on ties) until every item is visited.
pub fn nearest_neighbor(keys: &Vec<Vec<i64>>, start: usize) -> (order: Vec<usize>)
    requires
        is_key_table(keys@, keys@.len()),
        start < keys@.len(),
    ensures
        is_permutation(order@, keys@.len()),
        order@[0] == start,
        forall|i: int| 0 <= i < keys@.len() - 1 ==> nearest_step(keys@, order@, i, keys@.len()),
{
    let count = keys.len();
    let mut order: Vec<usize> = Vec::new();
    let mut visited: Vec<bool> = vec![false; count];
    order.push(start);
    visited.set(start, true);
    let mut current = start;
    proof {
        assert(order@.subrange(0, 1) =~= order@);
        assert forall|v: int| 0 <= v < count implies (#[trigger] visited@[v] <==> order@.contains(
            v as usize,
        )) by {
            if v == start {
                assert(order@[0] == start);
            } else if order@.contains(v as usize) {
                let k = choose|k: int| 0 <= k < order@.len() && order@[k] == v as usize;
                assert(k == 0);
            }
        }
    }
    while order.len() < count
        invariant
            count == keys@.len(),
            is_key_table(keys@, count as nat),
            1 <= order@.len() <= count,
            visited@.len() == count,
            current == order@.last(),
            order@[0] == start,
            forall|k: int| 0 <= k < order@.len() ==> #[trigger] order@[k] < count,
            forall|a: int, b: int|
                0 <= a < b < order@.len() ==> #[trigger] order@[a] != #[trigger] order@[b],
            forall|v: int| 0 <= v < count ==> (#[trigger] visited@[v] <==> order@.contains(v as usize)),
            forall|i: int| 0 <= i < order@.len() - 1 ==> nearest_step(keys@, order@, i, count as nat),
        decreases count - order@.len(),
    {
        proof {
            lemma_missing_item(order@, count as nat);
        }
        let mut best: usize = count;
        let mut item: usize = 0;
        while item < count
            invariant
                count == keys@.len(),
                is_key_table(keys@, count as nat),
                current < count,
                visited@.len() == count,
                item <= count,
                best == count || (best < item && !visited@[best as int]),
                best == count ==> forall|v: int| 0 <= v < item ==> visited@[v],
                best < count ==> forall|v: int|
                    0 <= v < item && !visited@[v] && v != best ==> #[trigger] closer(
                        keys@,
                        current as int,
                        best as int,
                        v,
                    ),
            decreases count - item,
        {
            let ghost previous = best;
            if !visited[item] {
                if best == count || keys[current][item] < keys[current][best] {
                    best = item;
                }
            }
            proof {
                if best < count {
                    assert forall|v: int|
                        0 <= v < item + 1 && !visited@[v] && v != best implies #[trigger] closer(
                        keys@,
                        current as int,
                        best as int,
                        v,
                    ) by {
                        if previous < count && v != previous && v < item {
                            assert(closer(keys@, current as int, previous as int, v));
                        }
                    }
                }
            }
            item = item + 1;
        }
        proof {
            let missing = choose|v: usize| v < count && !#[trigger] order@.contains(v);
            assert(!visited@[missing as int]);
        }
        let ghost before = order@;
        order.push(best);
        visited.set(best, true);
        current = best;
        proof {
            assert(order@.subrange(0, before.len() as int) =~= before);
            assert forall|v: int| 0 <= v < count implies (#[trigger] visited@[v] <==> order@.contains(
                v as usize,
            )) by {
                if v == best {
                    assert(order@[before.len() as int] == best);
                } else if before.contains(v as usize) {
                    let k = choose|k: int| 0 <= k < before.len() && before[k] == v as usize;
                    assert(order@[k] == v as usize);
                } else if order@.contains(v as usize) {
                    let k = choose|k: int| 0 <= k < order@.len() && order@[k] == v as usize;
                    assert(k < before.len());
                    assert(before[k] == v as usize);
                }
            }
            assert forall|a: int, b: int|
                0 <= a < b < order@.len() implies #[trigger] order@[a] != #[trigger] order@[b] by {
                if b == before.len() {
                    assert(before.contains(order@[a]));
                }
            }
            assert forall|i: int| 0 <= i < order@.len() - 1 implies nearest_step(
                keys@,
                order@,
                i,
                count as nat,
            ) by {
                if i < before.len() - 1 {
                    assert(nearest_step(keys@, before, i, count as nat));
                    assert(order@.subrange(0, i + 1) =~= before.subrange(0, i + 1));
                } else {
                    assert(order@.subrange(0, i + 1) =~= before);
                    assert forall|v: int|
                        0 <= v < count && v != order@[i + 1] && !order@.subrange(0, i + 1).contains(
                            v as usize,
                        ) implies #[trigger] closer(
                        keys@,
                        order@[i] as int,
                        order@[i + 1] as int,
                        v,
                    ) by {
                        assert(!visited@[v] || v == best) by {
                            assert(!before.contains(v as usize));
                        }
                    }
                }
            }
        }
    }
    order
}

} // verus!

verus! {

/// How many candidates an item proposes to the local search.
pub open spec fn candidate_count(count: nat) -> nat {
    if count - 1 < 8 {
        (count - 1) as nat
    } else {
        8
    }
}

/// `list` holds, closest first, the `min(8, count - 1)` other items closest to
/// `item`: every item left out comes after every item listed.
pub open spec fn are_candidates(keys: Seq<Vec<i64>>, item: int, list: Seq<usize>, count: nat) -> bool {
    &&& list.len() == candidate_count(count)
    &&& forall|a: int| 0 <= a < list.len() ==> #[trigger] list[a] < count && list[a] != item
    &&& forall|a: int, b: int|
        0 <= a < b < list.len() ==> closer(keys, item, #[trigger] list[a] as int, #[trigger] list[b] as int)
    &&& forall|other: int, a: int|
        0 <= other < count && other != item && !list.contains(other as usize) && 0 <= a < list.len()
            ==> #[trigger] closer(keys, item, #[trigger] list[a] as int, other)
}

/// The state of the selection after the items below `upto`: `list` holds the
/// closest of them, closest first, all of them while fewer than eight.
pub open spec fn ranked(keys: Seq<Vec<i64>>, item: int, list: Seq<usize>, upto: int) -> bool {
    &&& forall|a: int| 0 <= a < list.len() ==> #[trigger] list[a] < upto && list[a] != item
    &&& forall|a: int, b: int|
        0 <= a < b < list.len() ==> closer(keys, item, #[trigger] list[a] as int, #[trigger] list[b] as int)
    &&& forall|j: int, a: int|
        0 <= j < upto && j != item && !list.contains(j as usize) && 0 <= a < list.len()
            ==> #[trigger] closer(keys, item, #[trigger] list[a] as int, j)
    &&& list.len() < 8 ==> forall|j: int|
        0 <= j < upto && j != item ==> #[trigger] list.contains(j as usize)
}

proof fn lemma_insert_keeps_ranked(
    keys: Seq<Vec<i64>>,
    item: int,
    before: Seq<usize>,
    other: usize,
    p: int,
)
    requires
        ranked(keys, item, before, other as int),
        other != item,
        before.len() <= 8,
        0 <= p <= before.len(),
        p < 8,
        forall|q: int| 0 <= q < p ==> #[trigger] closer(keys, item, before[q] as int, other as int),
        p < before.len() ==> closer(keys, item, other as int, before[p] as int),
    ensures
        ranked(
            keys,
            item,
            before.insert(p, other).take(if before.len() + 1 <= 8 { before.len() + 1int } else { 8int }),
            other + 1,
        ),
{
    let inserted = before.insert(p, other);
    let k: int = if before.len() + 1 <= 8 {
        before.len() + 1int
    } else {
        8
    };
    let list = inserted.take(k);
    assert(list[p] == other);
    assert forall|a: int| 0 <= a < list.len() implies #[trigger] list[a] < other + 1 && list[a]
        != item by {
        if a < p {
            assert(list[a] == before[a]);
        } else if a > p {
            assert(list[a] == before[a - 1]);
        }
    }
    assert forall|a: int, b: int| 0 <= a < b < list.len() implies closer(
        keys,
        item,
        #[trigger] list[a] as int,
        #[trigger] list[b] as int,
    ) by {
        if b < p {
            assert(list[a] == before[a] && list[b] == before[b]);
        } else if b == p {
            assert(list[a] == before[a]);
        } else if a == p {
            assert(list[b] == before[b - 1]);
            if b - 1 > p {
                assert(closer(keys, item, before[p] as int, before[b - 1] as int));
            }
        } else if a < p {
            assert(list[a] == before[a] && list[b] == before[b - 1]);
        } else {
            assert(list[a] == before[a - 1] && list[b] == before[b - 1]);
        }
    }
    assert forall|j: int, a: int|
        0 <= j < other + 1 && j != item && !list.contains(j as usize) && 0 <= a < list.len()
            implies #[trigger] closer(keys, item, #[trigger] list[a] as int, j) by {
        assert(j != other);
        if before.contains(j as usize) {
            let x = choose|x: int| 0 <= x < before.len() && before[x] == j as usize;
            if x < p {
                assert(list[x] == j as usize);
            } else if x + 1 < k {
                assert(list[x + 1] == j as usize);
            }
            assert(x == 7 && before.len() == 8);
            if a < p {
                assert(list[a] == before[a]);
            } else if a == p {
                if p < 7 {
                    assert(closer(keys, item, before[p] as int, before[7] as int));
                }
            } else {
                assert(list[a] == before[a - 1]);
            }
        } else {
            if a < p {
                assert(list[a] == before[a]);
            } else if a == p {
                if p == before.len() {
                    assert(before.contains(j as usize));
                }
                assert(closer(keys, item, before[p] as int, j));
            } else {
                assert(list[a] == before[a - 1]);
            }
        }
    }
    if list.len() < 8 {
        assert forall|j: int| 0 <= j < other + 1 && j != item implies #[trigger] list.contains(
            j as usize,
        ) by {
            if j == other {
                assert(list[p] == j as usize);
            } else {
                assert(before.contains(j as usize));
                let x = choose|x: int| 0 <= x < before.len() && before[x] == j as usize;
                if x < p {
                    assert(list[x] == j as usize);
                } else {
                    assert(list[x + 1] == j as usize);
                }
            }
        }
    }
}

/// The eight (or fewer) items closest to `item`, closest first, ties broken
/// by index.
pub fn candidate_neighbors(keys: &Vec<Vec<i64>>, item: usize) -> (list: Vec<usize>)
    requires
        is_key_table(keys@, keys@.len()),
        item < keys@.len(),
    ensures
        are_candidates(keys@, item as int, list@, keys@.len()),
{
    let count = keys.len();
    let mut list: Vec<usize> = Vec::new();
    let mut other: usize = 0;
    let ghost mut considered: int = 0;
    while other < count
        invariant
            count == keys@.len(),
            is_key_table(keys@, count as nat),
            item < count,
            other <= count,
            considered == (if item < other {
                other - 1
            } else {
                other as int
            }),
            list@.len() == (if considered < 8 {
                considered
            } else {
                8
            }),
            ranked(keys@, item as int, list@, other as int),
        decreases count - other,
    {
        if other != item {
            let mut p: usize = 0;
            while p < list.len() && !(keys[item][other] < keys[item][list[p]] || (keys[item][other]
                == keys[item][list[p]] && other < list[p]))
                invariant
                    count == keys@.len(),
                    is_key_table(keys@, count as nat),
                    item < count,
                    other < count,
                    p <= list@.len(),
                    forall|a: int| 0 <= a < list@.len() ==> #[trigger] list@[a] < other,
                    forall|q: int|
                        0 <= q < p ==> #[trigger] closer(
                            keys@,
                            item as int,
                            list@[q] as int,
                            other as int,
                        ),
                decreases list@.len() - p,
            {
                p = p + 1;
            }
            let ghost before = list@;
            if p < 8 {
                list.insert(p, other);
                list.truncate(8);
                proof {
                    lemma_insert_keeps_ranked(keys@, item as int, before, other, p as int);
                    let k: int = if before.len() + 1 <= 8 {
                        before.len() + 1int
                    } else {
                        8
                    };
                    assert(list@ =~= before.insert(p as int, other).take(k));
                }
            } else {
                proof {
                    assert(ranked(keys@, item as int, list@, other + 1)) by {
                        assert forall|j: int, a: int|
                            0 <= j < other + 1 && j != item && !list@.contains(j as usize) && 0
                                <= a < list@.len() implies #[trigger] closer(
                            keys@,
                            item as int,
                            #[trigger] list@[a] as int,
                            j,
                        ) by {
                            if j == other {
                                assert(closer(keys@, item as int, list@[a] as int, other as int));
                            }
                        }
                    }
                }
            }
            proof {
                considered = considered + 1;
            }
        }
        other = other + 1;
    }
    list
}

/// The candidate lists of every item, or none at all when local search is
/// disabled (`passes == 0`).
pub fn local_search_candidates(keys: &Vec<Vec<i64>>, passes: usize) -> (lists: Vec<Vec<usize>>)
    requires
        is_key_table(keys@, keys@.len()),
    ensures
        lists@.len() == (if passes == 0 { 0 } else { keys@.len() }),
        forall|item: int|
            0 <= item < lists@.len() ==> are_candidates(keys@, item, (#[trigger] lists@[item])@, keys@.len()),
{
    let count = if passes == 0 {
        0
    } else {
        keys.len()
    };
    let mut lists: Vec<Vec<usize>> = Vec::new();
    let mut item: usize = 0;
    while item < count
        invariant
            is_key_table(keys@, keys@.len()),
            count <= keys@.len(),
            item <= count,
            lists@.len() == item,
            forall|k: int| 0 <= k < item ==> are_candidates(keys@, k, (#[trigger] lists@[k])@, keys@.len()),
        decreases count - item,
    {
        lists.push(candidate_neighbors(keys, item));
        item = item + 1;
    }
    lists
}

} // verus!
