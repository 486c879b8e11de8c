use vstd::prelude::*;

use radiate::random_provider;

use crate::error::{invalid_input, Error};
use crate::neighbors::{is_key_table, nearest_neighbor, nearest_step};
use crate::permutation::{
    identity, identity_order, is_permutation, lemma_identity_is_permutation,
    lemma_rearranged_permutation,
};

verus! {

/// Settings of one ordering search.
#[derive(Debug, Clone, Copy, PartialEq, Eq)]
pub struct SolverConfig {
    /// `None` selects `max(1, floor(number_of_items / 100))`.
    pub window: Option<usize>,
    pub population: usize,
    pub generations: usize,
    pub local_passes: usize,
    pub seed: u64,
}

/// The default settings: automatic window, population 32, 200 generations,
/// two local passes and seed 42.
pub open spec fn default_config() -> SolverConfig {
    SolverConfig { window: None, population: 32, generations: 200, local_passes: 2, seed: 42 }
}

impl Default for SolverConfig {
    fn default() -> (config: Self)
        ensures
            config == default_config(),
    {
        SolverConfig { window: None, population: 32, generations: 200, local_passes: 2, seed: 42 }
    }
}

/// The settings the search accepts: a population of at least six (so that
/// crossover receives at least four offspring), at least one generation, and
/// no explicit window of zero.
pub open spec fn config_is_valid(config: SolverConfig) -> bool {
    &&& config.population >= 6
    &&& config.generations > 0
    &&& config.window != Some(0usize)
}

/// The window a search over `count` items uses before clamping.
pub open spec fn requested_window(config: SolverConfig, count: nat) -> nat {
    match config.window {
        Some(window) => window as nat,
        None => if count / 100 >= 1 { count / 100 } else { 1 },
    }
}

impl SolverConfig {
    /// Accepts exactly the valid settings.
    pub fn validate(&self) -> (result: Result<(), Error>)
        ensures
            result is Ok <==> config_is_valid(*self),
            result matches Err(e) ==> invalid_input(
                e,
                "population must be at least 6; generations and any explicit window must be positive"@,
            ),
    {
        let explicit_zero = match self.window {
            Some(window) => window == 0,
            None => false,
        };
        if self.population < 6 || self.generations == 0 || explicit_zero {
            return Err(
                Error::InvalidInput(
                    String::from_str(
                        "population must be at least 6; generations and any explicit window must be positive",
                    ),
                ),
            );
        }
        Ok(())
    }

    /// The window for `count` items: the explicit window, or else
    /// `max(1, floor(count / 100))`.
    pub fn window_for(&self, count: usize) -> (window: usize)
        ensures
            window == requested_window(*self, count as nat),
    {
        match self.window {
            Some(window) => window,
            None => {
                let share = count / 100;
                if share >= 1 {
                    share
                } else {
                    1
                }
            },
        }
    }

    /// The settings of the column search: the same, with the seed advanced by
    /// one, wrapping at `u64::MAX`.
    pub fn for_columns(&self) -> (config: SolverConfig)
        ensures
            config.window == self.window,
            config.population == self.population,
            config.generations == self.generations,
            config.local_passes == self.local_passes,
            config.seed == (if self.seed == u64::MAX { 0 } else { self.seed + 1 }),
    {
        SolverConfig { seed: self.seed.wrapping_add(1), ..*self }
    }
}

/// A window larger than the order is clamped: at most `count - 1` gaps exist,
/// so a single item has effective window zero.
pub fn clamped_window(window: usize, count: usize) -> (effective: usize)
    requires
        count > 0,
    ensures
        effective == (if window <= count - 1 { window } else { (count - 1) as usize }),
{
    if window <= count - 1 {
        window
    } else {
        count - 1
    }
}

/// `order` with the positions `start..=end` reversed and every other position kept.
pub open spec fn reversed_segment(order: Seq<usize>, start: int, end: int) -> Seq<usize> {
    Seq::new(
        order.len(),
        |i: int|
            if start <= i <= end {
                order[start + end - i]
            } else {
                order[i]
            },
    )
}

/// Reverses the positions `start..=end` of `order` in place.
pub fn reverse_segment(order: &mut Vec<usize>, start: usize, end: usize)
    requires
        start <= end < old(order)@.len(),
    ensures
        final(order)@ == reversed_segment(old(order)@, start as int, end as int),
{
    let ghost original = order@;
    let mut low = start;
    let mut high = end;
    while low < high
        invariant
            start <= low,
            high <= end,
            end < original.len(),
            low + high == start + end,
            low <= high + 1,
            order@.len() == original.len(),
            forall|i: int|
                0 <= i < original.len() ==> #[trigger] order@[i] == (if (start <= i < low) || (
                high < i <= end) {
                    original[start + end - i]
                } else {
                    original[i]
                }),
        decreases high + 1 - low,
    {
        let left = order[low];
        let right = order[high];
        order.set(low, right);
        order.set(high, left);
        low = low + 1;
        high = high - 1;
    }
    assert forall|i: int| 0 <= i < original.len() implies #[trigger] order@[i]
        == reversed_segment(original, start as int, end as int)[i] by {
        if start <= i <= end && !((start <= i < low) || (high < i <= end)) {
            assert(i == start + end - i);
        }
    }
    assert(order@ =~= reversed_segment(original, start as int, end as int));
}

/// Reversing a segment keeps a permutation a permutation.
pub proof fn lemma_reversal_keeps_permutation(order: Seq<usize>, start: int, end: int, count: nat)
    requires
        is_permutation(order, count),
        0 <= start <= end < order.len(),
    ensures
        is_permutation(reversed_segment(order, start, end), count),
{
    let reversed = reversed_segment(order, start, end);
    let source = |i: int|
        if start <= i <= end {
            start + end - i
        } else {
            i
        };
    assert forall|i: int, j: int|
        0 <= i < j < reversed.len() implies #[trigger] reversed[i] != #[trigger] reversed[j] by {
        assert(reversed[i] == order[source(i)]);
        assert(reversed[j] == order[source(j)]);
        if source(i) < source(j) {
            assert(order[source(i)] != order[source(j)]);
        } else {
            assert(order[source(j)] != order[source(i)]);
        }
    }
    assert forall|i: int| 0 <= i < reversed.len() implies #[trigger] reversed[i] < count by {
        assert(reversed[i] == order[source(i)]);
    }
}

/// The segment whose reversal brings the item at `neighbor_position` next to the
/// item at `position`: to its right when the neighbour lies to the right, to its
/// left otherwise.
pub fn neighbor_reversal(position: usize, neighbor_position: usize) -> (segment: (usize, usize))
    requires
        position != neighbor_position,
    ensures
        position < neighbor_position ==> segment == (
        (position + 1) as usize,
        neighbor_position,
        ),
        neighbor_position < position ==> segment == (neighbor_position, (position - 1) as usize),
{
    if position < neighbor_position {
        (position + 1, neighbor_position)
    } else {
        (neighbor_position, position - 1)
    }
}

/// Whole-order reversal scores the same, so the orientation is fixed by putting
/// the smaller endpoint first.
pub fn orient(order: &mut Vec<usize>)
    requires
        old(order)@.len() > 0,
    ensures
        final(order)@ == (if old(order)@[0] > old(order)@.last() {
            old(order)@.reverse()
        } else {
            old(order)@
        }),
{
    let last = order.len() - 1;
    if order[0] > order[last] {
        reverse_segment(order, 0, last);
        proof {
            assert(order@ =~= old(order)@.reverse());
        }
    }
}

} // verus!

verus! {

/// The segment that `neighbor_reversal` chooses, as a spec function.
pub open spec fn neighbor_segment(position: int, neighbor_position: int) -> (int, int) {
    if position < neighbor_position {
        (position + 1, neighbor_position)
    } else {
        (neighbor_position, position - 1)
    }
}

/// Reversing the segment that `neighbor_reversal` chooses leaves the item in
/// place and moves the neighbour right next to it.
pub proof fn lemma_neighbor_reversal_adjacent(order: Seq<usize>, position: int, neighbor_position: int)
    requires
        0 <= position < order.len(),
        0 <= neighbor_position < order.len(),
        position != neighbor_position,
    ensures
        ({
            let (start, end) = neighbor_segment(position, neighbor_position);
            let reversed = reversed_segment(order, start, end);
            &&& reversed[position] == order[position]
            &&& position < neighbor_position ==> reversed[position + 1] == order[neighbor_position]
            &&& neighbor_position < position ==> reversed[position - 1] == order[neighbor_position]
        }),
{
}

} // verus!

verus! {

/// `positions` locates every item of `order`: item `order[i]` stands at `i`.
pub open spec fn tracks(positions: Seq<usize>, order: Seq<usize>) -> bool {
    &&& positions.len() == order.len()
    &&& forall|i: int| 0 <= i < order.len() ==> #[trigger] positions[order[i] as int] == i
}

/// Where each item of the permutation `order` stands.
pub fn positions_of(order: &Vec<usize>) -> (positions: Vec<usize>)
    requires
        is_permutation(order@, order@.len()),
    ensures
        tracks(positions@, order@),
{
    let count = order.len();
    let mut positions: Vec<usize> = Vec::new();
    let mut i: usize = 0;
    while i < count
        invariant
            i <= count,
            positions@.len() == i,
        decreases count - i,
    {
        positions.push(0);
        i = i + 1;
    }
    let mut i: usize = 0;
    while i < count
        invariant
            count == order@.len(),
            is_permutation(order@, count as nat),
            positions@.len() == count,
            i <= count,
            forall|k: int| 0 <= k < i ==> #[trigger] positions@[order@[k] as int] == k,
        decreases count - i,
    {
        let item = order[i];
        positions.set(item, i);
        proof {
            assert forall|k: int| 0 <= k < i + 1 implies #[trigger] positions@[order@[k] as int]
                == k by {
                if k < i {
                    assert(order@[k] != order@[i as int]);
                }
            }
        }
        i = i + 1;
    }
    positions
}

/// Reverses `order[start..=end]` and moves the positions of the moved items
/// along.
pub fn reverse_tracked(order: &mut Vec<usize>, positions: &mut Vec<usize>, start: usize, end: usize)
    requires
        start <= end < old(order)@.len(),
        is_permutation(old(order)@, old(order)@.len()),
        tracks(old(positions)@, old(order)@),
    ensures
        final(order)@ == reversed_segment(old(order)@, start as int, end as int),
        is_permutation(final(order)@, old(order)@.len()),
        tracks(final(positions)@, final(order)@),
{
    let ghost count = order@.len();
    let ghost before = order@;
    reverse_segment(order, start, end);
    proof {
        lemma_reversal_keeps_permutation(before, start as int, end as int, count);
    }
    let length = order.len();
    let mut idx: usize = start;
    while idx <= end
        invariant
            start <= idx <= end + 1,
            end < length,
            length == order@.len(),
            order@.len() == count,
            positions@.len() == count,
            is_permutation(order@, count),
            forall|i: int| 0 <= i < count && (i < start || end < i) ==> order@[i] == before[i],
            forall|i: int|
                0 <= i < count && (i < start || end < i || i < idx) ==> #[trigger] positions@[order@[i] as int] == i,
        decreases end + 1 - idx,
    {
        let item = order[idx];
        positions.set(item, idx);
        proof {
            assert forall|i: int|
                0 <= i < count && (i < start || end < i || i < idx + 1) implies #[trigger] positions@[order@[i] as int] == i by {
                if i != idx {
                    assert(order@[i] != order@[idx as int]);
                }
            }
        }
        idx = idx + 1;
    }
}

/// Swaps the items at `left` and `left + 1` and updates their positions.
pub fn swap_tracked(order: &mut Vec<usize>, positions: &mut Vec<usize>, left: usize)
    requires
        left + 1 < old(order)@.len(),
        is_permutation(old(order)@, old(order)@.len()),
        tracks(old(positions)@, old(order)@),
    ensures
        final(order)@ == old(order)@.update(left as int, old(order)@[left + 1]).update(
            left + 1,
            old(order)@[left as int],
        ),
        is_permutation(final(order)@, old(order)@.len()),
        tracks(final(positions)@, final(order)@),
{
    let ghost before = order@;
    let count = order.len();
    assert(left + 1 < count);
    let right = left + 1;
    let first = order[left];
    let second = order[right];
    order.set(left, second);
    order.set(right, first);
    positions.set(second, left);
    positions.set(first, right);
    proof {
        assert(order@ =~= reversed_segment(before, left as int, right as int));
        lemma_reversal_keeps_permutation(before, left as int, right as int, before.len());
        assert forall|i: int| 0 <= i < order@.len() implies #[trigger] positions@[order@[i] as int]
            == i by {
            if i != left && i != right {
                assert(before[i] != first);
                assert(before[i] != second);
            }
        }
    }
}

} // verus!

verus! {

/// `random_provider::range(low..high)`: a uniform draw from Radiate's
/// generator for the current search. Which index comes out depends on the
/// generator's state; only that it lies in the range is stated. The draw
/// panics on an empty range, which `requires` rules out.
#[verifier::external_body]
fn draw_index(low: usize, high: usize) -> (index: usize)
    requires
        low < high,
    ensures
        low <= index < high,
{
    random_provider::range(low..high)
}

/// `random_provider::shuffled_indices(0..count)`: the indices `0..count`
/// collected and then shuffled with Radiate's generator, so each index comes
/// out exactly once. Their order depends on the generator's state and is not
/// stated.
#[verifier::external_body]
fn shuffled_indices(count: usize) -> (order: Vec<usize>)
    ensures
        order@.to_multiset() == identity(count as nat).to_multiset(),
{
    random_provider::shuffled_indices(0..count)
}

/// Reverses a randomly chosen segment of at least two items: the start is
/// drawn from `0..n - 1` and the inclusive end from `start + 1..n`, so the last
/// item can move too. Returns the segment.
pub fn invert_random_segment(order: &mut Vec<usize>) -> (segment: (usize, usize))
    requires
        old(order)@.len() >= 2,
    ensures
        segment.0 < segment.1 < old(order)@.len(),
        final(order)@ == reversed_segment(old(order)@, segment.0 as int, segment.1 as int),
{
    let count = order.len();
    let start = draw_index(0, count - 1);
    let end = draw_index(start + 1, count);
    reverse_segment(order, start, end);
    (start, end)
}

/// The starting order of population member `index`: the input order for the
/// first, nearest-neighbour paths from randomly drawn starts for the rest of
/// the first half, and random permutations for the second half.
pub fn starting_order(keys: &Vec<Vec<i64>>, index: usize, population: usize) -> (order: Vec<usize>)
    requires
        is_key_table(keys@, keys@.len()),
        keys@.len() > 0,
    ensures
        is_permutation(order@, keys@.len()),
        index == 0 ==> order@ == identity(keys@.len()),
        0 < index < population / 2 ==> forall|i: int|
            0 <= i < keys@.len() - 1 ==> nearest_step(keys@, order@, i, keys@.len()),
{
    let count = keys.len();
    if index == 0 {
        proof {
            lemma_identity_is_permutation(count as nat);
        }
        identity_order(count)
    } else if index < population / 2 {
        nearest_neighbor(keys, draw_index(0, count))
    } else {
        let order = shuffled_indices(count);
        proof {
            lemma_identity_is_permutation(count as nat);
            lemma_rearranged_permutation(identity(count as nat), order@, count as nat);
        }
        order
    }
}

/// Which settings the search accepts: a population of at least six, at least
/// one generation and no explicit window of zero. The number of local passes
/// and the seed play no part, so zero passes (no local search) is accepted.
pub proof fn lemma_valid_settings(config: SolverConfig, local_passes: usize, seed: u64)
    ensures
        config_is_valid(config) <==> (config.population >= 6 && config.generations > 0
            && config.window != Some(0usize)),
        config_is_valid(config) == config_is_valid(
            SolverConfig { local_passes, seed, ..config },
        ),
        config_is_valid(default_config()),
        config_is_valid(SolverConfig { local_passes: 0, ..default_config() }),
{
}

} // verus!
