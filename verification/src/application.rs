//! The in-memory scramble workflow and the adjacency count of an experiment.

use vstd::prelude::*;

use crate::error::{invalid_input, Error};
use crate::image_ordering::{ordering_fits, reordered, scramble, ImageOrdering};
use crate::raster::Image;

verus! {

/// What a scramble writes beside the image: its seed and its map.
#[derive(Debug, Clone, PartialEq, Eq)]
pub struct ScrambleReport {
    pub seed: u64,
    pub ordering: ImageOrdering,
}

/// A scrambled image with its report.
#[derive(Debug, Clone, PartialEq, Eq)]
pub struct ScrambleRun {
    pub image: Image,
    pub report: ScrambleReport,
}

/// Shuffles whole rows and columns of `image` with `seed`.
pub fn run_scramble(image: &Image, seed: u64) -> (result: Result<ScrambleRun, Error>)
    requires
        image.wf(),
    ensures
        result is Ok <==> image.width > 0 && image.height > 0,
        result matches Err(e) ==> invalid_input(e, "image must have nonzero width and height"@),
        result matches Ok(run) ==> run.report.seed == seed && ordering_fits(
            run.report.ordering,
            *image,
        ) && reordered(
            run.image,
            *image,
            run.report.ordering.rows@,
            run.report.ordering.columns@,
        ),
{
    let (scrambled, ordering) = scramble(image, seed)?;
    Ok(ScrambleRun { image: scrambled, report: ScrambleReport { seed, ordering } })
}

/// Output positions `i` and `i + 1` of `restored` hold items that were
/// neighbours before scrambling (`scrambled` maps output to input position).
pub open spec fn adjacent_pair(scrambled: Seq<usize>, restored: Seq<usize>, i: int) -> bool {
    let a = scrambled[restored[i] as int] as int;
    let b = scrambled[restored[i + 1] as int] as int;
    a - b == 1 || b - a == 1
}

/// How many of the first `pairs` consecutive pairs of `restored` are original
/// neighbours.
pub open spec fn recovered_pairs(scrambled: Seq<usize>, restored: Seq<usize>, pairs: nat) -> nat
    decreases pairs,
{
    if pairs == 0 {
        0
    } else {
        recovered_pairs(scrambled, restored, (pairs - 1) as nat) + if adjacent_pair(
            scrambled,
            restored,
            pairs - 1,
        ) {
            1nat
        } else {
            0nat
        }
    }
}

/// The number of consecutive pairs of a restored order that were neighbours
/// in the original image, in either direction. The fraction of recovered
/// neighbours divides this by `restored.len() - 1`.
pub fn recovered_adjacencies(scrambled: &[usize], restored: &[usize]) -> (count: usize)
    requires
        forall|i: int| 0 <= i < restored@.len() ==> #[trigger] restored@[i] < scrambled@.len(),
    ensures
        count == (if restored@.len() < 2 {
            0
        } else {
            recovered_pairs(scrambled@, restored@, (restored@.len() - 1) as nat)
        }),
        count <= (if restored@.len() < 2 {
            0
        } else {
            restored@.len() - 1
        }),
{
    if restored.len() < 2 {
        return 0;
    }
    let pairs = restored.len() - 1;
    let mut count: usize = 0;
    let mut i: usize = 0;
    while i < pairs
        invariant
            pairs == restored@.len() - 1,
            forall|k: int| 0 <= k < restored@.len() ==> #[trigger] restored@[k] < scrambled@.len(),
            i <= pairs,
            count == recovered_pairs(scrambled@, restored@, i as nat),
            count <= i,
        decreases pairs - i,
    {
        let a = scrambled[restored[i]];
        let b = scrambled[restored[i + 1]];
        if (a > b && a - b == 1) || (b > a && b - a == 1) {
            count = count + 1;
        }
        i = i + 1;
    }
    count
}

} // verus!

verus! {

proof fn lemma_reversed_prefix(scrambled: Seq<usize>, restored: Seq<usize>, taken: nat)
    requires
        restored.len() >= 2,
        taken <= restored.len() - 1,
    ensures
        recovered_pairs(scrambled, restored.reverse(), taken) + recovered_pairs(
            scrambled,
            restored,
            (restored.len() - 1 - taken) as nat,
        ) == recovered_pairs(scrambled, restored, (restored.len() - 1) as nat),
    decreases taken,
{
    if taken > 0 {
        let n = restored.len() as int;
        lemma_reversed_prefix(scrambled, restored, (taken - 1) as nat);
        let i = taken - 1;
        let reversed = restored.reverse();
        assert(reversed[i] == restored[n - 1 - i]);
        assert(reversed[i + 1] == restored[n - 2 - i]);
        assert(adjacent_pair(scrambled, reversed, i) == adjacent_pair(scrambled, restored, n - 2 - i));
    }
}

/// The recovery count ignores direction: reading the restored order backwards
/// recovers the same number of original neighbours.
pub proof fn lemma_recovery_ignores_direction(scrambled: Seq<usize>, restored: Seq<usize>)
    requires
        restored.len() >= 2,
    ensures
        recovered_pairs(scrambled, restored.reverse(), (restored.len() - 1) as nat)
            == recovered_pairs(scrambled, restored, (restored.len() - 1) as nat),
{
    lemma_reversed_prefix(scrambled, restored, (restored.len() - 1) as nat);
}

} // verus!

verus! {

proof fn lemma_all_pairs_recovered(scrambled: Seq<usize>, restored: Seq<usize>, pairs: nat)
    requires
        pairs <= restored.len() - 1,
        forall|i: int| 0 <= i < restored.len() ==> #[trigger] scrambled[restored[i] as int] == i,
    ensures
        recovered_pairs(scrambled, restored, pairs) == pairs,
    decreases pairs,
{
    if pairs > 0 {
        lemma_all_pairs_recovered(scrambled, restored, (pairs - 1) as nat);
        let i = pairs - 1;
        assert(scrambled[restored[i] as int] == i);
        assert(scrambled[restored[i + 1] as int] == i + 1);
    }
}

/// A restored order that puts every item back at its original position
/// recovers every one of its consecutive pairs.
pub proof fn lemma_exact_restoration_recovers_all(scrambled: Seq<usize>, restored: Seq<usize>)
    requires
        restored.len() >= 2,
        forall|i: int| 0 <= i < restored.len() ==> #[trigger] scrambled[restored[i] as int] == i,
    ensures
        recovered_pairs(scrambled, restored, (restored.len() - 1) as nat) == restored.len() - 1,
{
    lemma_all_pairs_recovered(scrambled, restored, (restored.len() - 1) as nat);
}

} // verus!
