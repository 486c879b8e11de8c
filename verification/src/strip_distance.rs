//! Squared Euclidean distances between strips, and why each axis can be
//! ordered on its own.

use vstd::prelude::*;

use crate::image_ordering::{
    are_strip_features, ordering_fits, reordered, strip_count, strip_length, strip_pixel, Axis,
    ImageOrdering,
};
use crate::permutation::{is_permutation, lemma_permutation_sum, sum_over, sum_upto};
use crate::raster::{Image, Rgba};

verus! {

/// The squared difference of two components.
pub open spec fn component_square(a: u8, b: u8) -> int {
    (a as int - b as int) * (a as int - b as int)
}

/// The squared Euclidean distance between the RGB components of two pixels.
pub open spec fn pixel_square(a: Rgba, b: Rgba) -> int {
    component_square(a[0], b[0]) + component_square(a[1], b[1]) + component_square(a[2], b[2])
}

/// The squared Euclidean distance between the first `length` components of
/// two vectors.
pub open spec fn squared_distance(u: Seq<u8>, v: Seq<u8>, length: nat) -> int
    decreases length,
{
    if length == 0 {
        0
    } else {
        squared_distance(u, v, (length - 1) as nat) + component_square(
            u[length - 1],
            v[length - 1],
        )
    }
}

/// The squared Euclidean distance between strips `a` and `b` along `axis`,
/// over their first `length` pixels.
pub open spec fn strip_distance(image: Image, axis: Axis, a: int, b: int, length: nat) -> int
    decreases length,
{
    if length == 0 {
        0
    } else {
        strip_distance(image, axis, a, b, (length - 1) as nat) + pixel_square(
            strip_pixel(image, axis, a, length - 1),
            strip_pixel(image, axis, b, length - 1),
        )
    }
}

proof fn lemma_feature_prefix(
    features: Seq<Vec<u8>>,
    image: Image,
    axis: Axis,
    a: int,
    b: int,
    pixels: nat,
)
    requires
        are_strip_features(features, image, axis),
        0 <= a < features.len(),
        0 <= b < features.len(),
        pixels <= strip_length(image, axis),
    ensures
        squared_distance(features[a]@, features[b]@, 3 * pixels) == strip_distance(
            image,
            axis,
            a,
            b,
            pixels,
        ),
    decreases pixels,
{
    if pixels > 0 {
        let o = pixels - 1;
        lemma_feature_prefix(features, image, axis, a, b, o as nat);
        let u = features[a]@;
        let v = features[b]@;
        assert(u[3 * o + 0] == strip_pixel(image, axis, a, o)[0]);
        assert(u[3 * o + 1] == strip_pixel(image, axis, a, o)[1]);
        assert(u[3 * o + 2] == strip_pixel(image, axis, a, o)[2]);
        assert(v[3 * o + 0] == strip_pixel(image, axis, b, o)[0]);
        assert(v[3 * o + 1] == strip_pixel(image, axis, b, o)[1]);
        assert(v[3 * o + 2] == strip_pixel(image, axis, b, o)[2]);
        assert(squared_distance(u, v, 3 * pixels) == squared_distance(u, v, (3 * o + 2) as nat)
            + component_square(u[3 * o + 2], v[3 * o + 2]));
        assert(squared_distance(u, v, (3 * o + 2) as nat) == squared_distance(
            u,
            v,
            (3 * o + 1) as nat,
        ) + component_square(u[3 * o + 1], v[3 * o + 1]));
        assert(squared_distance(u, v, (3 * o + 1) as nat) == squared_distance(
            u,
            v,
            (3 * o) as nat,
        ) + component_square(u[3 * o], v[3 * o]));
    }
}

/// The distance between two strip feature vectors is the squared Euclidean
/// distance of the strips' RGB pixels.
pub proof fn lemma_feature_distance(features: Seq<Vec<u8>>, image: Image, axis: Axis, a: int, b: int)
    requires
        are_strip_features(features, image, axis),
        0 <= a < features.len(),
        0 <= b < features.len(),
    ensures
        squared_distance(features[a]@, features[b]@, 3 * strip_length(image, axis))
            == strip_distance(image, axis, a, b, strip_length(image, axis)),
{
    lemma_feature_prefix(features, image, axis, a, b, strip_length(image, axis));
}

/// The permutation of strips along `axis` in `ordering`.
pub open spec fn strip_order(ordering: ImageOrdering, axis: Axis) -> Seq<usize> {
    match axis {
        Axis::Rows => ordering.rows@,
        Axis::Columns => ordering.columns@,
    }
}

/// The permutation of pixels within a strip along `axis` in `ordering`: the
/// opposite axis.
pub open spec fn within_strip_order(ordering: ImageOrdering, axis: Axis) -> Seq<usize> {
    match axis {
        Axis::Rows => ordering.columns@,
        Axis::Columns => ordering.rows@,
    }
}

/// The squared distance of the pixels at `offset` of two strips.
pub open spec fn offset_square(image: Image, axis: Axis, a: int, b: int) -> spec_fn(int) -> int {
    |offset: int| pixel_square(strip_pixel(image, axis, a, offset), strip_pixel(image, axis, b, offset))
}

proof fn lemma_strip_distance_is_sum(image: Image, axis: Axis, a: int, b: int, length: nat)
    ensures
        strip_distance(image, axis, a, b, length) == sum_upto(offset_square(image, axis, a, b), length),
    decreases length,
{
    if length > 0 {
        lemma_strip_distance_is_sum(image, axis, a, b, (length - 1) as nat);
    }
}

proof fn lemma_reordered_strip_distance(
    image: Image,
    out: Image,
    ordering: ImageOrdering,
    axis: Axis,
    a: int,
    b: int,
    length: nat,
)
    requires
        image.wf(),
        ordering_fits(ordering, image),
        reordered(out, image, ordering.rows@, ordering.columns@),
        0 <= a < strip_count(image, axis),
        0 <= b < strip_count(image, axis),
        length <= strip_length(image, axis),
    ensures
        strip_distance(out, axis, a, b, length) == sum_over(
            offset_square(
                image,
                axis,
                strip_order(ordering, axis)[a] as int,
                strip_order(ordering, axis)[b] as int,
            ),
            within_strip_order(ordering, axis),
            length,
        ),
    decreases length,
{
    if length > 0 {
        lemma_reordered_strip_distance(image, out, ordering, axis, a, b, (length - 1) as nat);
        let o = length - 1;
        match axis {
            Axis::Rows => {
                assert(out.pixel(o, a) == image.pixel(
                    ordering.columns@[o] as int,
                    ordering.rows@[a] as int,
                ));
                assert(out.pixel(o, b) == image.pixel(
                    ordering.columns@[o] as int,
                    ordering.rows@[b] as int,
                ));
            },
            Axis::Columns => {
                assert(out.pixel(a, o) == image.pixel(
                    ordering.columns@[a] as int,
                    ordering.rows@[o] as int,
                ));
                assert(out.pixel(b, o) == image.pixel(
                    ordering.columns@[b] as int,
                    ordering.rows@[o] as int,
                ));
            },
        }
    }
}

/// Rearranging whole rows and columns moves strip `ordering[a]` to position
/// `a` along each axis and permutes the pixels within every strip the same
/// way, so no squared Euclidean distance between two strips changes. The
/// opposite axis's shuffle therefore leaves each axis's distances as they were,
/// and both axes can be ordered independently from the scrambled image.
pub proof fn lemma_reordering_keeps_strip_distances(
    image: Image,
    out: Image,
    ordering: ImageOrdering,
    axis: Axis,
    a: int,
    b: int,
)
    requires
        image.wf(),
        ordering_fits(ordering, image),
        reordered(out, image, ordering.rows@, ordering.columns@),
        0 <= a < strip_count(image, axis),
        0 <= b < strip_count(image, axis),
    ensures
        strip_distance(out, axis, a, b, strip_length(image, axis)) == strip_distance(
            image,
            axis,
            strip_order(ordering, axis)[a] as int,
            strip_order(ordering, axis)[b] as int,
            strip_length(image, axis),
        ),
{
    let length = strip_length(image, axis);
    let first = strip_order(ordering, axis)[a] as int;
    let second = strip_order(ordering, axis)[b] as int;
    lemma_reordered_strip_distance(image, out, ordering, axis, a, b, length);
    assert(is_permutation(within_strip_order(ordering, axis), length));
    lemma_permutation_sum(
        offset_square(image, axis, first, second),
        within_strip_order(ordering, axis),
        length,
    );
    lemma_strip_distance_is_sum(image, axis, first, second, length);
}

} // verus!
