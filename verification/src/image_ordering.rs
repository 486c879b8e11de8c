use vstd::prelude::*;

use rand::rngs::StdRng;
use rand::seq::SliceRandom;
use rand::SeedableRng;

use crate::error::{invalid_input, Error};
use crate::permutation::{
    identity_order, is_permutation, lemma_identity_is_permutation, lemma_rearranged_permutation,
    order_refusal, validate_order,
};
use crate::raster::{Image, Rgba};

verus! {

/// The strips that one search orders: the rows or the columns of an image.
#[derive(Debug, Clone, Copy, PartialEq, Eq)]
pub enum Axis {
    Rows,
    Columns,
}

/// Output position to input position, independently for each axis.
#[derive(Debug, Clone, PartialEq, Eq)]
pub struct ImageOrdering {
    pub rows: Vec<usize>,
    pub columns: Vec<usize>,
}

/// `out` is `image` with its rows taken in the order `rows` and its columns in
/// the order `columns`: the pixel at `(x, y)` comes from `(columns[x], rows[y])`.
pub open spec fn reordered(out: Image, image: Image, rows: Seq<usize>, columns: Seq<usize>) -> bool {
    &&& out.wf()
    &&& out.width == image.width
    &&& out.height == image.height
    &&& forall|x: int, y: int|
        0 <= x < image.width && 0 <= y < image.height ==> #[trigger] out.pixel(x, y)
            == image.pixel(columns[x] as int, rows[y] as int)
}

/// Both axes of `ordering` are permutations of the matching axis of `image`.
pub open spec fn ordering_fits(ordering: ImageOrdering, image: Image) -> bool {
    &&& is_permutation(ordering.rows@, image.height as nat)
    &&& is_permutation(ordering.columns@, image.width as nat)
}

/// Refuses an image without pixels.
pub fn check_dimensions(image: &Image) -> (result: Result<(), Error>)
    ensures
        result is Ok <==> image.width > 0 && image.height > 0,
        result matches Err(e) ==> invalid_input(e, "image must have nonzero width and height"@),
{
    if image.width == 0 || image.height == 0 {
        return Err(
            Error::InvalidInput(String::from_str("image must have nonzero width and height")),
        );
    }
    Ok(())
}

/// Rearranges whole rows and columns of `image`. The image size is checked
/// first, then the row order, then the column order.
pub fn apply_order(image: &Image, ordering: &ImageOrdering) -> (result: Result<Image, Error>)
    requires
        image.wf(),
    ensures
        result is Ok <==> image.width > 0 && image.height > 0 && ordering_fits(*ordering, *image),
        result matches Ok(out) ==> reordered(out, *image, ordering.rows@, ordering.columns@),
        result matches Err(e) ==> invalid_input(
            e,
            if image.width == 0 || image.height == 0 {
                "image must have nonzero width and height"@
            } else if !is_permutation(ordering.rows@, image.height as nat) {
                order_refusal(ordering.rows@, image.height as nat)
            } else {
                order_refusal(ordering.columns@, image.width as nat)
            },
        ),
{
    check_dimensions(image)?;
    validate_order(ordering.rows.as_slice(), image.height as usize)?;
    validate_order(ordering.columns.as_slice(), image.width as usize)?;
    let width = image.width as usize;
    let height = image.height as usize;
    let mut rows: Vec<Vec<Rgba>> = Vec::new();
    let mut y: usize = 0;
    while y < height
        invariant
            image.wf(),
            width == image.width,
            height == image.height,
            ordering_fits(*ordering, *image),
            y <= height,
            rows@.len() == y,
            forall|k: int| 0 <= k < y ==> (#[trigger] rows@[k])@.len() == width,
            forall|x: int, k: int|
                0 <= x < width && 0 <= k < y ==> #[trigger] rows@[k]@[x] == image.pixel(
                    ordering.columns@[x] as int,
                    ordering.rows@[k] as int,
                ),
        decreases height - y,
    {
        let source = ordering.rows[y];
        let mut row: Vec<Rgba> = Vec::new();
        let mut x: usize = 0;
        while x < width
            invariant
                image.wf(),
                width == image.width,
                height == image.height,
                ordering_fits(*ordering, *image),
                source < height,
                x <= width,
                row@.len() == x,
                forall|i: int|
                    0 <= i < x ==> #[trigger] row@[i] == image.pixel(
                        ordering.columns@[i] as int,
                        source as int,
                    ),
            decreases width - x,
        {
            let column = ordering.columns[x];
            row.push(image.rows[source][column]);
            x = x + 1;
        }
        rows.push(row);
        y = y + 1;
    }
    Ok(Image { width: image.width, height: image.height, rows })
}

/// The seedable generator of the `rand` crate, carried through `scramble` as an
/// opaque value.
#[verifier::external_type_specification]
#[verifier::external_body]
pub struct ExStdRng(StdRng);

/// Creates the generator that `scramble` draws from.
/// `StdRng::seed_from_u64` is deterministic for a seed, but the crate does not
/// promise the same stream across versions or platforms, so nothing is stated
/// of the generator it returns.
#[verifier::external_body]
fn seeded_generator(seed: u64) -> StdRng {
    StdRng::seed_from_u64(seed)
}

/// Shuffles `items` in place with `SliceRandom::shuffle`, a Fisher-Yates
/// shuffle made of swaps: the same items remain, each as often as before. Which
/// arrangement comes out depends on the generator's state and is not stated.
#[verifier::external_body]
fn shuffle(items: &mut Vec<usize>, generator: &mut StdRng)
    ensures
        final(items)@.to_multiset() == old(items)@.to_multiset(),
{
    items.shuffle(generator)
}

/// Shuffles whole rows, then whole columns, with a generator seeded from
/// `seed`, and returns the shuffled image with the map that made it.
pub fn scramble(image: &Image, seed: u64) -> (result: Result<(Image, ImageOrdering), Error>)
    requires
        image.wf(),
    ensures
        result is Ok <==> image.width > 0 && image.height > 0,
        result matches Err(e) ==> invalid_input(e, "image must have nonzero width and height"@),
        result matches Ok((scrambled, ordering)) ==> ordering_fits(ordering, *image) && reordered(
            scrambled,
            *image,
            ordering.rows@,
            ordering.columns@,
        ),
{
    check_dimensions(image)?;
    let mut generator = seeded_generator(seed);
    let mut rows = identity_order(image.height as usize);
    let mut columns = identity_order(image.width as usize);
    let ghost row_identity = rows@;
    let ghost column_identity = columns@;
    shuffle(&mut rows, &mut generator);
    shuffle(&mut columns, &mut generator);
    proof {
        lemma_identity_is_permutation(image.height as nat);
        lemma_identity_is_permutation(image.width as nat);
        lemma_rearranged_permutation(row_identity, rows@, image.height as nat);
        lemma_rearranged_permutation(column_identity, columns@, image.width as nat);
    }
    let ordering = ImageOrdering { rows, columns };
    let scrambled = apply_order(image, &ordering)?;
    Ok((scrambled, ordering))
}

} // verus!

verus! {

/// The number of strips along `axis`: rows for `Rows`, columns for `Columns`.
pub open spec fn strip_count(image: Image, axis: Axis) -> nat {
    match axis {
        Axis::Rows => image.height as nat,
        Axis::Columns => image.width as nat,
    }
}

/// The number of pixels in one strip along `axis`.
pub open spec fn strip_length(image: Image, axis: Axis) -> nat {
    match axis {
        Axis::Rows => image.width as nat,
        Axis::Columns => image.height as nat,
    }
}

/// The pixel at `offset` within strip `item`.
pub open spec fn strip_pixel(image: Image, axis: Axis, item: int, offset: int) -> Rgba {
    match axis {
        Axis::Rows => image.pixel(offset, item),
        Axis::Columns => image.pixel(item, offset),
    }
}

/// `features` holds, for each strip along `axis`, the red, green and blue
/// components of its pixels in order; alpha takes no part.
pub open spec fn are_strip_features(features: Seq<Vec<u8>>, image: Image, axis: Axis) -> bool {
    &&& features.len() == strip_count(image, axis)
    &&& forall|item: int|
        0 <= item < features.len() ==> (#[trigger] features[item])@.len() == 3 * strip_length(
            image,
            axis,
        )
    &&& forall|item: int, offset: int, channel: int|
        0 <= item < features.len() && 0 <= offset < strip_length(image, axis) && 0 <= channel < 3
            ==> #[trigger] features[item]@[3 * offset + channel] == strip_pixel(
            image,
            axis,
            item,
            offset,
        )[channel]
}

/// The vectors that the distances between strips are measured on: the RGB
/// components of every pixel of each row or column. No spatial filter is used.
pub fn strip_features(image: &Image, axis: Axis) -> (result: Result<Vec<Vec<u8>>, Error>)
    requires
        image.wf(),
    ensures
        result is Ok <==> image.width > 0 && image.height > 0,
        result matches Err(e) ==> invalid_input(e, "image must have nonzero width and height"@),
        result matches Ok(features) ==> are_strip_features(features@, *image, axis),
{
    check_dimensions(image)?;
    let (count, length) = match axis {
        Axis::Rows => (image.height, image.width),
        Axis::Columns => (image.width, image.height),
    };
    let mut features: Vec<Vec<u8>> = Vec::new();
    let mut item: u32 = 0;
    while item < count
        invariant
            image.wf(),
            count == strip_count(*image, axis),
            length == strip_length(*image, axis),
            item <= count,
            features@.len() == item,
            forall|k: int| 0 <= k < item ==> (#[trigger] features@[k])@.len() == 3 * length,
            forall|k: int, offset: int, channel: int|
                0 <= k < item && 0 <= offset < length && 0 <= channel < 3
                    ==> #[trigger] features@[k]@[3 * offset + channel] == strip_pixel(
                    *image,
                    axis,
                    k,
                    offset,
                )[channel],
        decreases count - item,
    {
        let mut vector: Vec<u8> = Vec::new();
        let mut offset: u32 = 0;
        while offset < length
            invariant
                image.wf(),
                count == strip_count(*image, axis),
                length == strip_length(*image, axis),
                item < count,
                offset <= length,
                vector@.len() == 3 * offset,
                forall|o: int, channel: int|
                    0 <= o < offset && 0 <= channel < 3 ==> #[trigger] vector@[3 * o + channel]
                        == strip_pixel(*image, axis, item as int, o)[channel],
            decreases length - offset,
        {
            let pixel = match axis {
                Axis::Rows => image.get_pixel(offset, item),
                Axis::Columns => image.get_pixel(item, offset),
            };
            let ghost before = vector@;
            vector.push(pixel[0]);
            vector.push(pixel[1]);
            vector.push(pixel[2]);
            proof {
                assert forall|o: int, channel: int|
                    0 <= o < offset + 1 && 0 <= channel < 3 implies #[trigger] vector@[3 * o
                    + channel] == strip_pixel(*image, axis, item as int, o)[channel] by {
                    if o < offset {
                        assert(vector@[3 * o + channel] == before[3 * o + channel]);
                    }
                }
            }
            offset = offset + 1;
        }
        features.push(vector);
        item = item + 1;
    }
    Ok(features)
}

/// `inverse` undoes `order`: position `order[i]` of `inverse` holds `i`.
pub open spec fn is_inverse(inverse: Seq<usize>, order: Seq<usize>) -> bool {
    &&& inverse.len() == order.len()
    &&& forall|i: int| 0 <= i < inverse.len() ==> #[trigger] inverse[i] < order.len()
    &&& forall|i: int| 0 <= i < inverse.len() ==> #[trigger] order[inverse[i] as int] == i
}

/// Rearranging a scrambled image by the inverse of its map gives back the
/// original pixels: the map that `scramble` reports is enough to reconstruct.
pub proof fn lemma_inverse_map_restores(
    image: Image,
    scrambled: Image,
    restored: Image,
    ordering: ImageOrdering,
    inverse: ImageOrdering,
)
    requires
        image.wf(),
        ordering_fits(ordering, image),
        reordered(scrambled, image, ordering.rows@, ordering.columns@),
        is_inverse(inverse.rows@, ordering.rows@),
        is_inverse(inverse.columns@, ordering.columns@),
        reordered(restored, scrambled, inverse.rows@, inverse.columns@),
    ensures
        restored.same_pixels(&image),
{
    assert forall|x: int, y: int|
        0 <= x < restored.width && 0 <= y < restored.height implies #[trigger] restored.pixel(x, y)
        == image.pixel(x, y) by {
        let column = inverse.columns@[x] as int;
        let row = inverse.rows@[y] as int;
        assert(scrambled.pixel(column, row) == image.pixel(
            ordering.columns@[column] as int,
            ordering.rows@[row] as int,
        ));
    }
}

} // verus!
