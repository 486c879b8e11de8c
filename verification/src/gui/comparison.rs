//! Pixel comparisons on centered canvases, without changing either image's scale.

use vstd::prelude::*;

use image::imageops;
use image::RgbaImage;

use crate::raster::{Image, Rgba};

verus! {

/// A rotation or reflection that aligns a result with its original.
#[derive(Clone, Copy, Debug, PartialEq, Eq)]
pub enum Transform {
    RotateLeft,
    RotateRight,
    FlipHorizontal,
    FlipVertical,
}

/// `out` is `image` under `operation`: the size it gets and where each pixel
/// comes from. Rotations are by a quarter turn, right meaning clockwise.
pub open spec fn transformed(out: Image, image: Image, operation: Transform) -> bool {
    let w = image.width as int;
    let h = image.height as int;
    &&& out.wf()
    &&& match operation {
        Transform::RotateLeft | Transform::RotateRight => out.width == image.height
            && out.height == image.width,
        _ => out.width == image.width && out.height == image.height,
    }
    &&& forall|x: int, y: int|
        0 <= x < out.width && 0 <= y < out.height ==> #[trigger] out.pixel(x, y) == match operation {
            Transform::RotateLeft => image.pixel(w - 1 - y, x),
            Transform::RotateRight => image.pixel(y, h - 1 - x),
            Transform::FlipHorizontal => image.pixel(w - 1 - x, y),
            Transform::FlipVertical => image.pixel(x, h - 1 - y),
        }
}

/// `imageops::rotate270`: turns the image a quarter turn counterclockwise; the
/// pixel at `(x, y)` of the result is the source pixel at `(width - 1 - y, x)`.
/// The body converts the raster to the crate's buffer and back.
#[verifier::external_body]
fn rotate_left(image: &Image) -> (rotated: Image)
    requires
        image.wf(),
    ensures
        transformed(rotated, *image, Transform::RotateLeft),
{
    let buffer = RgbaImage::from_fn(image.width, image.height, |x, y| image::Rgba(image.rows[y as usize][x as usize]));
    let out = imageops::rotate270(&buffer);
    let rows = (0..out.height()).map(|y| (0..out.width()).map(|x| out.get_pixel(x, y).0).collect()).collect();
    Image { width: out.width(), height: out.height(), rows }
}

/// `imageops::rotate90`: turns the image a quarter turn clockwise; the pixel at
/// `(x, y)` of the result is the source pixel at `(y, height - 1 - x)`.
/// The body converts the raster to the crate's buffer and back.
#[verifier::external_body]
fn rotate_right(image: &Image) -> (rotated: Image)
    requires
        image.wf(),
    ensures
        transformed(rotated, *image, Transform::RotateRight),
{
    let buffer = RgbaImage::from_fn(image.width, image.height, |x, y| image::Rgba(image.rows[y as usize][x as usize]));
    let out = imageops::rotate90(&buffer);
    let rows = (0..out.height()).map(|y| (0..out.width()).map(|x| out.get_pixel(x, y).0).collect()).collect();
    Image { width: out.width(), height: out.height(), rows }
}

/// `imageops::flip_horizontal`: mirrors the image left to right; the pixel at
/// `(x, y)` of the result is the source pixel at `(width - 1 - x, y)`.
/// The body converts the raster to the crate's buffer and back.
#[verifier::external_body]
fn flip_horizontal(image: &Image) -> (flipped: Image)
    requires
        image.wf(),
    ensures
        transformed(flipped, *image, Transform::FlipHorizontal),
{
    let buffer = RgbaImage::from_fn(image.width, image.height, |x, y| image::Rgba(image.rows[y as usize][x as usize]));
    let out = imageops::flip_horizontal(&buffer);
    let rows = (0..out.height()).map(|y| (0..out.width()).map(|x| out.get_pixel(x, y).0).collect()).collect();
    Image { width: out.width(), height: out.height(), rows }
}

/// `imageops::flip_vertical`: mirrors the image top to bottom; the pixel at
/// `(x, y)` of the result is the source pixel at `(x, height - 1 - y)`.
/// The body converts the raster to the crate's buffer and back.
#[verifier::external_body]
fn flip_vertical(image: &Image) -> (flipped: Image)
    requires
        image.wf(),
    ensures
        transformed(flipped, *image, Transform::FlipVertical),
{
    let buffer = RgbaImage::from_fn(image.width, image.height, |x, y| image::Rgba(image.rows[y as usize][x as usize]));
    let out = imageops::flip_vertical(&buffer);
    let rows = (0..out.height()).map(|y| (0..out.width()).map(|x| out.get_pixel(x, y).0).collect()).collect();
    Image { width: out.width(), height: out.height(), rows }
}

/// Rotates or mirrors `image`.
pub fn transform(image: &Image, operation: Transform) -> (out: Image)
    requires
        image.wf(),
    ensures
        transformed(out, *image, operation),
{
    match operation {
        Transform::RotateLeft => rotate_left(image),
        Transform::RotateRight => rotate_right(image),
        Transform::FlipHorizontal => flip_horizontal(image),
        Transform::FlipVertical => flip_vertical(image),
    }
}

/// Four clockwise quarter turns give back the original pixels.
pub proof fn lemma_four_right_turns_restore(a: Image, b: Image, c: Image, d: Image, e: Image)
    requires
        a.wf(),
        transformed(b, a, Transform::RotateRight),
        transformed(c, b, Transform::RotateRight),
        transformed(d, c, Transform::RotateRight),
        transformed(e, d, Transform::RotateRight),
    ensures
        e.same_pixels(&a),
{
    assert forall|x: int, y: int| 0 <= x < e.width && 0 <= y < e.height implies #[trigger] e.pixel(
        x,
        y,
    ) == a.pixel(x, y) by {
        assert(e.pixel(x, y) == d.pixel(y, d.height - 1 - x));
        assert(d.pixel(y, d.height - 1 - x) == c.pixel(d.height - 1 - x, c.height - 1 - y));
        assert(c.pixel(d.height - 1 - x, c.height - 1 - y) == b.pixel(
            c.height - 1 - y,
            b.height - 1 - (d.height - 1 - x),
        ));
    }
}

/// A counterclockwise quarter turn followed by a clockwise one gives back the
/// original pixels.
pub proof fn lemma_left_then_right_restores(a: Image, b: Image, c: Image)
    requires
        a.wf(),
        transformed(b, a, Transform::RotateLeft),
        transformed(c, b, Transform::RotateRight),
    ensures
        c.same_pixels(&a),
{
    assert forall|x: int, y: int| 0 <= x < c.width && 0 <= y < c.height implies #[trigger] c.pixel(
        x,
        y,
    ) == a.pixel(x, y) by {
        assert(c.pixel(x, y) == b.pixel(y, b.height - 1 - x));
    }
}

/// Each reflection undoes itself.
pub proof fn lemma_flip_twice_restores(a: Image, b: Image, c: Image, operation: Transform)
    requires
        a.wf(),
        operation == Transform::FlipHorizontal || operation == Transform::FlipVertical,
        transformed(b, a, operation),
        transformed(c, b, operation),
    ensures
        c.same_pixels(&a),
{
    assert forall|x: int, y: int| 0 <= x < c.width && 0 <= y < c.height implies #[trigger] c.pixel(
        x,
        y,
    ) == a.pixel(x, y) by {
        if operation == Transform::FlipHorizontal {
            assert(c.pixel(x, y) == b.pixel(b.width - 1 - x, y));
        } else {
            assert(c.pixel(x, y) == b.pixel(x, b.height - 1 - y));
        }
    }
}

/// Raw RGBA mismatch counts of a comparison.
#[derive(Clone, Copy, Debug, PartialEq, Eq)]
pub struct DifferenceStats {
    /// Raw RGBA mismatches, including pixels covered by only one image.
    pub different_pixels: u64,
    /// Pixels covered by either image; empty corners of the canvas are excluded.
    pub compared_pixels: u64,
    pub size_mismatch: bool,
}

/// Two images centered on a common canvas, with their difference image.
#[derive(Debug)]
pub struct Comparison {
    pub original: Image,
    pub restored: Image,
    pub stats: DifferenceStats,
    pub base_difference: Image,
}

/// The larger of two sizes.
pub open spec fn larger(a: u32, b: u32) -> u32 {
    if a >= b {
        a
    } else {
        b
    }
}

/// The pixel of `image` at canvas position `(x, y)`, when `image` is centered on
/// a `width` by `height` canvas with its offsets rounded down; `None` outside it.
pub open spec fn centered(image: Image, width: int, height: int, x: int, y: int) -> Option<Rgba> {
    let left = (width - image.width) / 2;
    let top = (height - image.height) / 2;
    if left <= x < left + image.width && top <= y < top + image.height {
        Some(image.pixel(x - left, y - top))
    } else {
        None
    }
}

/// `|a - b|`.
pub open spec fn abs_difference(a: u8, b: u8) -> u8 {
    if a >= b {
        (a - b) as u8
    } else {
        (b - a) as u8
    }
}

/// The largest channel difference of two pixels, alpha included.
pub open spec fn max_difference(a: Rgba, b: Rgba) -> u8 {
    let d0 = abs_difference(a[0], b[0]);
    let d1 = abs_difference(a[1], b[1]);
    let d2 = abs_difference(a[2], b[2]);
    let d3 = abs_difference(a[3], b[3]);
    let m01 = if d0 >= d1 {
        d0
    } else {
        d1
    };
    let m23 = if d2 >= d3 {
        d2
    } else {
        d3
    };
    if m01 >= m23 {
        m01
    } else {
        m23
    }
}

/// Grey of the largest difference where both images cover a pixel, magenta
/// where only one does, and opaque black where neither does.
pub open spec fn difference_pixel(original: Option<Rgba>, restored: Option<Rgba>) -> Rgba {
    match (original, restored) {
        (Some(a), Some(b)) => {
            let d = max_difference(a, b);
            [d, d, d, 255u8]
        },
        (None, None) => [0u8, 0u8, 0u8, 255u8],
        _ => [255u8, 0u8, 255u8, 255u8],
    }
}

/// A difference pixel with its grey level multiplied by `gain`, capped at 255.
/// Black (no difference) and the magenta coverage marker are left unchanged.
pub open spec fn amplified(pixel: Rgba, gain: u32) -> Rgba {
    if pixel[0] == 0 || pixel[0] != pixel[1] {
        pixel
    } else {
        let level = if pixel[0] * gain >= 255 {
            255u8
        } else {
            (pixel[0] * gain) as u8
        };
        [level, level, level, 255u8]
    }
}

/// A pixel is compared when either image covers it, and differs when only one
/// covers it or the two disagree in some channel.
pub open spec fn counted(original: Option<Rgba>, restored: Option<Rgba>, differing: bool) -> bool {
    match (original, restored) {
        (Some(a), Some(b)) => !differing || max_difference(a, b) != 0,
        (None, None) => false,
        _ => true,
    }
}

/// Counted pixels among the first `columns` of canvas row `y`.
pub open spec fn count_in_row(
    original: Image,
    restored: Image,
    y: int,
    columns: nat,
    differing: bool,
) -> nat
    decreases columns,
{
    if columns == 0 {
        0
    } else {
        let width = larger(original.width, restored.width) as int;
        let height = larger(original.height, restored.height) as int;
        let x = columns - 1;
        count_in_row(original, restored, y, (columns - 1) as nat, differing) + if counted(
            centered(original, width, height, x, y),
            centered(restored, width, height, x, y),
            differing,
        ) {
            1nat
        } else {
            0nat
        }
    }
}

/// Counted pixels among the first `rows` canvas rows.
pub open spec fn count_in_rows(original: Image, restored: Image, rows: nat, differing: bool) -> nat
    decreases rows,
{
    if rows == 0 {
        0
    } else {
        let width = larger(original.width, restored.width) as nat;
        count_in_rows(original, restored, (rows - 1) as nat, differing) + count_in_row(
            original,
            restored,
            rows - 1,
            width,
            differing,
        )
    }
}

proof fn lemma_row_count_bound(original: Image, restored: Image, y: int, columns: nat, differing: bool)
    ensures
        count_in_row(original, restored, y, columns, differing) <= columns,
    decreases columns,
{
    if columns > 0 {
        lemma_row_count_bound(original, restored, y, (columns - 1) as nat, differing);
    }
}

proof fn lemma_rows_count_bound(original: Image, restored: Image, rows: nat, differing: bool)
    ensures
        count_in_rows(original, restored, rows, differing) <= rows * larger(
            original.width,
            restored.width,
        ),
    decreases rows,
{
    if rows > 0 {
        let width = larger(original.width, restored.width) as nat;
        lemma_rows_count_bound(original, restored, (rows - 1) as nat, differing);
        lemma_row_count_bound(original, restored, rows - 1, width, differing);
        assert(rows * width == (rows - 1) * width + width) by (nonlinear_arith);
    }
}

/// Every canvas pixel: `canvas` shows `image` centered on a transparent
/// `width` by `height` canvas.
pub open spec fn is_centered_canvas(canvas: Image, image: Image, width: u32, height: u32) -> bool {
    &&& canvas.wf()
    &&& canvas.width == width
    &&& canvas.height == height
    &&& forall|x: int, y: int|
        0 <= x < width && 0 <= y < height ==> #[trigger] canvas.pixel(x, y) == match centered(
            image,
            width as int,
            height as int,
            x,
            y,
        ) {
            Some(pixel) => pixel,
            None => [0u8, 0u8, 0u8, 0u8],
        }
}

fn abs_diff(a: u8, b: u8) -> (d: u8)
    ensures
        d == abs_difference(a, b),
{
    if a >= b {
        a - b
    } else {
        b - a
    }
}

fn max_u8(a: u8, b: u8) -> (m: u8)
    ensures
        m == (if a >= b {
            a
        } else {
            b
        }),
{
    if a >= b {
        a
    } else {
        b
    }
}

fn pixel_difference(a: Rgba, b: Rgba) -> (d: u8)
    ensures
        d == max_difference(a, b),
{
    let d0 = abs_diff(a[0], b[0]);
    let d1 = abs_diff(a[1], b[1]);
    let d2 = abs_diff(a[2], b[2]);
    let d3 = abs_diff(a[3], b[3]);
    max_u8(max_u8(d0, d1), max_u8(d2, d3))
}

/// Where `image` starts on a `width` by `height` canvas when centered, rounding down.
pub fn centered_offset(image: &Image, width: u32, height: u32) -> (offset: (u32, u32))
    requires
        image.width <= width,
        image.height <= height,
    ensures
        offset.0 == (width - image.width) / 2,
        offset.1 == (height - image.height) / 2,
{
    ((width - image.width) / 2, (height - image.height) / 2)
}

/// The pixel of `image` at canvas position `(x, y)` for the given offset, if any.
pub fn centered_pixel(image: &Image, offset: (u32, u32), x: u32, y: u32) -> (pixel: Option<Rgba>)
    requires
        image.wf(),
    ensures
        pixel == (if offset.0 <= x < offset.0 + image.width && offset.1 <= y < offset.1
            + image.height {
            Some(image.pixel(x - offset.0, y - offset.1))
        } else {
            None
        }),
{
    if x < offset.0 || y < offset.1 {
        return None;
    }
    let image_x = x - offset.0;
    let image_y = y - offset.1;
    if image_x < image.width && image_y < image.height {
        Some(image.get_pixel(image_x, image_y))
    } else {
        None
    }
}

/// `image` shows the original canvas left of column `divider` and the
/// result canvas from it on.
pub open spec fn is_wipe(image: Image, comparison: Comparison, divider: int) -> bool {
    &&& image.wf()
    &&& image.width == comparison.original.width
    &&& image.height == comparison.original.height
    &&& forall|x: int, y: int|
        0 <= x < image.width && 0 <= y < image.height ==> #[trigger] image.pixel(x, y) == (if x
            < divider {
            comparison.original.pixel(x, y)
        } else {
            comparison.restored.pixel(x, y)
        })
}

impl Comparison {
    /// The invariant: both canvases and the difference image share one size.
    pub open spec fn wf(&self) -> bool {
        &&& self.original.wf()
        &&& self.restored.wf()
        &&& self.base_difference.wf()
        &&& self.restored.width == self.original.width
        &&& self.restored.height == self.original.height
        &&& self.base_difference.width == self.original.width
        &&& self.base_difference.height == self.original.height
    }

    /// Centers both images on their largest extent, rounding offsets downward.
    /// Padding is transparent, and source pixels keep their values.
    pub fn new(original: &Image, restored: &Image) -> (comparison: Comparison)
        requires
            original.wf(),
            restored.wf(),
        ensures
            comparison.wf(),
            ({
                let width = larger(original.width, restored.width);
                let height = larger(original.height, restored.height);
                &&& is_centered_canvas(comparison.original, *original, width, height)
                &&& is_centered_canvas(comparison.restored, *restored, width, height)
                &&& forall|x: int, y: int|
                    0 <= x < width && 0 <= y < height ==> #[trigger] comparison.base_difference.pixel(
                        x,
                        y,
                    ) == difference_pixel(
                        centered(*original, width as int, height as int, x, y),
                        centered(*restored, width as int, height as int, x, y),
                    )
                &&& comparison.stats.compared_pixels == count_in_rows(
                    *original,
                    *restored,
                    height as nat,
                    false,
                )
                &&& comparison.stats.different_pixels == count_in_rows(
                    *original,
                    *restored,
                    height as nat,
                    true,
                )
                &&& comparison.stats.size_mismatch == (original.width != restored.width
                    || original.height != restored.height)
            }),
    {
        let width = if original.width >= restored.width {
            original.width
        } else {
            restored.width
        };
        let height = if original.height >= restored.height {
            original.height
        } else {
            restored.height
        };
        let original_offset = centered_offset(original, width, height);
        let restored_offset = centered_offset(restored, width, height);
        let ghost w = width as int;
        let ghost h = height as int;
        proof {
            assert(h * w <= 0xffff_ffffu64 * 0xffff_ffffu64) by (nonlinear_arith)
                requires
                    0 <= h <= 0xffff_ffff,
                    0 <= w <= 0xffff_ffff,
            ;
        }
        let mut original_rows: Vec<Vec<Rgba>> = Vec::new();
        let mut restored_rows: Vec<Vec<Rgba>> = Vec::new();
        let mut difference_rows: Vec<Vec<Rgba>> = Vec::new();
        let mut compared: u64 = 0;
        let mut different: u64 = 0;
        let mut y: u32 = 0;
        while y < height
            invariant
                original.wf(),
                restored.wf(),
                width == larger(original.width, restored.width),
                height == larger(original.height, restored.height),
                w == width,
                h == height,
                h * w <= 0xffff_ffffu64 * 0xffff_ffffu64,
                original_offset.0 == (width - original.width) / 2,
                original_offset.1 == (height - original.height) / 2,
                restored_offset.0 == (width - restored.width) / 2,
                restored_offset.1 == (height - restored.height) / 2,
                y <= height,
                original_rows@.len() == y,
                restored_rows@.len() == y,
                difference_rows@.len() == y,
                forall|k: int| 0 <= k < y ==> (#[trigger] original_rows@[k])@.len() == width,
                forall|k: int| 0 <= k < y ==> (#[trigger] restored_rows@[k])@.len() == width,
                forall|k: int| 0 <= k < y ==> (#[trigger] difference_rows@[k])@.len() == width,
                forall|x: int, k: int|
                    0 <= x < width && 0 <= k < y ==> #[trigger] original_rows@[k]@[x] == match centered(
                        *original,
                        w,
                        h,
                        x,
                        k,
                    ) {
                        Some(pixel) => pixel,
                        None => [0u8, 0u8, 0u8, 0u8],
                    },
                forall|x: int, k: int|
                    0 <= x < width && 0 <= k < y ==> #[trigger] restored_rows@[k]@[x] == match centered(
                        *restored,
                        w,
                        h,
                        x,
                        k,
                    ) {
                        Some(pixel) => pixel,
                        None => [0u8, 0u8, 0u8, 0u8],
                    },
                forall|x: int, k: int|
                    0 <= x < width && 0 <= k < y ==> #[trigger] difference_rows@[k]@[x]
                        == difference_pixel(
                        centered(*original, w, h, x, k),
                        centered(*restored, w, h, x, k),
                    ),
                compared == count_in_rows(*original, *restored, y as nat, false),
                different == count_in_rows(*original, *restored, y as nat, true),
            decreases height - y,
        {
            let mut original_row: Vec<Rgba> = Vec::new();
            let mut restored_row: Vec<Rgba> = Vec::new();
            let mut difference_row: Vec<Rgba> = Vec::new();
            proof {
                lemma_rows_count_bound(*original, *restored, y as nat, false);
                lemma_rows_count_bound(*original, *restored, y as nat, true);
                assert((y as int) * w + w <= h * w) by (nonlinear_arith)
                    requires
                        y < h,
                        0 <= w,
                ;
            }
            let mut x: u32 = 0;
            while x < width
                invariant
                    original.wf(),
                    restored.wf(),
                    width == larger(original.width, restored.width),
                    height == larger(original.height, restored.height),
                    w == width,
                    h == height,
                    h * w <= 0xffff_ffffu64 * 0xffff_ffffu64,
                    (y as int) * w + w <= h * w,
                    original_offset.0 == (width - original.width) / 2,
                    original_offset.1 == (height - original.height) / 2,
                    restored_offset.0 == (width - restored.width) / 2,
                    restored_offset.1 == (height - restored.height) / 2,
                    y < height,
                    x <= width,
                    original_row@.len() == x,
                    restored_row@.len() == x,
                    difference_row@.len() == x,
                    forall|i: int|
                        0 <= i < x ==> #[trigger] original_row@[i] == match centered(
                            *original,
                            w,
                            h,
                            i,
                            y as int,
                        ) {
                            Some(pixel) => pixel,
                            None => [0u8, 0u8, 0u8, 0u8],
                        },
                    forall|i: int|
                        0 <= i < x ==> #[trigger] restored_row@[i] == match centered(
                            *restored,
                            w,
                            h,
                            i,
                            y as int,
                        ) {
                            Some(pixel) => pixel,
                            None => [0u8, 0u8, 0u8, 0u8],
                        },
                    forall|i: int|
                        0 <= i < x ==> #[trigger] difference_row@[i] == difference_pixel(
                            centered(*original, w, h, i, y as int),
                            centered(*restored, w, h, i, y as int),
                        ),
                    count_in_rows(*original, *restored, y as nat, false) <= (y as int) * w,
                    count_in_rows(*original, *restored, y as nat, true) <= (y as int) * w,
                    compared == count_in_rows(*original, *restored, y as nat, false)
                        + count_in_row(*original, *restored, y as int, x as nat, false),
                    different == count_in_rows(*original, *restored, y as nat, true)
                        + count_in_row(*original, *restored, y as int, x as nat, true),
                decreases width - x,
            {
                proof {
                    lemma_row_count_bound(*original, *restored, y as int, x as nat, false);
                    lemma_row_count_bound(*original, *restored, y as int, x as nat, true);
                }
                let original_pixel = centered_pixel(original, original_offset, x, y);
                let restored_pixel = centered_pixel(restored, restored_offset, x, y);
                let transparent: Rgba = [0, 0, 0, 0];
                match original_pixel {
                    Some(pixel) => original_row.push(pixel),
                    None => original_row.push(transparent),
                }
                match restored_pixel {
                    Some(pixel) => restored_row.push(pixel),
                    None => restored_row.push(transparent),
                }
                let marker: Rgba = match (original_pixel, restored_pixel) {
                    (Some(a), Some(b)) => {
                        compared = compared + 1;
                        let difference = pixel_difference(a, b);
                        if difference != 0 {
                            different = different + 1;
                        }
                        [difference, difference, difference, 255]
                    },
                    (Some(_), None) | (None, Some(_)) => {
                        compared = compared + 1;
                        different = different + 1;
                        [255, 0, 255, 255]
                    },
                    (None, None) => [0, 0, 0, 255],
                };
                difference_row.push(marker);
                x = x + 1;
            }
            original_rows.push(original_row);
            restored_rows.push(restored_row);
            difference_rows.push(difference_row);
            y = y + 1;
        }
        let stats = DifferenceStats {
            different_pixels: different,
            compared_pixels: compared,
            size_mismatch: original.width != restored.width || original.height != restored.height,
        };
        Comparison {
            original: Image { width, height, rows: original_rows },
            restored: Image { width, height, rows: restored_rows },
            stats,
            base_difference: Image { width, height, rows: difference_rows },
        }
    }

    /// The difference image with every grey level multiplied by `gain` and capped
    /// at 255; black and the magenta coverage marker are kept as they are.
    pub fn difference(&self, gain: u32) -> (image: Image)
        requires
            self.wf(),
        ensures
            image.wf(),
            image.width == self.original.width,
            image.height == self.original.height,
            forall|x: int, y: int|
                0 <= x < image.width && 0 <= y < image.height ==> #[trigger] image.pixel(x, y)
                    == amplified(self.base_difference.pixel(x, y), gain),
    {
        let width = self.original.width;
        let height = self.original.height;
        let mut rows: Vec<Vec<Rgba>> = Vec::new();
        let mut y: u32 = 0;
        while y < height
            invariant
                self.wf(),
                width == self.original.width,
                height == self.original.height,
                y <= height,
                rows@.len() == y,
                forall|k: int| 0 <= k < y ==> (#[trigger] rows@[k])@.len() == width,
                forall|x: int, k: int|
                    0 <= x < width && 0 <= k < y ==> #[trigger] rows@[k]@[x] == amplified(
                        self.base_difference.pixel(x, k),
                        gain,
                    ),
            decreases height - y,
        {
            let mut row: Vec<Rgba> = Vec::new();
            let mut x: u32 = 0;
            while x < width
                invariant
                    self.wf(),
                    width == self.original.width,
                    height == self.original.height,
                    y < height,
                    x <= width,
                    row@.len() == x,
                    forall|i: int|
                        0 <= i < x ==> #[trigger] row@[i] == amplified(
                            self.base_difference.pixel(i, y as int),
                            gain,
                        ),
                decreases width - x,
            {
                let pixel = self.base_difference.get_pixel(x, y);
                if pixel[0] == 0 || pixel[0] != pixel[1] {
                    row.push(pixel);
                } else {
                    proof {
                        let level = pixel[0] as int;
                        let factor = gain as int;
                        assert(level * factor <= 255 * 0xffff_ffff) by (nonlinear_arith)
                            requires
                                0 <= level <= 255,
                                0 <= factor <= 0xffff_ffff,
                        ;
                    }
                    let scaled: u64 = (pixel[0] as u64) * (gain as u64);
                    let level: u8 = if scaled >= 255 {
                        255
                    } else {
                        scaled as u8
                    };
                    row.push([level, level, level, 255]);
                }
                x = x + 1;
            }
            rows.push(row);
            y = y + 1;
        }
        Image { width, height, rows }
    }

    /// The original to the left of canvas column `divider`, the result from it on.
    pub fn wipe(&self, divider: u32) -> (image: Image)
        requires
            self.wf(),
        ensures
            is_wipe(image, *self, divider as int),
    {
        let width = self.original.width;
        let height = self.original.height;
        let mut rows: Vec<Vec<Rgba>> = Vec::new();
        let mut y: u32 = 0;
        while y < height
            invariant
                self.wf(),
                width == self.original.width,
                height == self.original.height,
                y <= height,
                rows@.len() == y,
                forall|k: int| 0 <= k < y ==> (#[trigger] rows@[k])@.len() == width,
                forall|x: int, k: int|
                    0 <= x < width && 0 <= k < y ==> #[trigger] rows@[k]@[x] == (if x < divider {
                        self.original.pixel(x, k)
                    } else {
                        self.restored.pixel(x, k)
                    }),
            decreases height - y,
        {
            let mut row: Vec<Rgba> = Vec::new();
            let mut x: u32 = 0;
            while x < width
                invariant
                    self.wf(),
                    width == self.original.width,
                    height == self.original.height,
                    y < height,
                    x <= width,
                    row@.len() == x,
                    forall|i: int|
                        0 <= i < x ==> #[trigger] row@[i] == (if i < divider {
                            self.original.pixel(i, y as int)
                        } else {
                            self.restored.pixel(i, y as int)
                        }),
                decreases width - x,
            {
                if x < divider {
                    row.push(self.original.get_pixel(x, y));
                } else {
                    row.push(self.restored.get_pixel(x, y));
                }
                x = x + 1;
            }
            rows.push(row);
            y = y + 1;
        }
        Image { width, height, rows }
    }
}

} // verus!

verus! {

proof fn lemma_identical_row(image: Image, y: int, columns: nat)
    requires
        image.wf(),
        0 <= y < image.height,
        columns <= image.width,
    ensures
        count_in_row(image, image, y, columns, true) == 0,
        count_in_row(image, image, y, columns, false) == columns,
    decreases columns,
{
    if columns > 0 {
        lemma_identical_row(image, y, (columns - 1) as nat);
        let x = columns - 1;
        let width = larger(image.width, image.width) as int;
        let height = larger(image.height, image.height) as int;
        assert(centered(image, width, height, x, y) == Some(image.pixel(x, y)));
    }
}

proof fn lemma_identical_rows(image: Image, rows: nat)
    requires
        image.wf(),
        rows <= image.height,
    ensures
        count_in_rows(image, image, rows, true) == 0,
        count_in_rows(image, image, rows, false) == rows * image.width,
    decreases rows,
{
    if rows > 0 {
        lemma_identical_rows(image, (rows - 1) as nat);
        lemma_identical_row(image, rows - 1, image.width as nat);
        assert(rows * image.width == (rows - 1) * image.width + image.width) by (nonlinear_arith);
    }
}

/// Comparing an image with itself finds no differing pixel, transparent ones
/// included, and compares every pixel.
pub proof fn lemma_identical_images_do_not_differ(image: Image)
    requires
        image.wf(),
    ensures
        count_in_rows(image, image, image.height as nat, true) == 0,
        count_in_rows(image, image, image.height as nat, false) == image.width * image.height,
{
    lemma_identical_rows(image, image.height as nat);
    assert(image.height * image.width == image.width * image.height) by (nonlinear_arith);
}

/// The divider's extremes: at column zero the wipe shows only the result, and
/// at the canvas width only the original.
pub proof fn lemma_wipe_extremes(comparison: Comparison, at_start: Image, at_end: Image)
    requires
        comparison.wf(),
        is_wipe(at_start, comparison, 0),
        is_wipe(at_end, comparison, comparison.original.width as int),
    ensures
        at_start.same_pixels(&comparison.restored),
        at_end.same_pixels(&comparison.original),
{
}

proof fn lemma_row_differences_are_compared(original: Image, restored: Image, y: int, columns: nat)
    ensures
        count_in_row(original, restored, y, columns, true) <= count_in_row(
            original,
            restored,
            y,
            columns,
            false,
        ),
    decreases columns,
{
    if columns > 0 {
        lemma_row_differences_are_compared(original, restored, y, (columns - 1) as nat);
    }
}

/// Every differing pixel is a compared pixel: over any number of canvas rows,
/// the differing count never exceeds the compared count.
pub proof fn lemma_differences_are_compared(original: Image, restored: Image, rows: nat)
    ensures
        count_in_rows(original, restored, rows, true) <= count_in_rows(
            original,
            restored,
            rows,
            false,
        ),
    decreases rows,
{
    if rows > 0 {
        lemma_differences_are_compared(original, restored, (rows - 1) as nat);
        lemma_row_differences_are_compared(
            original,
            restored,
            rows - 1,
            larger(original.width, restored.width) as nat,
        );
    }
}

/// The difference of two pixels is their largest channel difference, alpha
/// included: at least the difference in each of the four channels and equal
/// to one of them; so it is zero exactly when every channel agrees.
pub proof fn lemma_difference_is_the_largest_channel_difference(a: Rgba, b: Rgba)
    ensures
        forall|c: int|
            0 <= c < 4 ==> max_difference(a, b) as int >= a[c] as int - b[c] as int
                && max_difference(a, b) as int >= b[c] as int - a[c] as int,
        exists|c: int|
            0 <= c < 4 && (max_difference(a, b) as int == a[c] as int - b[c] as int
                || max_difference(a, b) as int == b[c] as int - a[c] as int),
        max_difference(a, b) == 0 <==> (forall|c: int| 0 <= c < 4 ==> a[c] == b[c]),
{
    assert(0 <= 0int < 4);
    if max_difference(a, b) == 0 {
        assert forall|c: int| 0 <= c < 4 implies a[c] == b[c] by {
            assert(c == 0 || c == 1 || c == 2 || c == 3);
        }
    }
    let m = max_difference(a, b) as int;
    let d = |c: int| if a[c] >= b[c] { a[c] - b[c] } else { b[c] - a[c] };
    assert(m == d(0) || m == d(1) || m == d(2) || m == d(3));
}

/// A pixel that both images cover counts as differing exactly when some
/// channel, alpha included, disagrees; it always counts as compared.
pub proof fn lemma_covered_pixels_differ_when_a_channel_does(a: Rgba, b: Rgba)
    ensures
        counted(Some(a), Some(b), true) <==> exists|c: int| 0 <= c < 4 && a[c] != b[c],
        counted(Some(a), Some(b), false),
{
    lemma_difference_is_the_largest_channel_difference(a, b);
}

} // verus!
