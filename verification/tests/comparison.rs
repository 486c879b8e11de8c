use descramble::gui::comparison::{transform, Comparison, DifferenceStats, Transform};
use descramble::raster::{Image, Rgba};

fn image_from_fn(width: u32, height: u32, pixel: impl Fn(u32, u32) -> Rgba) -> Image {
    let rows = (0..height)
        .map(|y| (0..width).map(|x| pixel(x, y)).collect())
        .collect();
    Image::from_rows(width, height, rows).unwrap()
}

fn labeled_image(width: u32, labels: &[u8]) -> Image {
    image_from_fn(width, labels.len() as u32 / width, |x, y| {
        [labels[(y * width + x) as usize], 0, 0, 255]
    })
}

fn from_pixel(width: u32, height: u32, pixel: Rgba) -> Image {
    image_from_fn(width, height, |_, _| pixel)
}

fn from_raw(width: u32, height: u32, raw: &[u8]) -> Image {
    image_from_fn(width, height, |x, y| {
        let start = ((y * width + x) * 4) as usize;
        [raw[start], raw[start + 1], raw[start + 2], raw[start + 3]]
    })
}

fn into_raw(image: &Image) -> Vec<u8> {
    image.rows.iter().flatten().flat_map(|pixel| pixel.iter().copied()).collect()
}

#[test]
fn transforms_preserve_pixels_and_have_expected_orientation() {
    let image = labeled_image(2, &[1, 2, 3, 4, 5, 6]);
    let operations = [
        (Transform::RotateLeft, labeled_image(3, &[2, 4, 6, 1, 3, 5])),
        (
            Transform::RotateRight,
            labeled_image(3, &[5, 3, 1, 6, 4, 2]),
        ),
        (
            Transform::FlipHorizontal,
            labeled_image(2, &[2, 1, 4, 3, 6, 5]),
        ),
        (
            Transform::FlipVertical,
            labeled_image(2, &[5, 6, 3, 4, 1, 2]),
        ),
    ];

    for (operation, expected) in operations {
        assert_eq!(transform(&image, operation), expected);
    }
}

#[test]
fn rotations_and_flips_are_reversible() {
    let image = labeled_image(2, &[1, 2, 3, 4, 5, 6]);
    let mut rotated = image.clone();

    for _ in 0..4 {
        rotated = transform(&rotated, Transform::RotateRight);
    }

    assert_eq!(rotated, image);
    assert_eq!(
        transform(
            &transform(&image, Transform::RotateLeft),
            Transform::RotateRight
        ),
        image
    );

    for operation in [Transform::FlipHorizontal, Transform::FlipVertical] {
        assert_eq!(transform(&transform(&image, operation), operation), image);
    }
}

#[test]
fn wipe_selects_the_expected_pixels_and_clamps_endpoints() {
    // The divider columns are those that fractions 0.5, 0.0, -1.0, 1.0, 2.0 and
    // 0.7 select: floor(width * clamp(fraction, 0, 1)).
    let original = labeled_image(3, &[1, 2, 3]);
    let restored = labeled_image(3, &[4, 5, 6]);
    let comparison = Comparison::new(&original, &restored);

    assert_eq!(comparison.wipe(1), labeled_image(3, &[1, 5, 6]));
    assert_eq!(comparison.wipe(0), restored);
    assert_eq!(comparison.wipe(0), restored);
    assert_eq!(comparison.wipe(3), original);
    assert_eq!(comparison.wipe(3), original);

    let original = labeled_image(10, &[1; 10]);
    let restored = labeled_image(10, &[2; 10]);
    let comparison = Comparison::new(&original, &restored);
    assert_eq!(
        comparison.wipe(7),
        labeled_image(10, &[1, 1, 1, 1, 1, 1, 1, 2, 2, 2])
    );
}

#[test]
fn difference_includes_alpha_and_hidden_color_errors() {
    let original = from_raw(2, 1, &[10, 20, 30, 255, 40, 50, 60, 0]);
    let restored = from_raw(2, 1, &[10, 20, 30, 245, 45, 50, 60, 0]);
    let comparison = Comparison::new(&original, &restored);

    assert_eq!(comparison.stats.different_pixels, 2);
    assert_eq!(comparison.stats.compared_pixels, 2);
    assert_eq!(
        into_raw(&comparison.difference(1)),
        vec![10, 10, 10, 255, 5, 5, 5, 255]
    );
    assert_eq!(
        into_raw(&comparison.difference(30)),
        vec![255, 255, 255, 255, 150, 150, 150, 255]
    );
}

#[test]
fn identical_images_have_no_difference_even_when_transparent() {
    let image = from_raw(2, 1, &[1, 2, 3, 255, 4, 5, 6, 0]);
    let comparison = Comparison::new(&image, &image);

    assert_eq!(
        comparison.stats,
        DifferenceStats {
            different_pixels: 0,
            compared_pixels: 2,
            size_mismatch: false,
        }
    );
    assert_eq!(comparison.difference(10), from_pixel(2, 1, [0, 0, 0, 255]));
    assert_eq!(
        comparison.difference(u32::MAX),
        from_pixel(2, 1, [0, 0, 0, 255])
    );
}

#[test]
fn unequal_sizes_are_centered_without_resampling_and_track_coverage() {
    let original = from_pixel(3, 1, [0, 0, 0, 0]);
    let restored = from_pixel(1, 3, [0, 0, 0, 0]);
    let comparison = Comparison::new(&original, &restored);
    let difference = comparison.difference(0);

    assert_eq!((comparison.original.width, comparison.original.height), (3, 3));
    assert_eq!((comparison.restored.width, comparison.restored.height), (3, 3));
    assert_eq!(
        comparison.stats,
        DifferenceStats {
            different_pixels: 4,
            compared_pixels: 5,
            size_mismatch: true,
        }
    );

    for (x, y) in [(0, 1), (1, 0), (2, 1), (1, 2)] {
        assert_eq!(difference.get_pixel(x, y), [255, 0, 255, 255]);
    }

    for (x, y) in [(0, 0), (2, 0), (1, 1), (0, 2), (2, 2)] {
        assert_eq!(difference.get_pixel(x, y), [0, 0, 0, 255]);
    }

    let original = labeled_image(4, &[1, 2, 3, 4]);
    let restored = labeled_image(1, &[8]);
    let comparison = Comparison::new(&original, &restored);

    assert_eq!(comparison.original, original);
    assert_eq!(comparison.restored.get_pixel(1, 0), [8, 0, 0, 255]);
    assert_eq!(comparison.restored.get_pixel(0, 0), [0, 0, 0, 0]);
    assert_eq!(comparison.restored.get_pixel(2, 0), [0, 0, 0, 0]);
    assert_eq!(comparison.restored.get_pixel(3, 0), [0, 0, 0, 0]);
}

#[test]
fn difference_marks_single_coverage_magenta_and_gain_caps_at_white() {
    let original = labeled_image(2, &[100, 7]);
    let restored = labeled_image(1, &[90]);
    let comparison = Comparison::new(&original, &restored);

    // The one-pixel result sits at column 0 (offset rounds down).
    assert_eq!(comparison.base_difference.get_pixel(0, 0), [10, 10, 10, 255]);
    assert_eq!(comparison.base_difference.get_pixel(1, 0), [255, 0, 255, 255]);
    assert_eq!(comparison.difference(3).get_pixel(0, 0), [30, 30, 30, 255]);
    assert_eq!(comparison.difference(100).get_pixel(0, 0), [255, 255, 255, 255]);
    assert_eq!(comparison.difference(100).get_pixel(1, 0), [255, 0, 255, 255]);
    assert_eq!(comparison.stats.compared_pixels, 2);
    assert_eq!(comparison.stats.different_pixels, 2);
}

#[test]
fn each_transform_matches_the_image_crate() {
    let image = labeled_image(3, &[1, 2, 3, 4, 5, 6]);
    let buffer = image::RgbaImage::from_fn(3, 2, |x, y| image::Rgba(image.get_pixel(x, y)));
    let cases = [
        (Transform::RotateLeft, image::imageops::rotate270(&buffer)),
        (Transform::RotateRight, image::imageops::rotate90(&buffer)),
        (Transform::FlipHorizontal, image::imageops::flip_horizontal(&buffer)),
        (Transform::FlipVertical, image::imageops::flip_vertical(&buffer)),
    ];

    for (operation, expected) in cases {
        let out = transform(&image, operation);
        assert_ne!(out, image);
        assert_eq!((out.width, out.height), expected.dimensions());
        for y in 0..out.height {
            for x in 0..out.width {
                assert_eq!(out.get_pixel(x, y), expected.get_pixel(x, y).0);
            }
        }
    }
}

#[test]
fn empty_images_turn_and_mirror_into_empty_images() {
    let no_rows = Image::from_rows(3, 0, vec![]).unwrap();
    let turned = transform(&no_rows, Transform::RotateRight);
    assert_eq!((turned.width, turned.height), (0, 3));
    assert_eq!(turned.rows, vec![Vec::<Rgba>::new(); 3]);
    let turned = transform(&no_rows, Transform::RotateLeft);
    assert_eq!((turned.width, turned.height), (0, 3));
    assert_eq!(turned.rows.len(), 3);

    let no_columns = Image::from_rows(0, 2, vec![vec![], vec![]]).unwrap();
    for operation in [Transform::FlipHorizontal, Transform::FlipVertical] {
        let mirrored = transform(&no_columns, operation);
        assert_eq!((mirrored.width, mirrored.height), (0, 2));
        assert_eq!(mirrored.rows, vec![Vec::<Rgba>::new(); 2]);
    }
}
