use descramble::application::run_scramble;
use descramble::image_ordering::{
    apply_order, check_dimensions, scramble, strip_features, Axis, ImageOrdering,
};
use descramble::memetic::SolverConfig;
use descramble::permutation::identity_order;
use descramble::raster::{Image, Rgba};
use descramble::{validate_order, Error};

fn image_from_fn(width: u32, height: u32, pixel: impl Fn(u32, u32) -> Rgba) -> Image {
    let rows = (0..height)
        .map(|y| (0..width).map(|x| pixel(x, y)).collect())
        .collect();
    Image::from_rows(width, height, rows).unwrap()
}

fn gradient() -> Image {
    image_from_fn(9, 7, |column, row| {
        [(column * 25) as u8, (row * 30) as u8, 40, (column + row) as u8]
    })
}

fn inverse(order: &[usize]) -> Vec<usize> {
    let mut inverse = vec![0; order.len()];
    for (position, &item) in order.iter().enumerate() {
        inverse[item] = position;
    }
    inverse
}

fn config() -> SolverConfig {
    SolverConfig {
        population: 8,
        generations: 10,
        window: Some(1),
        ..SolverConfig::default()
    }
}

#[test]
fn rejects_invalid_config_images_and_permutations() {
    let image = image_from_fn(2, 2, |_, _| [0, 0, 0, 0]);
    let empty = Image::from_rows(0, 2, vec![vec![], vec![]]).unwrap();
    // Restoring an empty image fails on its first step, the strip vectors.
    assert!(strip_features(&empty, Axis::Rows).is_err());
    assert!(
        apply_order(
            &image,
            &ImageOrdering {
                rows: vec![0, 0],
                columns: vec![0, 1]
            }
        )
        .is_err()
    );

    // The search refuses these settings before it looks at the distances.
    for invalid in [
        SolverConfig {
            population: 3,
            ..config()
        },
        SolverConfig {
            generations: 0,
            ..config()
        },
        SolverConfig {
            window: Some(0),
            ..config()
        },
    ] {
        assert!(invalid.validate().is_err());
    }
}

#[test]
fn shared_workflows_propagate_invalid_input_without_startup_setup() {
    let empty = Image::from_rows(0, 0, vec![]).unwrap();
    assert!(run_scramble(&empty, 1).is_err());
    assert!(strip_features(&empty, Axis::Rows).is_err());
    assert!(strip_features(&empty, Axis::Columns).is_err());
}

#[test]
fn validate_order_reports_length_before_duplicates() {
    assert_eq!(validate_order(&[2, 0, 1], 3), Ok(()));
    assert_eq!(validate_order(&[], 0), Ok(()));
    assert_eq!(
        validate_order(&[0, 1], 3),
        Err(Error::InvalidInput("permutation has the wrong length".into()))
    );
    assert_eq!(
        validate_order(&[0, 0, 2], 3),
        Err(Error::InvalidInput("order must be a permutation".into()))
    );
    assert_eq!(
        validate_order(&[0, 1, 3], 3),
        Err(Error::InvalidInput("order must be a permutation".into()))
    );
    assert_eq!(identity_order(4), vec![0, 1, 2, 3]);
}

#[test]
fn apply_order_moves_whole_rows_and_columns() {
    let image = image_from_fn(3, 2, |x, y| [x as u8, y as u8, 0, 255]);
    let out = apply_order(
        &image,
        &ImageOrdering {
            rows: vec![1, 0],
            columns: vec![2, 0, 1],
        },
    )
    .unwrap();
    assert_eq!(out.get_pixel(0, 0), [2, 1, 0, 255]);
    assert_eq!(out.get_pixel(1, 0), [0, 1, 0, 255]);
    assert_eq!(out.get_pixel(2, 1), [1, 0, 0, 255]);
    assert_eq!(
        apply_order(
            &image,
            &ImageOrdering {
                rows: vec![0, 1],
                columns: vec![0, 1]
            }
        ),
        Err(Error::InvalidInput("permutation has the wrong length".into()))
    );
}

#[test]
fn empty_images_are_refused_with_their_message() {
    let empty = Image::from_rows(3, 0, vec![]).unwrap();
    let expected = Err(Error::InvalidInput(
        "image must have nonzero width and height".into(),
    ));
    assert_eq!(check_dimensions(&empty), expected);
    assert!(scramble(&empty, 7).is_err());
    assert!(Image::from_rows(2, 1, vec![vec![[0; 4]]]).is_none());
    assert!(Image::from_rows(1, 2, vec![vec![[0; 4]]]).is_none());
}

#[test]
fn scramble_map_reconstructs_the_original() {
    let original = gradient();
    let (scrambled, ordering) = scramble(&original, 42).unwrap();
    assert!(validate_order(&ordering.rows, 7).is_ok());
    assert!(validate_order(&ordering.columns, 9).is_ok());
    assert_ne!(ordering.rows, identity_order(7));
    assert_ne!(ordering.columns, identity_order(9));
    assert_ne!(scrambled, original);
    assert_eq!(apply_order(&original, &ordering).unwrap(), scrambled);

    let restored = apply_order(
        &scrambled,
        &ImageOrdering {
            rows: inverse(&ordering.rows),
            columns: inverse(&ordering.columns),
        },
    )
    .unwrap();
    assert_eq!(restored, original);

    let (again, same) = scramble(&original, 42).unwrap();
    assert_eq!(again, scrambled);
    assert_eq!(same, ordering);

    let run = run_scramble(&original, 42).unwrap();
    assert_eq!(run.report.seed, 42);
    assert_eq!(run.report.ordering, ordering);
    assert_eq!(run.image, scrambled);
}

#[test]
fn strip_features_hold_rgb_components_in_order() {
    let image = image_from_fn(2, 3, |x, y| [x as u8, y as u8, 9, 200]);
    let rows = strip_features(&image, Axis::Rows).unwrap();
    assert_eq!(rows.len(), 3);
    assert_eq!(rows[2], vec![0, 2, 9, 1, 2, 9]);
    let columns = strip_features(&image, Axis::Columns).unwrap();
    assert_eq!(columns.len(), 2);
    assert_eq!(columns[1], vec![1, 0, 9, 1, 1, 9, 1, 2, 9]);
}

#[test]
fn opposite_axis_permutation_preserves_euclidean_distances() {
    let image = image_from_fn(7, 5, |column, row| {
        [
            (column * row) as u8,
            (column + 3 * row) as u8,
            (2 * column + row) as u8,
            255,
        ]
    });
    let reordered = apply_order(
        &image,
        &ImageOrdering {
            rows: vec![3, 0, 4, 1, 2],
            columns: vec![4, 6, 1, 3, 0, 5, 2],
        },
    )
    .unwrap();
    // Euclidean distances are equal exactly when their squares are.
    let squared = |a: &[u8], b: &[u8]| -> u64 {
        a.iter()
            .zip(b)
            .map(|(&x, &y)| (x as i64 - y as i64).pow(2) as u64)
            .sum()
    };

    for (axis, order) in [
        (Axis::Rows, vec![3, 0, 4, 1, 2]),
        (Axis::Columns, vec![4, 6, 1, 3, 0, 5, 2]),
    ] {
        let before = strip_features(&image, axis).unwrap();
        let after = strip_features(&reordered, axis).unwrap();

        for row in 0..order.len() {
            for column in 0..order.len() {
                assert_eq!(
                    squared(&before[order[row]], &before[order[column]]),
                    squared(&after[row], &after[column])
                );
            }
        }
    }
}
