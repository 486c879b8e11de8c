use descramble::application::recovered_adjacencies;
use descramble::cli::SolverArgs;
use descramble::memetic::SolverConfig;
use descramble::storage::is_png_extension;
use descramble::gui::viewer::{ImageKind, Mode};

#[test]
fn adjacency_counts_neighbours_in_either_direction() {
    // scrambled[i] is the original position of scrambled item i.
    let scrambled = [2, 0, 3, 1];
    assert_eq!(recovered_adjacencies(&scrambled, &[1, 3, 0, 2]), 3);
    assert_eq!(recovered_adjacencies(&scrambled, &[2, 0, 3, 1]), 3);
    assert_eq!(recovered_adjacencies(&scrambled, &[0, 1, 2, 3]), 0);
    assert_eq!(recovered_adjacencies(&scrambled, &[2, 3, 1, 0]), 1);
    assert_eq!(recovered_adjacencies(&scrambled, &[0]), 0);
}

#[test]
fn solver_arguments_become_the_same_settings() {
    let args = SolverArgs {
        window: Some(3),
        population: 9,
        generations: 11,
        local_passes: 0,
        seed: 5,
    };
    let config = SolverConfig::from(args);
    assert_eq!(
        config,
        SolverConfig {
            window: Some(3),
            population: 9,
            generations: 11,
            local_passes: 0,
            seed: 5,
        }
    );
}

#[test]
fn png_outputs_ignore_ascii_case() {
    assert!(is_png_extension("png"));
    assert!(is_png_extension("PNG"));
    assert!(is_png_extension("pNg"));
    assert!(!is_png_extension("jpg"));
    assert!(!is_png_extension("pngx"));
    assert!(!is_png_extension(""));
}

#[test]
fn modes_have_labels_and_snapshot_names() {
    let expected = [
        (Mode::Original, "Original", "original.png"),
        (Mode::Restored, "Result", "result.png"),
        (Mode::Shuffled, "Shuffled", "shuffled.png"),
        (Mode::Blend, "Onion skin", "onion-skin.png"),
        (Mode::Wipe, "Before / after", "before-after.png"),
        (Mode::Difference, "Difference", "difference.png"),
    ];
    for (mode, label, file_name) in expected {
        assert_eq!(mode.label(), label);
        assert_eq!(mode.file_name(), file_name);
    }
    assert_eq!(Mode::for_image(ImageKind::Shuffled), Mode::Shuffled);
    assert_eq!(Mode::for_image(ImageKind::Restored), Mode::Restored);
    assert_eq!(Mode::for_image(ImageKind::Original), Mode::Original);
}
