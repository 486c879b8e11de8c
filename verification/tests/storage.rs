use descramble::raster::Image;
use descramble::storage::{
    check_max_dimension, same_file, thumbnail, Destinations, ExistingFiles, FileIdentity,
    OutputProblem,
};
use descramble::Error;

fn file(path: &str, node: Option<(u64, u64)>) -> FileIdentity {
    FileIdentity {
        path: path.as_bytes().to_vec(),
        node,
    }
}

#[test]
fn a_destination_can_be_claimed_only_once() {
    let mut destinations = Destinations::new();
    assert!(destinations.claim(b"/tmp/out/output.png".to_vec()));
    assert!(destinations.claim(b"/tmp/out/output.json".to_vec()));
    assert!(!destinations.claim(b"/tmp/out/output.png".to_vec()));
    assert_eq!(destinations.claimed.len(), 2);
}

#[test]
fn the_same_file_is_found_by_path_or_by_device_and_inode() {
    let input = file("/data/input.png", Some((1, 10)));
    assert!(same_file(&input, &file("/data/input.png", None)));
    assert!(same_file(&input, &file("/data/hard.png", Some((1, 10)))));
    assert!(!same_file(&input, &file("/data/other.png", Some((1, 11)))));
    assert!(!same_file(&input, &file("/data/other.png", Some((2, 10)))));
    assert!(!same_file(&file("/a", None), &file("/b", None)));
}

#[test]
fn outputs_must_not_alias_the_input_or_each_other() {
    let mut existing = ExistingFiles::new(file("/data/input.png", Some((1, 10))));
    assert!(existing.aliases(&file("/data/link.png", Some((1, 10)))));
    let output = file("/data/output.png", Some((1, 20)));
    assert!(!existing.aliases(&output));
    existing.add(output);
    assert!(existing.aliases(&file("/data/output.png", Some((1, 20)))));
    assert!(!existing.aliases(&file("/data/new.png", Some((1, 30)))));
}

#[test]
fn refusals_name_the_destination() {
    assert_eq!(
        OutputProblem::MissingDirectory.message("missing"),
        "Output directory does not exist: missing"
    );
    assert_eq!(
        OutputProblem::NoFileName.message(".."),
        "Output must name a file: .."
    );
    assert_eq!(
        OutputProblem::Duplicate.message("output.png"),
        "Duplicate output destination: output.png"
    );
    assert_eq!(
        OutputProblem::NotRegularFile.message("dir.png"),
        "Output is not a regular file: dir.png"
    );
    assert_eq!(
        OutputProblem::Aliased.message("input.png"),
        "Output aliases the input or another output: input.png"
    );
}

#[test]
fn originals_shrink_to_fit_the_bound_keeping_their_aspect() {
    let rows = vec![vec![[10, 20, 30, 255]; 4]; 2];
    let image = Image::from_rows(4, 2, rows).unwrap();
    let small = thumbnail(&image, 2);
    assert_eq!((small.width, small.height), (2, 1));
    assert_eq!(small.rows, vec![vec![[10, 20, 30, 255]; 2]]);

    let tall = Image::from_rows(1, 3, vec![vec![[0, 0, 0, 255]]; 3]).unwrap();
    let shrunk = thumbnail(&tall, 1);
    assert_eq!((shrunk.width, shrunk.height), (1, 1));
}

#[test]
fn a_zero_bound_is_refused() {
    assert_eq!(
        check_max_dimension(0),
        Err(Error::InvalidInput(
            "maximum image dimension must be positive".into()
        ))
    );
    assert_eq!(check_max_dimension(1), Ok(()));
}
