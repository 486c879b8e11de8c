//! The rules on the files the commands read and write: which output names
//! keep pixels losslessly, which destinations are usable, and how large an
//! original may be before it is shrunk.

use vstd::prelude::*;

use image::{DynamicImage, RgbaImage};

use crate::error::{invalid_input, Error};
use crate::raster::{Image, Rgba};

verus! {

/// `c` with ASCII capitals made small.
pub open spec fn ascii_lower(c: char) -> char {
    if 'A' <= c <= 'Z' {
        ((c as u32) + 32) as char
    } else {
        c
    }
}

/// The extension is `png` in any ASCII capitalisation.
pub open spec fn names_png(extension: Seq<char>) -> bool {
    &&& extension.len() == 3
    &&& ascii_lower(extension[0]) == 'p'
    &&& ascii_lower(extension[1]) == 'n'
    &&& ascii_lower(extension[2]) == 'g'
}

fn lower(c: char) -> (lowered: char)
    ensures
        lowered == ascii_lower(c),
{
    if 'A' <= c && c <= 'Z' {
        ((c as u8) + 32) as char
    } else {
        c
    }
}

/// Whether an output file extension keeps pixels losslessly: `png`, ignoring
/// ASCII case.
pub fn is_png_extension(extension: &str) -> (png: bool)
    ensures
        png == names_png(extension@),
{
    if extension.unicode_len() != 3 {
        return false;
    }
    lower(extension.get_char(0)) == 'p' && lower(extension.get_char(1)) == 'n' && lower(
        extension.get_char(2),
    ) == 'g'
}

} // verus!

verus! {

/// Where a file lives: its resolved path's bytes, and on systems that have
/// them its device and inode numbers.
#[derive(Debug, Clone, PartialEq, Eq)]
pub struct FileIdentity {
    pub path: Vec<u8>,
    pub node: Option<(u64, u64)>,
}

/// Two identities name the same file: the same resolved path, or the same
/// device and inode.
pub open spec fn is_same_file(left: FileIdentity, right: FileIdentity) -> bool {
    ||| left.path@ == right.path@
    ||| (left.node is Some && left.node == right.node)
}

fn same_bytes(left: &Vec<u8>, right: &Vec<u8>) -> (same: bool)
    ensures
        same == (left@ == right@),
{
    if left.len() != right.len() {
        return false;
    }
    let mut i: usize = 0;
    while i < left.len()
        invariant
            left@.len() == right@.len(),
            i <= left@.len(),
            forall|k: int| 0 <= k < i ==> left@[k] == right@[k],
        decreases left@.len() - i,
    {
        if left[i] != right[i] {
            return false;
        }
        i = i + 1;
    }
    proof {
        assert(left@ =~= right@);
    }
    true
}

/// Whether two identities name the same file.
pub fn same_file(left: &FileIdentity, right: &FileIdentity) -> (same: bool)
    ensures
        same == is_same_file(*left, *right),
{
    if same_bytes(&left.path, &right.path) {
        return true;
    }
    match (left.node, right.node) {
        (Some(a), Some(b)) => a.0 == b.0 && a.1 == b.1,
        _ => false,
    }
}

/// Why an output destination is refused.
#[derive(Debug, Clone, Copy, PartialEq, Eq)]
pub enum OutputProblem {
    MissingDirectory,
    NoFileName,
    Duplicate,
    NotRegularFile,
    Aliased,
}

/// The message for `problem`, naming the destination as `shown` (the parent
/// directory for a missing directory, the output otherwise).
pub open spec fn problem_text(problem: OutputProblem, shown: Seq<char>) -> Seq<char> {
    match problem {
        OutputProblem::MissingDirectory => "Output directory does not exist: "@ + shown,
        OutputProblem::NoFileName => "Output must name a file: "@ + shown,
        OutputProblem::Duplicate => "Duplicate output destination: "@ + shown,
        OutputProblem::NotRegularFile => "Output is not a regular file: "@ + shown,
        OutputProblem::Aliased => "Output aliases the input or another output: "@ + shown,
    }
}

impl OutputProblem {
    /// The message for this problem, naming the destination as `shown`.
    pub fn message(self, shown: &str) -> (text: String)
        ensures
            text@ == problem_text(self, shown@),
    {
        let prefix = match self {
            OutputProblem::MissingDirectory => "Output directory does not exist: ",
            OutputProblem::NoFileName => "Output must name a file: ",
            OutputProblem::Duplicate => "Duplicate output destination: ",
            OutputProblem::NotRegularFile => "Output is not a regular file: ",
            OutputProblem::Aliased => "Output aliases the input or another output: ",
        };
        String::from_str(prefix).concat(shown)
    }
}

/// The destinations claimed so far, as resolved paths' bytes.
pub struct Destinations {
    pub claimed: Vec<Vec<u8>>,
}

/// The paths of `claimed`, as byte sequences.
pub open spec fn claimed_paths(claimed: Seq<Vec<u8>>) -> Seq<Seq<u8>> {
    Seq::new(claimed.len(), |i: int| claimed[i]@)
}

impl Destinations {
    /// No destination claimed yet.
    pub fn new() -> (destinations: Destinations)
        ensures
            claimed_paths(destinations.claimed@) == Seq::<Seq<u8>>::empty(),
    {
        Destinations { claimed: Vec::new() }
    }

    /// Claims `destination`; refuses it, changing nothing, when it was claimed
    /// before.
    pub fn claim(&mut self, destination: Vec<u8>) -> (fresh: bool)
        ensures
            fresh == !claimed_paths(old(self).claimed@).contains(destination@),
            claimed_paths(final(self).claimed@) == if fresh {
                claimed_paths(old(self).claimed@).push(destination@)
            } else {
                claimed_paths(old(self).claimed@)
            },
    {
        let mut i: usize = 0;
        while i < self.claimed.len()
            invariant
                i <= self.claimed@.len(),
                forall|k: int| 0 <= k < i ==> self.claimed@[k]@ != destination@,
            decreases self.claimed@.len() - i,
        {
            if same_bytes(&self.claimed[i], &destination) {
                proof {
                    assert(claimed_paths(self.claimed@)[i as int] == destination@);
                }
                return false;
            }
            i = i + 1;
        }
        proof {
            assert forall|k: int| 0 <= k < claimed_paths(self.claimed@).len() implies #[trigger] claimed_paths(self.claimed@)[k] != destination@ by {}
        }
        let ghost before = self.claimed@;
        self.claimed.push(destination);
        proof {
            assert(claimed_paths(self.claimed@) =~= claimed_paths(before).push(destination@));
        }
        true
    }
}

/// The files that an output must not be: the input and the outputs already
/// found on disk.
pub struct ExistingFiles {
    pub files: Vec<FileIdentity>,
}

impl ExistingFiles {
    /// Starts from the input alone.
    pub fn new(input: FileIdentity) -> (existing: ExistingFiles)
        ensures
            existing.files@ == seq![input],
    {
        let mut files = Vec::new();
        files.push(input);
        ExistingFiles { files }
    }

    /// Whether `file` is one of the known files.
    pub fn aliases(&self, file: &FileIdentity) -> (found: bool)
        ensures
            found == exists|k: int| 0 <= k < self.files@.len() && is_same_file(*file, #[trigger] self.files@[k]),
    {
        let mut i: usize = 0;
        while i < self.files.len()
            invariant
                i <= self.files@.len(),
                forall|k: int| 0 <= k < i ==> !is_same_file(*file, #[trigger] self.files@[k]),
            decreases self.files@.len() - i,
        {
            if same_file(file, &self.files[i]) {
                return true;
            }
            i = i + 1;
        }
        false
    }

    /// Adds a file found on disk.
    pub fn add(&mut self, file: FileIdentity)
        ensures
            final(self).files@ == old(self).files@.push(file),
    {
        self.files.push(file);
    }
}

/// Once a destination has been claimed, claiming it again is refused.
pub proof fn lemma_claimed_destination_stays_claimed(claimed: Seq<Seq<u8>>, destination: Seq<u8>)
    ensures
        (if claimed.contains(destination) {
            claimed
        } else {
            claimed.push(destination)
        }).contains(destination),
{
    if !claimed.contains(destination) {
        assert(claimed.push(destination)[claimed.len() as int] == destination);
    }
}

} // verus!

verus! {

/// The pixels of `image`, row by row.
pub open spec fn image_pixels(image: Image) -> Seq<Seq<Rgba>> {
    Seq::new(image.rows@.len(), |y: int| image.rows@[y]@)
}

/// What `DynamicImage::thumbnail` makes of a `width` by `height` RGBA image
/// with rows `pixels`, bounded by `max` on both sides: its width, height and
/// rows.
pub uninterp spec fn thumbnail_of(width: u32, height: u32, pixels: Seq<Seq<Rgba>>, max: u32) -> (
    u32,
    u32,
    Seq<Seq<Rgba>>,
);

/// Refuses a zero bound on the size of an original.
pub fn check_max_dimension(max_dimension: u32) -> (result: Result<(), Error>)
    ensures
        result is Ok <==> max_dimension > 0,
        result matches Err(e) ==> invalid_input(e, "maximum image dimension must be positive"@),
{
    if max_dimension == 0 {
        return Err(Error::InvalidInput(String::from_str("maximum image dimension must be positive")));
    }
    Ok(())
}

/// `DynamicImage::thumbnail` on the RGBA image: scales it, keeping its aspect
/// ratio, to the largest size that fits within `max` by `max` pixels, by
/// averaging the source pixels that fall on each target pixel. The contract
/// names the result and states the bounds that the documentation and
/// `resize_dimensions` give: at least one and at most `max` pixels per side.
/// The body converts the raster to the crate's buffer and back.
#[verifier::external_body]
fn scaled(image: &Image, max: u32) -> (thumbnail: Image)
    requires
        image.wf(),
        image.width > 0,
        image.height > 0,
        max > 0,
    ensures
        thumbnail.wf(),
        1 <= thumbnail.width <= max,
        1 <= thumbnail.height <= max,
        (thumbnail.width, thumbnail.height, image_pixels(thumbnail)) == thumbnail_of(
            image.width,
            image.height,
            image_pixels(*image),
            max,
        ),
{
    let buffer = RgbaImage::from_fn(image.width, image.height, |x, y| image::Rgba(image.rows[y as usize][x as usize]));
    let out = DynamicImage::ImageRgba8(buffer).thumbnail(max, max).to_rgba8();
    let rows = (0..out.height()).map(|y| (0..out.width()).map(|x| out.get_pixel(x, y).0).collect()).collect();
    Image { width: out.width(), height: out.height(), rows }
}

/// Shrinks an original before it is scrambled, so that neither side exceeds
/// `max_dimension`; an already scrambled image is never resized.
pub fn thumbnail(image: &Image, max_dimension: u32) -> (result: Image)
    requires
        image.wf(),
        image.width > 0,
        image.height > 0,
        max_dimension > 0,
    ensures
        result.wf(),
        1 <= result.width <= max_dimension,
        1 <= result.height <= max_dimension,
        (result.width, result.height, image_pixels(result)) == thumbnail_of(
            image.width,
            image.height,
            image_pixels(*image),
            max_dimension,
        ),
{
    scaled(image, max_dimension)
}

} // verus!
