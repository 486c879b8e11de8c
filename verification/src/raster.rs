use vstd::prelude::*;

verus! {

/// One RGBA pixel: red, green, blue and alpha, in that order.
pub type Rgba = [u8; 4];

/// A raster of RGBA pixels stored row by row: `rows[y][x]` is the pixel at
/// column `x` of row `y`.
#[derive(Debug, Clone, PartialEq, Eq)]
pub struct Image {
    pub width: u32,
    pub height: u32,
    pub rows: Vec<Vec<Rgba>>,
}

impl Image {
    /// There are `height` rows of `width` pixels each.
    pub open spec fn wf(&self) -> bool {
        &&& self.rows@.len() == self.height
        &&& forall|y: int| 0 <= y < self.height ==> (#[trigger] self.rows@[y])@.len() == self.width
    }

    /// The pixel at column `x` of row `y`.
    pub open spec fn pixel(&self, x: int, y: int) -> Rgba {
        self.rows@[y]@[x]
    }

    /// Both images have the same size and the same pixels.
    pub open spec fn same_pixels(&self, other: &Image) -> bool {
        &&& self.width == other.width
        &&& self.height == other.height
        &&& forall|x: int, y: int|
            0 <= x < self.width && 0 <= y < self.height ==> #[trigger] self.pixel(x, y)
                == other.pixel(x, y)
    }

    /// Accepts `rows` exactly when it holds `height` rows of `width` pixels.
    pub fn from_rows(width: u32, height: u32, rows: Vec<Vec<Rgba>>) -> (image: Option<Image>)
        ensures
            image is Some <==> (rows@.len() == height && forall|y: int|
                0 <= y < height ==> (#[trigger] rows@[y])@.len() == width),
            image matches Some(image) ==> image.wf() && image.width == width && image.height
                == height && image.rows@ == rows@,
    {
        if rows.len() != height as usize {
            return None;
        }
        let mut y: usize = 0;
        while y < rows.len()
            invariant
                rows@.len() == height,
                y <= rows@.len(),
                forall|k: int| 0 <= k < y ==> (#[trigger] rows@[k])@.len() == width,
            decreases rows@.len() - y,
        {
            if rows[y].len() != width as usize {
                return None;
            }
            y = y + 1;
        }
        Some(Image { width, height, rows })
    }

    /// The pixel at column `x` of row `y`.
    pub fn get_pixel(&self, x: u32, y: u32) -> (pixel: Rgba)
        requires
            self.wf(),
            x < self.width,
            y < self.height,
        ensures
            pixel == self.pixel(x as int, y as int),
    {
        self.rows[y as usize][x as usize]
    }
}

} // verus!
