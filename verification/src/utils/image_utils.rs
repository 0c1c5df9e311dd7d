//! A loaded image and its down-sampled pixel grid.
use vstd::prelude::*;

use image::DynamicImage;
use image::imageops::FilterType;

verus! {

/// Side of the square grid that images are sampled down to.
pub const GRID_SIDE: u32 = 200;

#[verifier::external_type_specification]
#[verifier::external_body]
pub struct ExDynamicImage(DynamicImage);

/// The RGB bytes (row by row, three per pixel) of an image resized to the
/// given size with the triangle filter.
pub uninterp spec fn triangle_resized_rgb8(img: DynamicImage, width: u32, height: u32) -> Seq<u8>;

/// `DynamicImage::resize_exact` with `FilterType::Triangle`, then
/// `to_rgb8` and `into_raw`: the pixels of the image resized to exactly
/// `width` by `height`, as 8-bit RGB, row by row. The contract claims that
/// the result is a function of the image and the size (named above), and that
/// it holds three bytes for each of the `width * height` pixels.
#[verifier::external_body]
fn resize_exact_rgb8(img: &DynamicImage, width: u32, height: u32) -> (r: Vec<u8>)
    requires
        0 < width,
        0 < height,
        width as int * height as int * 3 <= u32::MAX as int,
    ensures
        r@ == triangle_resized_rgb8(*img, width, height),
        r@.len() == width as int * height as int * 3,
{
    img.resize_exact(width, height, FilterType::Triangle).to_rgb8().into_raw()
}

/// An image read from disk, and the path it was read from.
pub struct MyImage {
    pub data: DynamicImage,
    pub path: String,
}

/// The pixel at column `x`, row `y` of a row-by-row RGB buffer `GRID_SIDE` wide.
pub open spec fn grid_pixel(raw: Seq<u8>, y: int, x: int) -> [u8; 3] {
    let k = (y * 200 + x) * 3;
    [raw[k], raw[k + 1], raw[k + 2]]
}

/// Arranges a `GRID_SIDE` by `GRID_SIDE` row-by-row RGB buffer as a grid
/// indexed by row, then column.
pub fn grid_from_rgb8(raw: &Vec<u8>) -> (grid: [[[u8; 3]; 200]; 200])
    requires
        raw@.len() == 200 * 200 * 3,
    ensures
        forall|y: int, x: int|
            0 <= y < 200 && 0 <= x < 200 ==> #[trigger] grid[y][x] == grid_pixel(raw@, y, x),
{
    let mut grid = [[[0u8; 3]; 200]; 200];
    let mut y: usize = 0;
    while y < 200
        invariant
            y <= 200,
            raw@.len() == 200 * 200 * 3,
            forall|yy: int, x: int|
                0 <= yy < y && 0 <= x < 200 ==> #[trigger] grid[yy][x] == grid_pixel(raw@, yy, x),
        decreases 200 - y,
    {
        let mut row = [[0u8; 3]; 200];
        let mut x: usize = 0;
        while x < 200
            invariant
                y < 200,
                x <= 200,
                raw@.len() == 200 * 200 * 3,
                forall|xx: int| 0 <= xx < x ==> #[trigger] row[xx] == grid_pixel(raw@, y as int, xx),
            decreases 200 - x,
        {
            assert((y * 200 + x) * 3 + 2 < 200 * 200 * 3) by (nonlinear_arith)
                requires
                    y < 200,
                    x < 200,
            ;
            let k: usize = (y * 200 + x) * 3;
            let px: [u8; 3] = [raw[k], raw[k + 1], raw[k + 2]];
            assert(px =~= grid_pixel(raw@, y as int, x as int));
            row[x] = px;
            x += 1;
        }
        grid[y] = row;
        y += 1;
    }
    grid
}

impl MyImage {
    /// Down-samples the image to a `GRID_SIDE` by `GRID_SIDE` grid of RGB
    /// pixels, indexed by row, then column.
    pub fn to_sampled_grid(&self) -> (grid: [[[u8; 3]; 200]; 200])
        ensures
            forall|y: int, x: int|
                0 <= y < 200 && 0 <= x < 200 ==> #[trigger] grid[y][x] == grid_pixel(
                    triangle_resized_rgb8(self.data, GRID_SIDE, GRID_SIDE),
                    y,
                    x,
                ),
    {
        let raw = resize_exact_rgb8(&self.data, GRID_SIDE, GRID_SIDE);
        grid_from_rgb8(&raw)
    }
}

} // verus!
