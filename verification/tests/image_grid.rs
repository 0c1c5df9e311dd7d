use image::{DynamicImage, Rgb, RgbImage};
use wallman::utils::image_utils::{grid_from_rgb8, MyImage};

#[test]
fn uniform_image_samples_uniformly() {
    let img = RgbImage::from_pixel(640, 360, Rgb([12, 200, 77]));
    let my = MyImage { data: DynamicImage::ImageRgb8(img), path: "uniform.png".to_string() };
    let grid = my.to_sampled_grid();
    for y in [0usize, 50, 199] {
        for x in [0usize, 120, 199] {
            assert_eq!(grid[y][x], [12, 200, 77]);
        }
    }
}

#[test]
fn halves_keep_their_side() {
    let mut img = RgbImage::new(400, 400);
    for (x, _y, p) in img.enumerate_pixels_mut() {
        *p = if x < 200 { Rgb([255, 0, 0]) } else { Rgb([0, 0, 255]) };
    }
    let my = MyImage { data: DynamicImage::ImageRgb8(img), path: "halves.png".to_string() };
    let grid = my.to_sampled_grid();
    assert_eq!(grid[10][0], [255, 0, 0]);
    assert_eq!(grid[10][199], [0, 0, 255]);
    assert_eq!(grid[199][5], [255, 0, 0]);
}

#[test]
fn same_size_image_is_copied() {
    let mut img = RgbImage::new(200, 200);
    for (x, y, p) in img.enumerate_pixels_mut() {
        *p = Rgb([x as u8, y as u8, 7]);
    }
    let my = MyImage { data: DynamicImage::ImageRgb8(img), path: "ramp.png".to_string() };
    let grid = my.to_sampled_grid();
    assert_eq!(grid[3][150], [150, 3, 7]);
    assert_eq!(grid[199][0], [0, 199, 7]);
}

#[test]
fn grid_is_row_major() {
    let mut raw = vec![0u8; 200 * 200 * 3];
    let k = (5 * 200 + 9) * 3;
    raw[k] = 1;
    raw[k + 1] = 2;
    raw[k + 2] = 3;
    let grid = grid_from_rgb8(&raw);
    assert_eq!(grid[5][9], [1, 2, 3]);
    assert_eq!(grid[9][5], [0, 0, 0]);
}
