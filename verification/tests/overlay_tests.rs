use homokuzel::overlay::{draw_grid_marks, AXIS_COLOR, CROSS_REACH, GRID_COLOR};
use image::{Rgba, RgbaImage};

fn blend_f64(fg: [u8; 4], bg: [u8; 4]) -> [u8; 4] {
    let a = fg[3] as f64 / 255.0;
    let mut out = [0u8; 4];
    for c in 0..3 {
        out[c] = (fg[c] as f64 * a + bg[c] as f64 * (1.0 - a)).round() as u8;
    }
    out[3] = 255;
    out
}

fn marked(img: RgbaImage, cols: &[i64], rows: &[i64], ox: i64, oy: i64) -> RgbaImage {
    let (w, h) = img.dimensions();
    let out = draw_grid_marks(w, h, img.into_raw(), &cols.to_vec(), &rows.to_vec(), ox, oy);
    RgbaImage::from_raw(w, h, out).expect("buffer keeps its pixels")
}

fn px(img: &RgbaImage, x: u32, y: u32) -> [u8; 4] {
    img.get_pixel(x, y).0
}

#[test]
fn grid_row_blends_like_floating_point_over_every_background() {
    let mut img = RgbaImage::new(256, 2);
    for x in 0..256u32 {
        let v = x as u8;
        img.put_pixel(x, 0, Rgba([v, 255 - v, v / 2, 17]));
        img.put_pixel(x, 1, Rgba([v, v, v, 255]));
    }
    let before = img.clone();
    let out = marked(img, &[], &[0], -100, -100);
    for x in 0..256u32 {
        assert_eq!(px(&out, x, 0), blend_f64(GRID_COLOR, px(&before, x, 0)));
        assert_eq!(px(&out, x, 1), px(&before, x, 1));
    }
}

#[test]
fn grid_marks_columns_rows_and_cross() {
    let img = RgbaImage::from_pixel(30, 25, Rgba([0, 0, 0, 255]));
    let out = marked(img, &[-3, 4, 29, 30, 100], &[2, 24, 25], 15, 12);
    let once = blend_f64(GRID_COLOR, [0, 0, 0, 255]);
    let twice = blend_f64(GRID_COLOR, once);
    assert_eq!(px(&out, 4, 0), once);
    assert_eq!(px(&out, 29, 7), once);
    assert_eq!(px(&out, 0, 2), once);
    assert_eq!(px(&out, 10, 24), once);
    assert_eq!(px(&out, 4, 2), twice);
    assert_eq!(px(&out, 4, 12), once);
    assert_eq!(px(&out, 5, 5), [0, 0, 0, 255]);
    assert_eq!(px(&out, 0, 0), [0, 0, 0, 255]);
    assert_eq!(px(&out, 15, 12), AXIS_COLOR);
    assert_eq!(px(&out, 5, 12), AXIS_COLOR);
    assert_eq!(px(&out, 25, 12), AXIS_COLOR);
    assert_eq!(px(&out, 15, 2), AXIS_COLOR);
    assert_eq!(px(&out, 15, 22), AXIS_COLOR);
    assert_eq!(px(&out, 26, 12), [0, 0, 0, 255]);
    assert_eq!(px(&out, 15, 23), [0, 0, 0, 255]);
    assert_eq!(out.dimensions(), (30, 25));
}

#[test]
fn cross_outside_the_image_is_clipped() {
    let img = RgbaImage::new(5, 5);
    let out = marked(img.clone(), &[], &[], -20, 2);
    assert_eq!(out, img);
    let out = marked(img, &[], &[], -3, 2);
    assert_eq!(px(&out, 0, 2), AXIS_COLOR);
    assert_eq!(px(&out, 4, 2), AXIS_COLOR);
    assert_eq!(px(&out, 0, 1), [0, 0, 0, 0]);
    assert_eq!(CROSS_REACH, 10);
}

#[test]
fn opaque_axis_colour_replaces_pixels() {
    let img = RgbaImage::from_pixel(3, 3, Rgba([9, 9, 9, 9]));
    let out = marked(img, &[], &[], 1, 1);
    for y in 0..3 {
        for x in 0..3 {
            let expected = if x == 1 || y == 1 { AXIS_COLOR } else { [9, 9, 9, 9] };
            assert_eq!(px(&out, x, y), expected);
        }
    }
}

#[test]
fn longer_buffers_are_accepted() {
    let mut raw = vec![0u8; 2 * 2 * 4];
    raw.extend_from_slice(&[1, 2, 3]);
    let out = draw_grid_marks(2, 2, raw, &vec![0], &Vec::new(), -50, -50);
    assert!(out.len() >= 16);
    let once = blend_f64(GRID_COLOR, [0, 0, 0, 0]);
    assert_eq!(&out[0..4], &once);
    assert_eq!(&out[8..12], &once);
    assert_eq!(&out[4..8], &[0, 0, 0, 0]);
}

#[test]
fn changed_pixels_end_opaque_and_cross_pixels_in_axis_colour() {
    let mut img = RgbaImage::new(40, 30);
    for y in 0..30u32 {
        for x in 0..40u32 {
            img.put_pixel(x, y, Rgba([(x * 6) as u8, (y * 8) as u8, 77, ((x + y) * 5) as u8]));
        }
    }
    let before = img.clone();
    let out = marked(img, &[3, 17, 39], &[0, 11, 29], 20, 14);
    for y in 0..30u32 {
        for x in 0..40u32 {
            let p = px(&out, x, y);
            if p != px(&before, x, y) {
                assert_eq!(p[3], 255);
            }
            let on_cross = (y == 14 && x >= 10 && x <= 30) || (x == 20 && y >= 4 && y <= 24);
            if on_cross {
                assert_eq!(p, AXIS_COLOR);
            }
        }
    }
}
