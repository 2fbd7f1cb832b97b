use crawl::canvas::{black_pixel, blit_frame, Pixel, RgbaCanvas};
use crawl::image_ops::{apply_wallpaper_mode, arrangement_fits_exec, load_image, resize_lanczos3};
use crawl::wallpaper::WallpaperMode;

fn px(v: u8) -> Pixel {
    Pixel { r: v, g: v.wrapping_add(1), b: v.wrapping_add(2), a: 255 }
}

/// A canvas whose pixel at column x, row y is px(10 * y + x).
fn numbered(width: u32, height: u32) -> RgbaCanvas {
    let mut v = Vec::new();
    for y in 0..height {
        for x in 0..width {
            v.push(px((10 * y + x) as u8));
        }
    }
    RgbaCanvas::from_pixels(width, height, v).unwrap()
}

#[test]
fn from_pixels_needs_one_pixel_per_cell() {
    assert!(RgbaCanvas::from_pixels(2, 2, vec![px(0); 3]).is_none());
    let c = RgbaCanvas::from_pixels(2, 2, vec![px(0); 4]).unwrap();
    assert_eq!(c.width(), 2);
    assert_eq!(c.height(), 2);
    assert_eq!(c.pixel_count(), 4);
}

#[test]
fn filled_canvas_is_uniform() {
    let c = RgbaCanvas::filled(3, 2, black_pixel());
    assert_eq!(c.pixels().len(), 6);
    assert!(c.pixels().iter().all(|p| *p == Pixel { r: 0, g: 0, b: 0, a: 255 }));
}

#[test]
fn get_pixel_is_row_major() {
    let c = numbered(3, 2);
    assert_eq!(c.get_pixel(2, 1), px(12));
    assert_eq!(c.get_pixel(0, 1), px(10));
}

#[test]
fn crop_keeps_the_region() {
    let c = numbered(4, 3);
    let part = c.crop(1, 1, 2, 2);
    assert_eq!((part.width(), part.height()), (2, 2));
    assert_eq!(part.pixels().clone(), vec![px(11), px(12), px(21), px(22)]);
}

#[test]
fn crop_is_cut_at_the_edges() {
    let c = numbered(4, 3);
    let part = c.crop(3, 2, 5, 5);
    assert_eq!((part.width(), part.height()), (1, 1));
    assert_eq!(part.get_pixel(0, 0), px(23));
    let outside = c.crop(10, 10, 2, 2);
    assert_eq!((outside.width(), outside.height()), (0, 0));
}

#[test]
fn replace_overlays_inside_only() {
    let mut bottom = RgbaCanvas::filled(3, 3, black_pixel());
    let top = numbered(2, 2);
    bottom.replace(&top, 2, -1);
    // Only top's pixel (0, 1) lands inside, at (2, 0).
    assert_eq!(bottom.get_pixel(2, 0), px(10));
    assert_eq!(bottom.get_pixel(1, 0), black_pixel());
    assert_eq!(bottom.get_pixel(2, 1), black_pixel());
}

#[test]
fn tiled_repeats_from_the_corner() {
    let img = numbered(2, 2);
    let t = RgbaCanvas::tiled(&img, 5, 3);
    assert_eq!((t.width(), t.height()), (5, 3));
    assert_eq!(t.get_pixel(4, 2), px(0));
    assert_eq!(t.get_pixel(3, 1), px(11));
    let empty = RgbaCanvas::from_pixels(0, 0, vec![]).unwrap();
    let black = RgbaCanvas::tiled(&empty, 2, 2);
    assert!(black.pixels().iter().all(|p| *p == black_pixel()));
}

#[test]
fn blit_frame_writes_bgrx() {
    let img = RgbaCanvas::from_pixels(2, 1, vec![Pixel { r: 1, g: 2, b: 3, a: 4 }, Pixel { r: 5, g: 6, b: 7, a: 8 }]).unwrap();
    let mut buf = vec![9u8; 10];
    blit_frame(&mut buf, &img, 2, 1);
    assert_eq!(buf, vec![3, 2, 1, 0, 7, 6, 5, 0, 9, 9]);
}

#[test]
fn blit_frame_stops_at_a_short_buffer() {
    let img = numbered(2, 2);
    let mut buf = vec![9u8; 7];
    blit_frame(&mut buf, &img, 2, 2);
    // Only one whole pixel fits.
    assert_eq!(buf, vec![2, 1, 0, 0, 9, 9, 9]);
}

#[test]
fn center_pads_a_small_image_with_black() {
    let img = numbered(2, 2);
    let out = apply_wallpaper_mode(&img, 4, 4, WallpaperMode::Center);
    assert_eq!((out.width(), out.height()), (4, 4));
    assert_eq!(out.get_pixel(1, 1), px(0));
    assert_eq!(out.get_pixel(2, 2), px(11));
    assert_eq!(out.get_pixel(0, 0), black_pixel());
    assert_eq!(out.get_pixel(3, 3), black_pixel());
}

#[test]
fn center_shows_the_middle_of_a_large_image() {
    let img = numbered(5, 5);
    let out = apply_wallpaper_mode(&img, 2, 2, WallpaperMode::Center);
    assert_eq!(out.pixels().clone(), vec![px(11), px(12), px(21), px(22)]);
    let row = numbered(3, 1);
    let out = apply_wallpaper_mode(&row, 1, 1, WallpaperMode::Center);
    assert_eq!(out.pixels().clone(), vec![px(1)]);
}

#[test]
fn tile_mode_repeats() {
    let img = numbered(2, 1);
    let out = apply_wallpaper_mode(&img, 3, 2, WallpaperMode::Tile);
    assert_eq!(out.pixels().clone(), vec![px(0), px(1), px(0), px(0), px(1), px(0)]);
}

#[test]
fn stretch_of_same_size_is_a_copy() {
    let img = numbered(3, 2);
    let out = apply_wallpaper_mode(&img, 3, 2, WallpaperMode::Stretch);
    assert_eq!(out.pixels().clone(), img.pixels().clone());
}

#[test]
fn every_mode_gives_the_output_size() {
    let img = numbered(4, 2);
    for mode in [WallpaperMode::Fill, WallpaperMode::Fit, WallpaperMode::Stretch, WallpaperMode::Center, WallpaperMode::Tile] {
        let out = apply_wallpaper_mode(&img, 6, 6, mode);
        assert_eq!((out.width(), out.height()), (6, 6));
        assert_eq!(out.pixels().len(), 36);
    }
}

#[test]
fn fit_leaves_black_bars() {
    // A 4x2 image fitted into 6x6 is scaled to 6x3 and centered vertically.
    let img = RgbaCanvas::filled(4, 2, Pixel { r: 200, g: 200, b: 200, a: 255 });
    let out = apply_wallpaper_mode(&img, 6, 6, WallpaperMode::Fit);
    assert_eq!(out.get_pixel(0, 0), black_pixel());
    assert_eq!(out.get_pixel(5, 5), black_pixel());
    assert_ne!(out.get_pixel(3, 3), black_pixel());
}

#[test]
fn fill_covers_the_output() {
    let img = RgbaCanvas::filled(4, 2, Pixel { r: 200, g: 200, b: 200, a: 255 });
    let out = apply_wallpaper_mode(&img, 6, 6, WallpaperMode::Fill);
    assert!(out.pixels().iter().all(|p| *p != black_pixel()));
}

#[test]
fn resize_changes_the_size() {
    let img = numbered(4, 4);
    let out = resize_lanczos3(&img, 2, 3);
    assert_eq!((out.width(), out.height()), (2, 3));
    assert_eq!(out.pixels().len(), 6);
}

#[test]
fn resize_of_a_uniform_image_stays_uniform() {
    let p = Pixel { r: 50, g: 100, b: 150, a: 255 };
    let img = RgbaCanvas::filled(4, 4, p);
    let out = resize_lanczos3(&img, 2, 2);
    assert!(out.pixels().iter().all(|q| *q == p));
}

#[test]
fn load_image_refuses_garbage() {
    match load_image("/tmp/x.png", b"not an image") {
        Err(e) => {
            assert_eq!(e.path, "/tmp/x.png");
            assert!(!e.reason.is_empty());
            assert_eq!(e.message(), "open image /tmp/x.png");
        }
        Ok(_) => panic!("expected an open error"),
    }
}

#[test]
fn load_image_decodes_a_png() {
    // A 1x1 red PNG.
    let png: Vec<u8> = vec![
        0x89, 0x50, 0x4e, 0x47, 0x0d, 0x0a, 0x1a, 0x0a, 0x00, 0x00, 0x00, 0x0d, 0x49, 0x48, 0x44, 0x52,
        0x00, 0x00, 0x00, 0x01, 0x00, 0x00, 0x00, 0x01, 0x08, 0x02, 0x00, 0x00, 0x00, 0x90, 0x77, 0x53,
        0xde, 0x00, 0x00, 0x00, 0x0c, 0x49, 0x44, 0x41, 0x54, 0x78, 0x9c, 0x63, 0xf8, 0xcf, 0xc0, 0x00,
        0x00, 0x03, 0x01, 0x01, 0x00, 0xc9, 0xfe, 0x92, 0xef, 0x00, 0x00, 0x00, 0x00, 0x49, 0x45, 0x4e,
        0x44, 0xae, 0x42, 0x60, 0x82,
    ];
    let c = load_image("red.png", &png).unwrap();
    assert_eq!((c.width(), c.height()), (1, 1));
    assert_eq!(c.get_pixel(0, 0), Pixel { r: 255, g: 0, b: 0, a: 255 });
}

#[test]
fn arrangement_fits_ordinary_outputs_only() {
    let img = numbered(4, 3);
    assert!(arrangement_fits_exec(&img, 1920, 1080, WallpaperMode::Fill));
    assert!(arrangement_fits_exec(&img, 1920, 1080, WallpaperMode::Fit));
    assert!(arrangement_fits_exec(&img, 1920, 1080, WallpaperMode::Stretch));
    assert!(arrangement_fits_exec(&img, 7, 5, WallpaperMode::Tile));
    // An output whose buffer alone outgrows the address space never fits.
    assert!(!arrangement_fits_exec(&img, u32::MAX, u32::MAX, WallpaperMode::Center));
    assert!(!arrangement_fits_exec(&img, u32::MAX, u32::MAX, WallpaperMode::Stretch));
}
