//! Decoding wallpapers and arranging them on an output of a given size:
//! fill, fit, stretch, center or tile. Decoding and Lanczos3 resampling are
//! the `image` crate's; where each pixel goes is this module's.

use vstd::prelude::*;
use crate::canvas::{
    black, black_pixel, crop_view, filled_view, lemma_u32_product, min_nat, replace_view, tile_view,
    CanvasView, Pixel, RgbaCanvas,
};
use crate::text::prefixed;
use crate::wallpaper::WallpaperMode;
use vstd::string::StringExecFns;

verus! {

// ── Outside calls ────────────────────────────────────────────────────────────

/// What `image::load_from_memory` followed by `to_rgba8` makes of a file's
/// bytes: its width, height and RGBA pixels row by row, or the text of the
/// decoding error.
pub uninterp spec fn decoded_image(bytes: Seq<u8>) -> Result<(u32, u32, Seq<Pixel>), Seq<char>>;

/// The pixels `image::imageops::resize` with the Lanczos3 filter makes of a
/// `width` by `height` image when asked for `new_width` by `new_height`.
pub uninterp spec fn lanczos3_pixels(width: u32, height: u32, pixels: Seq<Pixel>, new_width: u32, new_height: u32) -> Seq<Pixel>;

/// `image::load_from_memory`, then `DynamicImage::to_rgba8`: decodes an
/// encoded image (the format is guessed from its bytes) into RGBA pixels,
/// one per column and row, or gives the decoding error's text.
#[verifier::external_body]
fn decode_rgba(bytes: &[u8]) -> (r: Result<(u32, u32, Vec<Pixel>), String>)
    ensures
        match r {
            Ok((w, h, p)) => decoded_image(bytes@) == Ok::<(u32, u32, Seq<Pixel>), Seq<char>>((w, h, p@))
                && p.len() == w * h,
            Err(e) => decoded_image(bytes@) == Err::<(u32, u32, Seq<Pixel>), Seq<char>>(e@),
        },
{
    match image::load_from_memory(bytes) {
        Ok(img) => {
            let buf = img.to_rgba8();
            let pixels = buf.pixels().map(|q| Pixel { r: q.0[0], g: q.0[1], b: q.0[2], a: q.0[3] }).collect();
            Ok((buf.width(), buf.height(), pixels))
        },
        Err(e) => Err(e.to_string()),
    }
}

/// `image::imageops::resize` with `FilterType::Lanczos3` on the RGBA image
/// made of `pixels` (built with `ImageBuffer::from_raw`, which takes a buffer
/// of exactly `width * height` pixels). The result has one pixel per column
/// and row of the new size. `resize` allocates the new image and a
/// `width` by `new_height` buffer of `f32` channels; `requires` keeps both
/// within what an allocation can hold.
#[verifier::external_body]
fn lanczos3_resize(width: u32, height: u32, pixels: &Vec<Pixel>, new_width: u32, new_height: u32) -> (r: Option<Vec<Pixel>>)
    requires
        pixels.len() == width * height,
        resize_fits(width as nat, new_width as nat, new_height as nat),
    ensures
        r is Some,
        r->Some_0@ == lanczos3_pixels(width, height, pixels@, new_width, new_height),
        r->Some_0.len() == new_width * new_height,
{
    let raw: Vec<u8> = pixels.iter().flat_map(|p| [p.r, p.g, p.b, p.a]).collect();
    let buf = image::RgbaImage::from_raw(width, height, raw)?;
    let out = image::imageops::resize(&buf, new_width, new_height, image::imageops::FilterType::Lanczos3);
    Some(out.pixels().map(|q| Pixel { r: q.0[0], g: q.0[1], b: q.0[2], a: q.0[3] }).collect())
}

// ── Decoding ─────────────────────────────────────────────────────────────────

/// An image file that could not be opened: its path and the decoder's
/// reason.
#[derive(Debug, Clone)]
pub struct ImageOpenError {
    pub path: String,
    pub reason: String,
}

impl ImageOpenError {
    /// The error's text: `open image <path>`.
    pub fn message(&self) -> (m: String)
        ensures
            m@ == "open image "@ + self.path@,
    {
        prefixed("open image ", self.path.as_str())
    }
}

/// Decodes the bytes of the image file at `path`. Fails, naming the path
/// and the decoder's reason, exactly when the bytes do not decode.
pub fn load_image(path: &str, bytes: &[u8]) -> (r: Result<RgbaCanvas, ImageOpenError>)
    ensures
        match decoded_image(bytes@) {
            Ok((w, h, p)) => r matches Ok(c) && c@ == (CanvasView { width: w as nat, height: h as nat, pixels: p }),
            Err(e) => r matches Err(err) && err.path@ == path@ && err.reason@ == e,
        },
{
    match decode_rgba(bytes) {
        Ok((w, h, p)) => Ok(RgbaCanvas::from_pixels(w, h, p).unwrap()),
        Err(e) => Err(ImageOpenError { path: String::from_str(path), reason: e }),
    }
}

// ── Resizing ─────────────────────────────────────────────────────────────────

/// The sizes `image::imageops::resize` can produce from an image `src_width`
/// pixels wide without its allocations overflowing.
pub open spec fn resize_fits(src_width: nat, new_width: nat, new_height: nat) -> bool {
    &&& new_width <= u32::MAX
    &&& new_height <= u32::MAX
    &&& new_width * new_height * 4 <= isize::MAX
    &&& src_width * new_height * 16 <= isize::MAX
}

/// `img` at `width` by `height`: itself when it has that size already, else
/// its Lanczos3 resampling.
pub open spec fn resized_view(img: CanvasView, width: nat, height: nat) -> CanvasView {
    if img.width == width && img.height == height {
        img
    } else {
        CanvasView {
            width,
            height,
            pixels: lanczos3_pixels(img.width as u32, img.height as u32, img.pixels, width as u32, height as u32),
        }
    }
}

/// Resamples `img` to `target_width` by `target_height` with the Lanczos3
/// filter; an image of that size already is copied as it is.
pub fn resize_lanczos3(img: &RgbaCanvas, target_width: u32, target_height: u32) -> (r: RgbaCanvas)
    requires
        resize_fits(img@.width, target_width as nat, target_height as nat),
    ensures
        r@ == resized_view(img@, target_width as nat, target_height as nat),
{
    let n = img.pixel_count();
    if img.width() == target_width && img.height() == target_height {
        return img.clone();
    }
    let v = lanczos3_resize(img.width(), img.height(), img.pixels(), target_width, target_height).unwrap();
    RgbaCanvas::from_pixels(target_width, target_height, v).unwrap()
}

// ── Arranging on an output ───────────────────────────────────────────────────

/// Where an `inner`-long side starts when centered on an `outer`-long one;
/// 0 when it does not fit.
pub open spec fn center_offset(outer: nat, inner: nat) -> nat {
    if outer > inner { ((outer - inner) as nat) / 2 } else { 0 }
}

/// `img` at its own size, centered on a black `width` by `height` canvas;
/// along a side where it is larger, its middle part that fits is shown.
pub open spec fn center_view(img: CanvasView, width: nat, height: nat) -> CanvasView {
    replace_view(
        filled_view(width, height, black()),
        crop_view(
            img,
            center_offset(img.width, width),
            center_offset(img.height, height),
            min_nat(img.width, width),
            min_nat(img.height, height),
        ),
        center_offset(width, img.width) as int,
        center_offset(height, img.height) as int,
    )
}

/// A `w` by `h` image scaled by the largest factor that keeps it within
/// `width` by `height`, each side rounded down; (0, 0) for an empty image.
pub open spec fn fit_size(w: nat, h: nat, width: nat, height: nat) -> (nat, nat) {
    if w == 0 || h == 0 {
        (0, 0)
    } else if width * h <= height * w {
        (width, (h * width) / w)
    } else {
        ((w * height) / h, height)
    }
}

/// `img` scaled to fit within `width` by `height`, keeping its aspect ratio,
/// centered on a black canvas of that size.
pub open spec fn fit_view(img: CanvasView, width: nat, height: nat) -> CanvasView {
    let (nw, nh) = fit_size(img.width, img.height, width, height);
    replace_view(
        filled_view(width, height, black()),
        resized_view(img, nw, nh),
        center_offset(width, nw) as int,
        center_offset(height, nh) as int,
    )
}

/// The aspect ratios `w:h` and `width:height` differ by less than 1/100.
pub open spec fn aspects_match(w: nat, h: nat, width: nat, height: nat) -> bool {
    let a = w * height;
    let b = width * h;
    let diff: int = if a >= b { a - b } else { b - a };
    100 * diff < h * height
}

/// A `w` by `h` image scaled by the smallest factor that covers `width` by
/// `height`, each side rounded down.
pub open spec fn fill_size(w: nat, h: nat, width: nat, height: nat) -> (nat, nat) {
    if w * height > width * h {
        ((w * height) / h, height)
    } else {
        (width, (h * width) / w)
    }
}

/// `img` filling `width` by `height`: when the aspect ratios match (or the
/// image is empty) it is resampled to that size; else it is scaled to cover
/// it, keeping its aspect ratio, and the middle part is kept.
pub open spec fn fill_view(img: CanvasView, width: nat, height: nat) -> CanvasView {
    if img.width == 0 || img.height == 0 || aspects_match(img.width, img.height, width, height) {
        resized_view(img, width, height)
    } else {
        let (nw, nh) = fill_size(img.width, img.height, width, height);
        crop_view(resized_view(img, nw, nh), center_offset(nw, width), center_offset(nh, height), width, height)
    }
}

/// `img` arranged on a `width` by `height` output in `mode`.
pub open spec fn arranged_view(img: CanvasView, width: nat, height: nat, mode: WallpaperMode) -> CanvasView {
    match mode {
        WallpaperMode::Fill => fill_view(img, width, height),
        WallpaperMode::Fit => fit_view(img, width, height),
        WallpaperMode::Stretch => resized_view(img, width, height),
        WallpaperMode::Center => center_view(img, width, height),
        WallpaperMode::Tile => tile_view(img, width, height),
    }
}

/// The allocations of arranging `img` on a `width` by `height` output in
/// `mode` stay within what an allocation can hold.
pub open spec fn arrangement_fits(img: CanvasView, width: nat, height: nat, mode: WallpaperMode) -> bool {
    &&& width * height * 4 <= isize::MAX
    &&& match mode {
        WallpaperMode::Fill => if img.width == 0 || img.height == 0 || aspects_match(img.width, img.height, width, height) {
            resize_fits(img.width, width, height)
        } else {
            let (nw, nh) = fill_size(img.width, img.height, width, height);
            resize_fits(img.width, nw, nh)
        },
        WallpaperMode::Fit => {
            let (nw, nh) = fit_size(img.width, img.height, width, height);
            resize_fits(img.width, nw, nh)
        },
        WallpaperMode::Stretch => resize_fits(img.width, width, height),
        WallpaperMode::Center => true,
        WallpaperMode::Tile => true,
    }
}

fn centered(outer: u32, inner: u32) -> (r: u32)
    ensures
        r == center_offset(outer as nat, inner as nat),
{
    if outer > inner { (outer - inner) / 2 } else { 0 }
}

fn center_on_black(img: &RgbaCanvas, width: u32, height: u32) -> (r: RgbaCanvas)
    requires
        width * height * 4 <= isize::MAX,
    ensures
        r@ == center_view(img@, width as nat, height as nat),
{
    let sw = if img.width() < width { img.width() } else { width };
    let sh = if img.height() < height { img.height() } else { height };
    let part = img.crop(centered(img.width(), width), centered(img.height(), height), sw, sh);
    let mut canvas = RgbaCanvas::filled(width, height, black_pixel());
    canvas.replace(&part, centered(width, img.width()) as i64, centered(height, img.height()) as i64);
    canvas
}

fn fit_dimensions(w: u32, h: u32, width: u32, height: u32) -> (r: (u32, u32))
    ensures
        (r.0 as nat, r.1 as nat) == fit_size(w as nat, h as nat, width as nat, height as nat),
{
    proof {
        lemma_u32_product(width, h);
        lemma_u32_product(height, w);
        lemma_u32_product(h, width);
        lemma_u32_product(w, height);
    }
    if w == 0 || h == 0 {
        (0, 0)
    } else if (width as u64) * (h as u64) <= (height as u64) * (w as u64) {
        let nh: u64 = ((h as u64) * (width as u64)) / (w as u64);
        assert(nh <= height) by (nonlinear_arith)
            requires
                nh == (h * width) / (w as int),
                width * h <= height * w,
                w > 0,
        ;
        (width, nh as u32)
    } else {
        let nw: u64 = ((w as u64) * (height as u64)) / (h as u64);
        assert(nw <= width) by (nonlinear_arith)
            requires
                nw == (w * height) / (h as int),
                width * h > height * w,
                h > 0,
        ;
        (nw as u32, height)
    }
}

fn fit_on_black(img: &RgbaCanvas, width: u32, height: u32) -> (r: RgbaCanvas)
    requires
        arrangement_fits(img@, width as nat, height as nat, WallpaperMode::Fit),
    ensures
        r@ == fit_view(img@, width as nat, height as nat),
{
    let (nw, nh) = fit_dimensions(img.width(), img.height(), width, height);
    let resized = resize_lanczos3(img, nw, nh);
    let mut canvas = RgbaCanvas::filled(width, height, black_pixel());
    canvas.replace(&resized, centered(width, nw) as i64, centered(height, nh) as i64);
    canvas
}


fn aspect_close(w: u32, h: u32, width: u32, height: u32) -> (b: bool)
    ensures
        b == aspects_match(w as nat, h as nat, width as nat, height as nat),
{
    proof {
        lemma_u32_product(w, height);
        lemma_u32_product(width, h);
        lemma_u32_product(h, height);
    }
    let a: u64 = (w as u64) * (height as u64);
    let b: u64 = (width as u64) * (h as u64);
    let diff: u64 = if a >= b { a - b } else { b - a };
    100u128 * (diff as u128) < (h as u128) * (height as u128)
}

fn fill_dimensions(w: u32, h: u32, width: u32, height: u32) -> (r: (u64, u64))
    requires
        w > 0,
        h > 0,
    ensures
        (r.0 as nat, r.1 as nat) == fill_size(w as nat, h as nat, width as nat, height as nat),
        r.0 >= width,
        r.1 >= height,
{
    proof {
        lemma_u32_product(w, height);
        lemma_u32_product(width, h);
        lemma_u32_product(h, width);
    }
    if (w as u64) * (height as u64) > (width as u64) * (h as u64) {
        let nw: u64 = ((w as u64) * (height as u64)) / (h as u64);
        assert(nw >= width) by (nonlinear_arith)
            requires
                nw == (w * height) / (h as int),
                w * height > width * h,
                h > 0,
        ;
        (nw, height as u64)
    } else {
        let nh: u64 = ((h as u64) * (width as u64)) / (w as u64);
        assert(nh >= height) by (nonlinear_arith)
            requires
                nh == (h * width) / (w as int),
                w * height <= width * h,
                w > 0,
        ;
        (width as u64, nh)
    }
}

fn fill_cropped(img: &RgbaCanvas, width: u32, height: u32) -> (r: RgbaCanvas)
    requires
        arrangement_fits(img@, width as nat, height as nat, WallpaperMode::Fill),
    ensures
        r@ == fill_view(img@, width as nat, height as nat),
        r@.width == width,
        r@.height == height,
{
    let w = img.width();
    let h = img.height();
    if w == 0 || h == 0 || aspect_close(w, h, width, height) {
        return resize_lanczos3(img, width, height);
    }
    let (nw, nh) = fill_dimensions(w, h, width, height);
    let resized = resize_lanczos3(img, nw as u32, nh as u32);
    resized.crop(centered(nw as u32, width), centered(nh as u32, height), width, height)
}

fn resize_fits_exec(src_width: u32, new_width: u64, new_height: u64) -> (b: bool)
    ensures
        b == resize_fits(src_width as nat, new_width as nat, new_height as nat),
{
    if new_width > 0xffff_ffffu64 || new_height > 0xffff_ffffu64 {
        return false;
    }
    let limit: u128 = isize::MAX as u128;
    assert((new_width as u128) * (new_height as u128) * 4 <= 0x4_0000_0000_0000_0000u128) by (nonlinear_arith)
        requires
            new_width <= 0xffff_ffffu64,
            new_height <= 0xffff_ffffu64,
    ;
    assert((src_width as u128) * (new_height as u128) * 16 <= 0x10_0000_0000_0000_0000u128) by (nonlinear_arith)
        requires
            src_width <= 0xffff_ffffu32,
            new_height <= 0xffff_ffffu64,
    ;
    (new_width as u128) * (new_height as u128) * 4 <= limit && (src_width as u128) * (new_height as u128) * 16
        <= limit
}

/// Whether `apply_wallpaper_mode` can arrange `img` on a `width` by `height`
/// output in `mode` without its buffers outgrowing the address space.
pub fn arrangement_fits_exec(img: &RgbaCanvas, width: u32, height: u32, mode: WallpaperMode) -> (b: bool)
    ensures
        b == arrangement_fits(img@, width as nat, height as nat, mode),
{
    let limit: u128 = isize::MAX as u128;
    assert((width as u128) * (height as u128) * 4 <= 0x4_0000_0000_0000_0000u128) by (nonlinear_arith)
        requires
            width <= 0xffff_ffffu32,
            height <= 0xffff_ffffu32,
    ;
    if (width as u128) * (height as u128) * 4 > limit {
        return false;
    }
    let w = img.width();
    let h = img.height();
    match mode {
        WallpaperMode::Fill => {
            if w == 0 || h == 0 || aspect_close(w, h, width, height) {
                resize_fits_exec(w, width as u64, height as u64)
            } else {
                let (nw, nh) = fill_dimensions(w, h, width, height);
                resize_fits_exec(w, nw, nh)
            }
        },
        WallpaperMode::Fit => {
            let (nw, nh) = fit_dimensions(w, h, width, height);
            resize_fits_exec(w, nw as u64, nh as u64)
        },
        WallpaperMode::Stretch => resize_fits_exec(w, width as u64, height as u64),
        WallpaperMode::Center => true,
        WallpaperMode::Tile => true,
    }
}

/// Arranges `img` on a `width` by `height` output in `mode`: `Fill` covers
/// the output keeping the aspect ratio and crops the overflow evenly,
/// `Fit` shows all of the image on black bars, `Stretch` resamples to the
/// output size, `Center` shows the image at its own size in the middle on
/// black, and `Tile` repeats it from the top-left corner. Scaling uses
/// Lanczos3.
pub fn apply_wallpaper_mode(img: &RgbaCanvas, width: u32, height: u32, mode: WallpaperMode) -> (r: RgbaCanvas)
    requires
        arrangement_fits(img@, width as nat, height as nat, mode),
    ensures
        r@ == arranged_view(img@, width as nat, height as nat, mode),
        r@.width == width,
        r@.height == height,
{
    match mode {
        WallpaperMode::Fill => fill_cropped(img, width, height),
        WallpaperMode::Fit => fit_on_black(img, width, height),
        WallpaperMode::Stretch => resize_lanczos3(img, width, height),
        WallpaperMode::Center => center_on_black(img, width, height),
        WallpaperMode::Tile => RgbaCanvas::tiled(img, width, height),
    }
}


// ── Laws ─────────────────────────────────────────────────────────────────────

/// `Fit` keeps the image within the output: the scaled size is no larger
/// than the output on either side, and fills it on at least one.
pub proof fn law_fit_size_within(w: nat, h: nat, width: nat, height: nat)
    requires
        w > 0,
        h > 0,
    ensures
        fit_size(w, h, width, height).0 <= width,
        fit_size(w, h, width, height).1 <= height,
        fit_size(w, h, width, height).0 == width || fit_size(w, h, width, height).1 == height,
{
    if width * h <= height * w {
        assert((h * width) / w <= height) by (nonlinear_arith)
            requires
                width * h <= height * w,
                w > 0,
        ;
    } else {
        assert((w * height) / h <= width) by (nonlinear_arith)
            requires
                width * h > height * w,
                h > 0,
        ;
    }
}

/// `Fill` covers the output: the scaled size is at least the output's on
/// both sides, and equals it on at least one.
pub proof fn law_fill_size_covers(w: nat, h: nat, width: nat, height: nat)
    requires
        w > 0,
        h > 0,
    ensures
        fill_size(w, h, width, height).0 >= width,
        fill_size(w, h, width, height).1 >= height,
        fill_size(w, h, width, height).0 == width || fill_size(w, h, width, height).1 == height,
{
    if w * height > width * h {
        assert((w * height) / h >= width) by (nonlinear_arith)
            requires
                w * height > width * h,
                h > 0,
        ;
    } else {
        assert((h * width) / w >= height) by (nonlinear_arith)
            requires
                w * height <= width * h,
                w > 0,
        ;
    }
}

} // verus!
