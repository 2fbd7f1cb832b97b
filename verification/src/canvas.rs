//! RGBA pixel canvases and the operations that arrange a wallpaper on an
//! output: filling, cropping, pasting one canvas onto another, tiling and
//! converting to the XRGB8888 layout of a Wayland shared-memory buffer.
//!
//! Pixels are stored row by row: the pixel in column `x` of row `y` of a
//! canvas `width` pixels wide is at index `y * width + x`.

use vstd::prelude::*;
use vstd::arithmetic::div_mod::lemma_fundamental_div_mod_converse;

verus! {

/// One pixel: red, green, blue and alpha channels.
#[derive(Debug, Clone, Copy, PartialEq, Eq, Structural)]
pub struct Pixel {
    pub r: u8,
    pub g: u8,
    pub b: u8,
    pub a: u8,
}

/// Opaque black, the background of padded wallpapers.
pub open spec fn black() -> Pixel {
    Pixel { r: 0, g: 0, b: 0, a: 255 }
}

/// Opaque black.
pub fn black_pixel() -> (p: Pixel)
    ensures
        p == black(),
{
    Pixel { r: 0, g: 0, b: 0, a: 255 }
}

/// What a canvas is: its size and its pixels, row by row.
pub struct CanvasView {
    pub width: nat,
    pub height: nat,
    pub pixels: Seq<Pixel>,
}

/// The pixel in column `x` of row `y`.
pub open spec fn pixel_at(c: CanvasView, x: int, y: int) -> Pixel {
    c.pixels[y * c.width + x]
}

/// A canvas of `width` by `height` pixels, all `p`.
pub open spec fn filled_view(width: nat, height: nat, p: Pixel) -> CanvasView {
    CanvasView { width, height, pixels: Seq::new(width * height, |k: int| p) }
}

/// `k == y * w + x` with `x < w`: the flat index `k` is column `x` of row `y`.
pub proof fn lemma_flat_index(k: int, w: int, x: int, y: int)
    requires
        0 <= x < w,
        0 <= y,
        k == y * w + x,
    ensures
        k % w == x,
        k / w == y,
{
    lemma_fundamental_div_mod_converse(k, w, y, x);
}

/// Column `x` of row `y` lies inside a `w` by `h` canvas.
pub proof fn lemma_index_in_bounds(x: int, y: int, w: int, h: int)
    requires
        0 <= x < w,
        0 <= y < h,
    ensures
        0 <= y * w + x < w * h,
{
    assert(y * w + x < w * h) by (nonlinear_arith)
        requires
            0 <= x < w,
            0 <= y < h,
    ;
    assert(0 <= y * w) by (nonlinear_arith)
        requires
            0 <= y,
            0 <= x < w,
    ;
}

/// The product of two `u32` values fits in a `u64`.
pub proof fn lemma_u32_product(a: u32, b: u32)
    ensures
        a * b <= u64::MAX,
{
    assert(a * b <= 0xffff_ffffu64 * 0xffff_ffffu64) by (nonlinear_arith)
        requires
            a <= 0xffff_ffffu64,
            b <= 0xffff_ffffu64,
    ;
}

/// The smaller of two naturals.
pub open spec fn min_nat(a: nat, b: nat) -> nat {
    if a <= b { a } else { b }
}

/// The region `crop_view` keeps: the corner moved into the canvas, and the
/// size cut to what lies right of and below it. As `(x, y, width, height)`.
pub open spec fn crop_bounds(c: CanvasView, x: nat, y: nat, w: nat, h: nat) -> (nat, nat, nat, nat) {
    let cx = min_nat(x, c.width);
    let cy = min_nat(y, c.height);
    (cx, cy, min_nat(w, (c.width - cx) as nat), min_nat(h, (c.height - cy) as nat))
}

/// The part of `c` whose top-left corner is column `x` of row `y`, `w`
/// pixels wide and `h` high, cut to the part that lies inside `c`.
pub open spec fn crop_view(c: CanvasView, x: nat, y: nat, w: nat, h: nat) -> CanvasView {
    let (cx, cy, cw, ch) = crop_bounds(c, x, y, w, h);
    CanvasView {
        width: cw,
        height: ch,
        pixels: Seq::new(cw * ch, |k: int| pixel_at(c, cx + k % (cw as int), cy + k / (cw as int))),
    }
}

/// A row index below the last row: `k == row * w + col < w * h` puts `row` below `h`.
pub proof fn lemma_row_below(k: int, w: int, h: int, row: int, col: int)
    requires
        0 <= col,
        0 <= row,
        0 < w,
        0 <= h,
        k == row * w + col,
        k < w * h,
    ensures
        row < h,
{
    if row >= h {
        assert(row * w >= h * w) by (nonlinear_arith)
            requires
                row >= h,
                w > 0,
        ;
    }
}

/// A sub-rectangle has no more pixels than the canvas holding it.
pub proof fn lemma_sub_area(a: nat, b: nat, w: nat, h: nat)
    requires
        a <= w,
        b <= h,
    ensures
        a * b <= w * h,
{
    assert(a * b <= w * h) by (nonlinear_arith)
        requires
            a <= w,
            b <= h,
    ;
}

/// `top` laid over `bottom` with its top-left corner at column `x` of row
/// `y` (either may be negative): each pixel of `bottom` that `top` covers
/// takes `top`'s pixel there, the others stay.
pub open spec fn replace_view(bottom: CanvasView, top: CanvasView, x: int, y: int) -> CanvasView {
    CanvasView {
        width: bottom.width,
        height: bottom.height,
        pixels: Seq::new(
            bottom.pixels.len(),
            |k: int|
                {
                    let col = k % (bottom.width as int);
                    let row = k / (bottom.width as int);
                    if x <= col < x + top.width && y <= row < y + top.height {
                        pixel_at(top, col - x, row - y)
                    } else {
                        bottom.pixels[k]
                    }
                },
        ),
    }
}

/// `img` repeated from the top-left corner over a `width` by `height`
/// canvas: column `x` of row `y` shows `img`'s pixel at column `x % w`, row
/// `y % h`. All black when `img` has no pixels.
pub open spec fn tile_view(img: CanvasView, width: nat, height: nat) -> CanvasView {
    if img.width == 0 || img.height == 0 {
        filled_view(width, height, black())
    } else {
        CanvasView {
            width,
            height,
            pixels: Seq::new(
                width * height,
                |k: int| pixel_at(img, (k % (width as int)) % (img.width as int), (k / (width as int)) % (img.height as int)),
            ),
        }
    }
}

/// A `width` by `height` RGBA image.
pub struct RgbaCanvas {
    width: u32,
    height: u32,
    pixels: Vec<Pixel>,
}

impl View for RgbaCanvas {
    type V = CanvasView;

    closed spec fn view(&self) -> CanvasView {
        CanvasView { width: self.width as nat, height: self.height as nat, pixels: self.pixels@ }
    }
}

impl Clone for RgbaCanvas {
    fn clone(&self) -> (r: Self)
        ensures
            r@ == self@,
    {
        proof {
            use_type_invariant(self);
        }
        let mut v: Vec<Pixel> = Vec::new();
        let mut k: usize = 0;
        while k < self.pixels.len()
            invariant
                k <= self.pixels.len(),
                v.len() == k,
                forall|i: int| 0 <= i < k ==> v@[i] == self.pixels@[i],
            decreases self.pixels.len() - k,
        {
            v.push(self.pixels[k]);
            k = k + 1;
        }
        assert(v@ =~= self.pixels@);
        RgbaCanvas { width: self.width, height: self.height, pixels: v }
    }
}

impl RgbaCanvas {
    #[verifier::type_invariant]
    spec fn well_formed(self) -> bool {
        self.pixels.len() == self.width * self.height
    }

    /// The number of pixels: one per column and row.
    pub fn pixel_count(&self) -> (n: usize)
        ensures
            n == self@.pixels.len(),
            n == self@.width * self@.height,
    {
        proof {
            use_type_invariant(self);
        }
        self.pixels.len()
    }

    /// A canvas of `width` by `height` pixels, all `p`.
    pub fn filled(width: u32, height: u32, p: Pixel) -> (c: Self)
        requires
            width * height <= usize::MAX,
        ensures
            c@ == filled_view(width as nat, height as nat, p),
    {
        let n: usize = (width as usize) * (height as usize);
        let mut v: Vec<Pixel> = Vec::new();
        let mut k: usize = 0;
        while k < n
            invariant
                k <= n,
                v.len() == k,
                forall|i: int| 0 <= i < k ==> v@[i] == p,
            decreases n - k,
        {
            v.push(p);
            k = k + 1;
        }
        let c = RgbaCanvas { width, height, pixels: v };
        assert(c@.pixels =~= filled_view(width as nat, height as nat, p).pixels);
        c
    }

    /// The canvas made of `pixels`, row by row, when there is exactly one per
    /// column and row.
    pub fn from_pixels(width: u32, height: u32, pixels: Vec<Pixel>) -> (c: Option<Self>)
        ensures
            c is Some <==> pixels.len() == width * height,
            c matches Some(c) ==> c@ == (CanvasView { width: width as nat, height: height as nat, pixels: pixels@ }),
    {
        proof {
            lemma_u32_product(width, height);
        }
        if (width as u64) * (height as u64) == pixels.len() as u64 {
            Some(RgbaCanvas { width, height, pixels })
        } else {
            None
        }
    }

    pub fn width(&self) -> (w: u32)
        ensures
            w == self@.width,
    {
        self.width
    }

    pub fn height(&self) -> (h: u32)
        ensures
            h == self@.height,
    {
        self.height
    }

    /// The pixels, row by row.
    pub fn pixels(&self) -> (p: &Vec<Pixel>)
        ensures
            p@ == self@.pixels,
    {
        &self.pixels
    }

    /// The pixel in column `x` of row `y`.
    pub fn get_pixel(&self, x: u32, y: u32) -> (p: Pixel)
        requires
            x < self@.width,
            y < self@.height,
        ensures
            p == pixel_at(self@, x as int, y as int),
    {
        proof {
            use_type_invariant(self);
            lemma_index_in_bounds(x as int, y as int, self.width as int, self.height as int);
        }
        let k: usize = (y as usize) * (self.width as usize) + (x as usize);
        self.pixels[k]
    }
    /// The part of the canvas whose top-left corner is column `x` of row
    /// `y`, `w` pixels wide and `h` high, cut to the part inside the canvas.
    pub fn crop(&self, x: u32, y: u32, w: u32, h: u32) -> (r: Self)
        ensures
            r@ == crop_view(self@, x as nat, y as nat, w as nat, h as nat),
    {
        proof {
            use_type_invariant(self);
        }
        let cx: u32 = if x < self.width { x } else { self.width };
        let cy: u32 = if y < self.height { y } else { self.height };
        let cw: u32 = if w < self.width - cx { w } else { self.width - cx };
        let ch: u32 = if h < self.height - cy { h } else { self.height - cy };
        let ghost src = self@;
        proof {
            lemma_sub_area(cw as nat, ch as nat, self.width as nat, self.height as nat);
        }
        let n: usize = (cw as usize) * (ch as usize);
        let mut v: Vec<Pixel> = Vec::new();
        let mut k: usize = 0;
        let mut row: u32 = 0;
        let mut col: u32 = 0;
        while k < n
            invariant
                src == self@,
                self.pixels.len() == self.width * self.height,
                cx <= self.width,
                cy <= self.height,
                cw <= self.width - cx,
                ch <= self.height - cy,
                n == cw * ch,
                k <= n,
                v.len() == k,
                k == row * cw + col,
                k < n ==> col < cw,
                forall|i: int| 0 <= i < k ==> #[trigger] v@[i] == pixel_at(src, cx + i % (cw as int), cy + i / (cw as int)),
            decreases n - k,
        {
            proof {
                lemma_row_below(k as int, cw as int, ch as int, row as int, col as int);
                lemma_flat_index(k as int, cw as int, col as int, row as int);
                lemma_index_in_bounds((cx + col) as int, (cy + row) as int, self.width as int, self.height as int);
            }
            let idx: usize = ((cy + row) as usize) * (self.width as usize) + ((cx + col) as usize);
            v.push(self.pixels[idx]);
            k = k + 1;
            if col + 1 == cw {
                col = 0;
                row = row + 1;
            } else {
                col = col + 1;
            }
            proof {
                assert(k == row * cw + col) by (nonlinear_arith)
                    requires
                        k == (if col == 0 { (row - 1) * cw + cw } else { row * cw + col }),
                ;
            }
        }
        let r = RgbaCanvas { width: cw, height: ch, pixels: v };
        assert(r@.pixels =~= crop_view(src, x as nat, y as nat, w as nat, h as nat).pixels);
        r
    }

    /// Lays `top` over the canvas with its top-left corner at column `x` of
    /// row `y`; what falls outside the canvas is dropped.
    pub fn replace(&mut self, top: &RgbaCanvas, x: i64, y: i64)
        ensures
            final(self)@ == replace_view(old(self)@, top@, x as int, y as int),
    {
        proof {
            use_type_invariant(&*self);
            use_type_invariant(top);
        }
        let ghost bottom = self@;
        let ghost over = top@;
        let n: usize = self.pixels.len();
        let bw: u32 = self.width;
        let tw: u32 = top.width;
        let th: u32 = top.height;
        proof {
            if bw == 0 {
                assert(n == 0) by (nonlinear_arith)
                    requires
                        n == bw * self.height,
                        bw == 0,
                ;
            }
        }
        let mut v: Vec<Pixel> = Vec::new();
        let mut k: usize = 0;
        let mut row: u32 = 0;
        let mut col: u32 = 0;
        while k < n
            invariant
                bottom == self@,
                over == top@,
                n == bottom.pixels.len(),
                n == self.width * self.height,
                bw == self.width,
                tw == top.width,
                th == top.height,
                top.pixels.len() == top.width * top.height,
                k <= n,
                v.len() == k,
                k == row * bw + col,
                k < n ==> col < bw,
                forall|i: int| 0 <= i < k ==> #[trigger] v@[i] == replace_view(bottom, over, x as int, y as int).pixels[i],
            decreases n - k,
        {
            proof {
                lemma_row_below(k as int, bw as int, self.height as int, row as int, col as int);
                lemma_flat_index(k as int, bw as int, col as int, row as int);
            }
            let dx: i128 = (col as i128) - (x as i128);
            let dy: i128 = (row as i128) - (y as i128);
            let p = if 0 <= dx && dx < tw as i128 && 0 <= dy && dy < th as i128 {
                proof {
                    lemma_index_in_bounds(dx as int, dy as int, tw as int, th as int);
                }
                let idx: usize = (dy as usize) * (tw as usize) + (dx as usize);
                top.pixels[idx]
            } else {
                self.pixels[k]
            };
            v.push(p);
            k = k + 1;
            if col + 1 == bw {
                col = 0;
                row = row + 1;
            } else {
                col = col + 1;
            }
            proof {
                assert(k == row * bw + col) by (nonlinear_arith)
                    requires
                        k == (if col == 0 { (row - 1) * bw + bw } else { row * bw + col }),
                ;
            }
        }
        assert(v@ =~= replace_view(bottom, over, x as int, y as int).pixels);
        self.pixels = v;
    }

    /// `img` repeated from the top-left corner over a `width` by `height`
    /// canvas; all black when `img` has no pixels.
    pub fn tiled(img: &RgbaCanvas, width: u32, height: u32) -> (r: Self)
        requires
            width * height <= usize::MAX,
        ensures
            r@ == tile_view(img@, width as nat, height as nat),
    {
        proof {
            use_type_invariant(img);
        }
        let w = img.width;
        let h = img.height;
        if w == 0 || h == 0 {
            return Self::filled(width, height, black_pixel());
        }
        let ghost src = img@;
        let n: usize = (width as usize) * (height as usize);
        proof {
            if width == 0 {
                assert(n == 0) by (nonlinear_arith)
                    requires
                        n == width * height,
                        width == 0,
                ;
            }
        }
        let mut v: Vec<Pixel> = Vec::new();
        let mut k: usize = 0;
        let mut row: u32 = 0;
        let mut col: u32 = 0;
        while k < n
            invariant
                src == img@,
                img.pixels.len() == img.width * img.height,
                w == img.width,
                h == img.height,
                w > 0,
                h > 0,
                n == width * height,
                k <= n,
                v.len() == k,
                k == row * width + col,
                k < n ==> col < width,
                forall|i: int| 0 <= i < k ==> #[trigger] v@[i] == pixel_at(src, (i % (width as int)) % (w as int), (i / (width as int)) % (h as int)),
            decreases n - k,
        {
            proof {
                lemma_row_below(k as int, width as int, height as int, row as int, col as int);
                lemma_flat_index(k as int, width as int, col as int, row as int);
                lemma_index_in_bounds((col % w) as int, (row % h) as int, w as int, h as int);
            }
            let idx: usize = ((row % h) as usize) * (w as usize) + ((col % w) as usize);
            v.push(img.pixels[idx]);
            k = k + 1;
            if col + 1 == width {
                col = 0;
                row = row + 1;
            } else {
                col = col + 1;
            }
            proof {
                assert(k == row * width + col) by (nonlinear_arith)
                    requires
                        k == (if col == 0 { (row - 1) * width + width } else { row * width + col }),
                ;
            }
        }
        let r = RgbaCanvas { width, height, pixels: v };
        assert(r@.pixels =~= tile_view(src, width as nat, height as nat).pixels);
        r
    }
}

// ── XRGB8888 upload ──────────────────────────────────────────────────────────

/// The number of pixels `blit_frame` writes: `width * height`, but no more
/// than the image holds, nor than fit whole into the buffer.
pub open spec fn blit_count(buf_len: nat, img_len: nat, width: nat, height: nat) -> nat {
    min_nat(min_nat(width * height, img_len), buf_len / 4)
}

/// Byte `i` of a buffer holding pixel `p` in XRGB8888 order, little-endian:
/// blue, green, red, then an unused byte written as 0.
pub open spec fn xrgb_byte(p: Pixel, i: int) -> u8 {
    if i % 4 == 0 {
        p.b
    } else if i % 4 == 1 {
        p.g
    } else if i % 4 == 2 {
        p.r
    } else {
        0
    }
}

/// `buf` after its first `count` pixels are overwritten with the first
/// `count` pixels of `img` in XRGB8888 order; the bytes after them stay.
pub open spec fn xrgb_written(buf: Seq<u8>, img: Seq<Pixel>, count: nat) -> Seq<u8> {
    Seq::new(buf.len(), |i: int| if i < 4 * count { xrgb_byte(img[i / 4], i) } else { buf[i] })
}

/// Copies a `width` by `height` frame into a shared-memory buffer in
/// XRGB8888 byte order, stopping where the image or the buffer ends.
pub fn blit_frame(canvas: &mut [u8], image: &RgbaCanvas, width: u32, height: u32)
    requires
        width * height <= u32::MAX,
    ensures
        final(canvas)@ == xrgb_written(old(canvas)@, image@.pixels, blit_count(old(canvas)@.len(), image@.pixels.len(), width as nat, height as nat)),
{
    let pixels = image.pixels();
    let ghost before = canvas@;
    let chunk_count: u32 = width * height;
    let mut count: usize = chunk_count as usize;
    if pixels.len() < count {
        count = pixels.len();
    }
    if canvas.len() / 4 < count {
        count = canvas.len() / 4;
    }
    let clen: usize = canvas.len();
    assert(count * 4 <= before.len());
    let mut i: usize = 0;
    while i < count
        invariant
            clen == before.len(),
            count * 4 <= before.len(),
            count == blit_count(before.len(), pixels@.len(), width as nat, height as nat),
            pixels@ == image@.pixels,
            canvas@.len() == before.len(),
            i <= count,
            forall|j: int| 0 <= j < canvas@.len() ==> #[trigger] canvas@[j] == (if j < 4 * i { xrgb_byte(pixels@[j / 4], j) } else { before[j] }),
        decreases count - i,
    {
        let p = pixels[i];
        let off: usize = i * 4;
        canvas[off] = p.b;
        canvas[off + 1] = p.g;
        canvas[off + 2] = p.r;
        canvas[off + 3] = 0;
        proof {
            assert forall|j: int| 0 <= j < canvas@.len() implies #[trigger] canvas@[j] == (if j < 4 * (i + 1) { xrgb_byte(pixels@[j / 4], j) } else { before[j] }) by {
                if off <= j < off + 4 {
                    lemma_flat_index(j, 4, j - off, i as int);
                }
            }
        }
        i = i + 1;
    }
    assert(canvas@ =~= xrgb_written(before, image@.pixels, count as nat));
}

} // verus!
