//! RGBA images as plain bytes: cropping, copying onto, blending onto, and
//! PNG reading and writing.
use vstd::prelude::*;

use vstd::arithmetic::div_mod::{lemma_fundamental_div_mod, lemma_remainder};
use vstd::arithmetic::mul::{lemma_mul_inequality, lemma_mul_is_commutative};

verus! {

/// An image as values: its size and its pixels, four bytes (red, green, blue,
/// alpha) per pixel, row by row.
pub struct RasterView {
    pub width: nat,
    pub height: nat,
    pub pixels: Seq<u8>,
}

/// An RGBA image with 8 bits per channel.
#[derive(Debug, PartialEq, Eq)]
pub struct Raster {
    pub width: u32,
    pub height: u32,
    pub pixels: Vec<u8>,
}

impl View for Raster {
    type V = RasterView;

    open spec fn view(&self) -> RasterView {
        RasterView { width: self.width as nat, height: self.height as nat, pixels: self.pixels@ }
    }
}

/// The pixel bytes are exactly four per pixel.
pub open spec fn well_formed(img: RasterView) -> bool {
    img.pixels.len() == img.width * img.height * 4
}

impl Raster {
    /// The pixel bytes are exactly four per pixel.
    pub open spec fn wf(&self) -> bool {
        well_formed(self@)
    }
}

/// The column of byte `i` in an image of width `w`.
pub open spec fn column_of(i: int, w: nat) -> int {
    (i / 4) % (w as int)
}

/// The row of byte `i` in an image of width `w`.
pub open spec fn row_of(i: int, w: nat) -> int {
    (i / 4) / (w as int)
}

/// The byte of channel `c` of the pixel at column `x` and row `y`.
pub open spec fn byte_index(x: int, y: int, c: int, w: nat) -> int {
    (y * w + x) * 4 + c
}

/// The part of an image at column `x`, row `y`, `w` columns wide and `h` rows high.
pub open spec fn cropped(img: RasterView, x: nat, y: nat, w: nat, h: nat) -> RasterView {
    RasterView {
        width: w,
        height: h,
        pixels: Seq::new(
            w * h * 4,
            |i: int| img.pixels[byte_index(x + column_of(i, w), y + row_of(i, w), i % 4, img.width)],
        ),
    }
}

/// Whether the pixel at column `col`, row `row` lies under an image of size
/// `w` by `h` placed at column `x`, row `y`.
pub open spec fn covered(col: int, row: int, x: nat, y: nat, w: nat, h: nat) -> bool {
    x <= col < x + w && y <= row < y + h
}

/// `bottom` with `top` copied onto it at column `x`, row `y`, replacing the
/// pixels there; the parts of `top` that stick out are left out.
pub open spec fn replaced(bottom: RasterView, top: RasterView, x: nat, y: nat) -> RasterView {
    RasterView {
        width: bottom.width,
        height: bottom.height,
        pixels: Seq::new(
            bottom.pixels.len(),
            |i: int|
                {
                    let col = column_of(i, bottom.width);
                    let row = row_of(i, bottom.width);
                    if covered(col, row, x, y, top.width, top.height) {
                        top.pixels[byte_index(col - x, row - y, i % 4, top.width)]
                    } else {
                        bottom.pixels[i]
                    }
                },
        ),
    }
}

/// An image of the given size with every byte zero (transparent black).
pub open spec fn blank(w: nat, h: nat) -> RasterView {
    RasterView { width: w, height: h, pixels: Seq::new(w * h * 4, |i: int| 0u8) }
}

/// What `image::imageops::overlay` makes of the pixels of `bottom` when it
/// blends `top` onto it at column `x`, row `y`.
pub uninterp spec fn image_overlay(bottom: RasterView, top: RasterView, x: i64, y: i64) -> Seq<u8>;

/// What the `image` crate reads from PNG bytes, as RGBA with 8 bits per
/// channel; `None` where it refuses the bytes.
pub uninterp spec fn png_decoding(bytes: Seq<u8>) -> Option<RasterView>;

/// What the `image` crate's PNG encoder writes for an RGBA image with best
/// compression and adaptive filtering; `None` where it fails.
pub uninterp spec fn png_encoding(img: RasterView) -> Option<Seq<u8>>;

/// The largest pixel data for which reading back a written PNG is claimed:
/// the `image` crate's default allocation limit of 512 MiB, against which its
/// PNG reader checks the decoded RGBA bytes.
pub open spec fn small_enough_to_reread(img: RasterView) -> bool {
    img.pixels.len() <= 0x2000_0000
}

/// Whether the pixel at column `col`, row `row` lies under an image of size
/// `w` by `h` placed at column `x`, row `y`, where `x` and `y` may be negative.
pub open spec fn under(col: int, row: int, x: int, y: int, w: nat, h: nat) -> bool {
    x <= col < x + w && y <= row < y + h
}

/// The bytes of `bottom` with `top` alpha blended onto it at column `x`, row
/// `y`, as far as they are known without the blend's arithmetic: a pixel that
/// `top` does not cover, or covers with a fully transparent pixel, keeps its
/// bytes; one that `top` covers with a fully opaque pixel takes that pixel's
/// bytes; any other covered pixel has the bytes that `image_overlay` names.
pub open spec fn blended(bottom: RasterView, top: RasterView, x: i64, y: i64) -> Seq<u8> {
    Seq::new(
        bottom.pixels.len(),
        |i: int|
            {
                let col = column_of(i, bottom.width);
                let row = row_of(i, bottom.width);
                let alpha = top.pixels[byte_index(col - x, row - y, 3, top.width)];
                if !under(col, row, x as int, y as int, top.width, top.height) || alpha == 0 {
                    bottom.pixels[i]
                } else if alpha == 255 {
                    top.pixels[byte_index(col - x, row - y, i % 4, top.width)]
                } else {
                    image_overlay(bottom, top, x, y)[i]
                }
            },
    )
}

/// Byte `i` of an image lies at a column and row inside it.
pub proof fn lemma_pixel_position(i: int, w: int, h: int)
    requires
        0 <= i < w * h * 4,
        w > 0,
    ensures
        0 <= (i / 4) % w < w,
        0 <= (i / 4) / w < h,
        0 <= i % 4 < 4,
        i == (((i / 4) / w) * w + (i / 4) % w) * 4 + i % 4,
{
    let p = i / 4;
    lemma_fundamental_div_mod(i, 4);
    lemma_remainder(i, 4);
    lemma_fundamental_div_mod(p, w);
    lemma_remainder(p, w);
    assert(p < w * h) by (nonlinear_arith)
        requires
            i == 4 * p + i % 4,
            0 <= i % 4 < 4,
            i < w * h * 4,
    ;
    let row = p / w;
    assert(row < h) by (nonlinear_arith)
        requires
            p == w * row + p % w,
            0 <= p % w,
            p < w * h,
            w > 0,
    ;
    assert(row >= 0) by (nonlinear_arith)
        requires
            p == w * row + p % w,
            p % w < w,
            p >= 0,
            w > 0,
    ;
    lemma_mul_is_commutative(w, row);
}

/// The byte of a pixel inside an image lies inside its pixel data.
pub proof fn lemma_index_in_bounds(col: int, row: int, c: int, w: int, h: int)
    requires
        0 <= col < w,
        0 <= row < h,
        0 <= c < 4,
    ensures
        0 <= (row * w + col) * 4 + c < w * h * 4,
{
    lemma_mul_inequality(row + 1, h, w);
    assert(0 <= row * w) by (nonlinear_arith)
        requires
            0 <= row,
            0 <= col < w,
    ;
    assert((row + 1) * w == row * w + w) by (nonlinear_arith);
    lemma_mul_is_commutative(h, w);
}

impl Raster {
    /// An image of the given size with every byte zero, as `RgbaImage::new` makes it.
    pub fn blank(width: u32, height: u32) -> (res: Raster)
        requires
            width * height * 4 <= usize::MAX,
        ensures
            res.wf(),
            res@ == blank(width as nat, height as nat),
    {
        let n: usize = (width as usize) * (height as usize) * 4;
        let mut pixels: Vec<u8> = Vec::new();
        let mut i: usize = 0;
        while i < n
            invariant
                i <= n,
                n == width * height * 4,
                pixels@.len() == i,
                forall|j: int| 0 <= j < i ==> pixels@[j] == 0u8,
            decreases n - i,
        {
            pixels.push(0u8);
            i = i + 1;
        }
        let res = Raster { width, height, pixels };
        assert(res@.pixels =~= blank(width as nat, height as nat).pixels);
        res
    }

    /// The part at column `x`, row `y`, `w` columns wide and `h` rows high, as
    /// `view(x, y, w, h).to_image()` gives it. The part must lie inside the
    /// image (`view` panics otherwise).
    pub fn crop(&self, x: u32, y: u32, w: u32, h: u32) -> (res: Raster)
        requires
            self.wf(),
            x + w <= self.width,
            y + h <= self.height,
        ensures
            res.wf(),
            res@ == cropped(self@, x as nat, y as nat, w as nat, h as nat),
    {
        let ghost img = self@;
        let total = self.pixels.len();
        proof {
            assert(w * h <= self.width * self.height) by (nonlinear_arith)
                requires
                    w <= self.width,
                    h <= self.height,
            ;
        }
        let n: usize = (w as usize) * (h as usize) * 4;
        let mut pixels: Vec<u8> = Vec::new();
        let mut i: usize = 0;
        while i < n
            invariant
                self.wf(),
                img == self@,
                total == self.pixels@.len(),
                x + w <= self.width,
                y + h <= self.height,
                i <= n,
                n == w * h * 4,
                pixels@.len() == i,
                forall|j: int|
                    0 <= j < i ==> pixels@[j] == img.pixels[byte_index(
                        x + column_of(j, w as nat),
                        y + row_of(j, w as nat),
                        j % 4,
                        img.width,
                    )],
            decreases n - i,
        {
            proof {
                lemma_pixel_position(i as int, w as int, h as int);
            }
            let p = i / 4;
            let col = p % (w as usize);
            let row = p / (w as usize);
            proof {
                lemma_index_in_bounds(
                    x + col,
                    y + row,
                    (i % 4) as int,
                    self.width as int,
                    self.height as int,
                );
            }
            let src = ((y as usize + row) * (self.width as usize) + x as usize + col) * 4 + i % 4;
            pixels.push(self.pixels[src]);
            i = i + 1;
        }
        let res = Raster { width: w, height: h, pixels };
        assert(res@.pixels =~= cropped(img, x as nat, y as nat, w as nat, h as nat).pixels);
        res
    }

    /// Copies `top` onto this image at column `x`, row `y`, replacing the
    /// pixels there, as `image::imageops::replace` does; the parts of `top`
    /// that stick out are left out.
    pub fn replace(&mut self, top: &Raster, x: u32, y: u32)
        requires
            old(self).wf(),
            top.wf(),
        ensures
            final(self).wf(),
            final(self)@ == replaced(old(self)@, top@, x as nat, y as nat),
    {
        let ghost bottom = self@;
        let ghost t = top@;
        let n: usize = self.pixels.len();
        let bw = self.width as usize;
        let tn = top.pixels.len();
        let mut pixels: Vec<u8> = Vec::new();
        let mut i: usize = 0;
        while i < n
            invariant
                self.wf(),
                top.wf(),
                bottom == self@,
                t == top@,
                tn == top.pixels@.len(),
                n == self.pixels@.len(),
                bw == self.width,
                i <= n,
                pixels@.len() == i,
                forall|j: int|
                    0 <= j < i ==> pixels@[j] == replaced(bottom, t, x as nat, y as nat).pixels[j],
            decreases n - i,
        {
            proof {
                assert(self.width > 0) by (nonlinear_arith)
                    requires
                        i < n,
                        n == self.width * self.height * 4,
                ;
                lemma_pixel_position(i as int, self.width as int, self.height as int);
            }
            let p = i / 4;
            let col = p % bw;
            let row = p / bw;
            let byte = if x as usize <= col && col - (x as usize) < top.width as usize && y as usize
                <= row && row - (y as usize) < top.height as usize {
                proof {
                    lemma_index_in_bounds(
                        col - x,
                        row - y,
                        (i % 4) as int,
                        top.width as int,
                        top.height as int,
                    );
                }
                top.pixels[((row - y as usize) * (top.width as usize) + (col - x as usize)) * 4 + i
                    % 4]
            } else {
                self.pixels[i]
            };
            pixels.push(byte);
            i = i + 1;
        }
        self.pixels = pixels;
        assert(self@.pixels =~= replaced(bottom, t, x as nat, y as nat).pixels);
    }
}

/// Blends `top` onto `bottom` at column `x`, row `y`, as
/// `image::imageops::overlay` does (alpha blending; the parts of `top` that
/// stick out are left out).
///
/// Trusted: builds `RgbaImage`s of the bytes with `ImageBuffer::from_raw`
/// (which accepts them, since each holds four bytes per pixel), calls
/// `overlay`, and takes the bytes back with `into_raw`. The contract names
/// the resulting bytes and claims that the size, and so the byte count, stay.
/// It also claims that those bytes are `blended`, as the source shows: `overlay`
/// visits only the pixels of `bottom` under `top` (clipped by
/// `overlay_bounds_ext`, the top pixel at the same offset) and calls
/// `Rgba::blend` on each, which returns at once for a top alpha of 0 and copies
/// the top pixel for a top alpha of 255. What the floating-point blend gives
/// for other alphas is left to the name.
#[verifier::external_body]
pub(crate) fn overlay(bottom: &mut Raster, top: &Raster, x: i64, y: i64)
    requires
        old(bottom).wf(),
        top.wf(),
    ensures
        final(bottom).width == old(bottom).width,
        final(bottom).height == old(bottom).height,
        final(bottom).wf(),
        final(bottom)@.pixels == image_overlay(old(bottom)@, top@, x, y),
        final(bottom)@.pixels == blended(old(bottom)@, top@, x, y),
{
    let mut b = image::RgbaImage::from_raw(bottom.width, bottom.height, std::mem::take(&mut bottom.pixels)).unwrap();
    let t = image::RgbaImage::from_raw(top.width, top.height, top.pixels.clone()).unwrap();
    image::imageops::overlay(&mut b, &t, x, y);
    bottom.pixels = b.into_raw();
}

/// Reads PNG bytes as an RGBA image.
///
/// Trusted: calls `image::load_from_memory_with_format` with
/// `ImageFormat::Png` and converts the image with `to_rgba8`. The contract
/// names the result; the `image` crate keeps four bytes per pixel. The text of
/// the error is not stated.
#[verifier::external_body]
pub(crate) fn decode_png(bytes: &[u8]) -> (res: Result<Raster, String>)
    ensures
        match res {
            Ok(img) => img.wf() && png_decoding(bytes@) == Some(img@),
            Err(_) => png_decoding(bytes@) is None,
        },
{
    match image::load_from_memory_with_format(bytes, image::ImageFormat::Png) {
        Ok(img) => {
            let rgba = img.to_rgba8();
            Ok(Raster { width: rgba.width(), height: rgba.height(), pixels: rgba.into_raw() })
        },
        Err(e) => Err(e.to_string()),
    }
}

/// Writes an RGBA image as PNG with the best compression and adaptive filtering.
///
/// Trusted: builds an `RgbaImage` with `ImageBuffer::from_raw` (which accepts
/// well-formed pixel data), and writes it with
/// `PngEncoder::new_with_quality(.., CompressionType::Best, FilterType::Adaptive)`
/// through `DynamicImage::write_with_encoder`. The contract names the bytes,
/// and claims that PNG, being lossless, is read back by `decode_png` as the
/// same image, for images whose RGBA bytes are within the reader's default
/// allocation limit (`small_enough_to_reread`); beyond it the reader refuses.
/// It also claims success for every image with at least one column and one
/// row: the `png` encoder refuses only a zero width or height, and writing to
/// a `Vec` does not fail. The text of the error is not stated.
#[verifier::external_body]
pub(crate) fn encode_png(img: &Raster) -> (res: Result<Vec<u8>, String>)
    requires
        img.wf(),
    ensures
        match res {
            Ok(bytes) => png_encoding(img@) == Some(bytes@) && (small_enough_to_reread(img@)
                ==> png_decoding(bytes@) == Some(img@)),
            Err(_) => png_encoding(img@) is None,
        },
        img.width > 0 && img.height > 0 ==> res is Ok,
{
    let buffer = image::RgbaImage::from_raw(img.width, img.height, img.pixels.clone()).unwrap();
    let mut out: Vec<u8> = Vec::new();
    let encoder = image::codecs::png::PngEncoder::new_with_quality(
        std::io::Cursor::new(&mut out),
        image::codecs::png::CompressionType::Best,
        image::codecs::png::FilterType::Adaptive,
    );
    match image::DynamicImage::ImageRgba8(buffer).write_with_encoder(encoder) {
        Ok(()) => Ok(out),
        Err(e) => Err(e.to_string()),
    }
}

} // verus!
