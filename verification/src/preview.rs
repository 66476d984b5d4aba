//! The preview of a texture: for skins, the front of the figure, cut out of
//! the skin image and put together on a transparent canvas.
use vstd::prelude::*;

use vstd::arithmetic::div_mod::lemma_fundamental_div_mod;
use vstd::arithmetic::mul::lemma_mul_inequality;

use crate::app_error::AppError;
use crate::raster::{
    blank, blended, column_of, cropped, decode_png, encode_png, overlay, png_decoding, png_encoding,
    replaced, row_of, small_enough_to_reread, Raster, RasterView,
};
use crate::textures::{Blob, Texture, TextureType, TextureView};

verus! {

/// One step of a preview: the part of the skin at (`src_x`, `src_y`), `width`
/// by `height`, put at (`dst_x`, `dst_y`) on the canvas, blended (`blend`) or
/// replacing what is there. All measures are in units of the skin's scale
/// (its width divided by 64).
#[derive(Debug, Clone, Copy, PartialEq, Eq, Structural)]
pub struct Blit {
    pub src_x: u32,
    pub src_y: u32,
    pub width: u32,
    pub height: u32,
    pub dst_x: u32,
    pub dst_y: u32,
    pub blend: bool,
}

/// The steps of the preview. A square skin (`square`) has a separate left arm
/// and leg and a second layer for every part; an older skin, twice as wide as
/// high, mirrors the right arm and leg and has a second layer for the head only.
pub open spec fn preview_plan(square: bool) -> Seq<Blit> {
    if square {
        seq![
            Blit { src_x: 8, src_y: 8, width: 8, height: 8, dst_x: 4, dst_y: 0, blend: false },
            Blit { src_x: 4, src_y: 20, width: 4, height: 12, dst_x: 4, dst_y: 20, blend: false },
            Blit { src_x: 20, src_y: 52, width: 4, height: 12, dst_x: 8, dst_y: 20, blend: false },
            Blit { src_x: 44, src_y: 20, width: 4, height: 12, dst_x: 0, dst_y: 8, blend: false },
            Blit { src_x: 36, src_y: 52, width: 4, height: 12, dst_x: 12, dst_y: 8, blend: false },
            Blit { src_x: 20, src_y: 20, width: 8, height: 12, dst_x: 4, dst_y: 8, blend: false },
            Blit { src_x: 40, src_y: 8, width: 8, height: 8, dst_x: 4, dst_y: 0, blend: true },
            Blit { src_x: 4, src_y: 36, width: 4, height: 12, dst_x: 4, dst_y: 20, blend: true },
            Blit { src_x: 4, src_y: 52, width: 4, height: 12, dst_x: 8, dst_y: 20, blend: true },
            Blit { src_x: 44, src_y: 36, width: 4, height: 12, dst_x: 0, dst_y: 8, blend: true },
            Blit { src_x: 52, src_y: 52, width: 4, height: 12, dst_x: 12, dst_y: 8, blend: true },
            Blit { src_x: 20, src_y: 36, width: 8, height: 12, dst_x: 4, dst_y: 8, blend: true },
        ]
    } else {
        seq![
            Blit { src_x: 8, src_y: 8, width: 8, height: 8, dst_x: 4, dst_y: 0, blend: false },
            Blit { src_x: 4, src_y: 20, width: 4, height: 12, dst_x: 4, dst_y: 20, blend: false },
            Blit { src_x: 4, src_y: 20, width: 4, height: 12, dst_x: 8, dst_y: 20, blend: false },
            Blit { src_x: 44, src_y: 20, width: 4, height: 12, dst_x: 0, dst_y: 8, blend: false },
            Blit { src_x: 44, src_y: 20, width: 4, height: 12, dst_x: 12, dst_y: 8, blend: false },
            Blit { src_x: 20, src_y: 20, width: 8, height: 12, dst_x: 4, dst_y: 8, blend: false },
            Blit { src_x: 40, src_y: 8, width: 8, height: 8, dst_x: 4, dst_y: 0, blend: true },
        ]
    }
}

/// The rows of a skin that the steps read: 64 units for a square skin, 32 for an older one.
pub open spec fn source_rows(square: bool) -> nat {
    if square {
        64
    } else {
        32
    }
}

/// A step reads inside a skin 64 units wide and `rows` high, and writes inside
/// the figure's area of 16 by 32 units at the top left of the canvas.
pub open spec fn blit_fits(b: Blit, rows: nat) -> bool {
    &&& b.src_x + b.width <= 64
    &&& b.src_y + b.height <= rows
    &&& b.dst_x + b.width <= 16
    &&& b.dst_y + b.height <= 32
}

/// The canvas after one step, for a skin of scale `f`.
pub open spec fn apply_blit(canvas: RasterView, skin: RasterView, b: Blit, f: nat) -> RasterView {
    let piece = cropped(
        skin,
        (b.src_x * f) as nat,
        (b.src_y * f) as nat,
        (b.width * f) as nat,
        (b.height * f) as nat,
    );
    if b.blend {
        RasterView { pixels: blended(canvas, piece, (b.dst_x * f) as i64, (b.dst_y * f) as i64), ..canvas }
    } else {
        replaced(canvas, piece, (b.dst_x * f) as nat, (b.dst_y * f) as nat)
    }
}

/// The canvas after the steps, in their order.
pub open spec fn apply_blits(canvas: RasterView, skin: RasterView, plan: Seq<Blit>, f: nat) -> RasterView
    decreases plan.len(),
{
    if plan.len() == 0 {
        canvas
    } else {
        apply_blit(apply_blits(canvas, skin, plan.drop_last(), f), skin, plan.last(), f)
    }
}

/// The scale of a skin: its width in units of 64 pixels.
pub open spec fn scale_of(skin: RasterView) -> nat {
    skin.width / 64
}

/// A skin is square where its width divided by its height is one.
pub open spec fn is_square(skin: RasterView) -> bool {
    skin.width / skin.height == 1
}

/// The skin is high enough for the parts that its layout reads (where it is
/// not, the layout would read rows outside the image).
pub open spec fn preview_fits(skin: RasterView) -> bool {
    skin.height > 0 && source_rows(is_square(skin)) * scale_of(skin) <= skin.height
}

/// The preview of a skin: a canvas of 18 by 34 units with the steps applied.
pub open spec fn skin_preview(skin: RasterView) -> RasterView {
    let f = scale_of(skin);
    apply_blits(blank(18 * f, 34 * f), skin, preview_plan(is_square(skin)), f)
}

/// The steps of the preview, as values.
pub fn skin_preview_plan(square: bool) -> (res: Vec<Blit>)
    ensures
        res@ == preview_plan(square),
        forall|i: int| 0 <= i < res@.len() ==> blit_fits(#[trigger] res@[i], source_rows(square)),
{
    let mut v: Vec<Blit> = Vec::new();
    if square {
        v.push(Blit { src_x: 8, src_y: 8, width: 8, height: 8, dst_x: 4, dst_y: 0, blend: false });
        v.push(Blit { src_x: 4, src_y: 20, width: 4, height: 12, dst_x: 4, dst_y: 20, blend: false });
        v.push(Blit { src_x: 20, src_y: 52, width: 4, height: 12, dst_x: 8, dst_y: 20, blend: false });
        v.push(Blit { src_x: 44, src_y: 20, width: 4, height: 12, dst_x: 0, dst_y: 8, blend: false });
        v.push(Blit { src_x: 36, src_y: 52, width: 4, height: 12, dst_x: 12, dst_y: 8, blend: false });
        v.push(Blit { src_x: 20, src_y: 20, width: 8, height: 12, dst_x: 4, dst_y: 8, blend: false });
        v.push(Blit { src_x: 40, src_y: 8, width: 8, height: 8, dst_x: 4, dst_y: 0, blend: true });
        v.push(Blit { src_x: 4, src_y: 36, width: 4, height: 12, dst_x: 4, dst_y: 20, blend: true });
        v.push(Blit { src_x: 4, src_y: 52, width: 4, height: 12, dst_x: 8, dst_y: 20, blend: true });
        v.push(Blit { src_x: 44, src_y: 36, width: 4, height: 12, dst_x: 0, dst_y: 8, blend: true });
        v.push(Blit { src_x: 52, src_y: 52, width: 4, height: 12, dst_x: 12, dst_y: 8, blend: true });
        v.push(Blit { src_x: 20, src_y: 36, width: 8, height: 12, dst_x: 4, dst_y: 8, blend: true });
    } else {
        v.push(Blit { src_x: 8, src_y: 8, width: 8, height: 8, dst_x: 4, dst_y: 0, blend: false });
        v.push(Blit { src_x: 4, src_y: 20, width: 4, height: 12, dst_x: 4, dst_y: 20, blend: false });
        v.push(Blit { src_x: 4, src_y: 20, width: 4, height: 12, dst_x: 8, dst_y: 20, blend: false });
        v.push(Blit { src_x: 44, src_y: 20, width: 4, height: 12, dst_x: 0, dst_y: 8, blend: false });
        v.push(Blit { src_x: 44, src_y: 20, width: 4, height: 12, dst_x: 12, dst_y: 8, blend: false });
        v.push(Blit { src_x: 20, src_y: 20, width: 8, height: 12, dst_x: 4, dst_y: 8, blend: false });
        v.push(Blit { src_x: 40, src_y: 8, width: 8, height: 8, dst_x: 4, dst_y: 0, blend: true });
    }
    assert(v@ =~= preview_plan(square));
    v
}

/// A step of a fitting plan reads inside the skin and its measures fit in a `u32`.
proof fn lemma_blit_bounds(b: Blit, square: bool, f: nat, w: nat, h: nat)
    requires
        blit_fits(b, source_rows(square)),
        64 * f <= w,
        source_rows(square) * f <= h,
        w <= u32::MAX,
    ensures
        b.src_x * f + b.width * f <= w,
        b.src_y * f + b.height * f <= h,
        b.dst_x * f + b.width * f <= 18 * f,
        b.dst_y * f + b.height * f <= 34 * f,
        34 * f <= u32::MAX,
{
    lemma_mul_inequality(b.src_x + b.width, 64, f as int);
    lemma_mul_inequality(b.src_y + b.height, source_rows(square) as int, f as int);
    lemma_mul_inequality(b.dst_x + b.width, 18, f as int);
    lemma_mul_inequality(b.dst_y + b.height, 34, f as int);
    assert((b.src_x + b.width) * f == b.src_x * f + b.width * f) by (nonlinear_arith);
    assert((b.src_y + b.height) * f == b.src_y * f + b.height * f) by (nonlinear_arith);
    assert((b.dst_x + b.width) * f == b.dst_x * f + b.width * f) by (nonlinear_arith);
    assert((b.dst_y + b.height) * f == b.dst_y * f + b.height * f) by (nonlinear_arith);
}

/// Renders the preview of a skin (see `skin_preview`). The skin must be high
/// enough for its layout (`preview_fits`).
pub fn render_skin_preview(skin: &Raster) -> (res: Raster)
    requires
        skin.wf(),
        preview_fits(skin@),
    ensures
        res.wf(),
        res@ == skin_preview(skin@),
{
    let ghost img = skin@;
    let total = skin.pixels.len();
    let f: u32 = skin.width / 64;
    let square = skin.width / skin.height == 1;
    let ghost rows = source_rows(square);
    proof {
        lemma_fundamental_div_mod(skin.width as int, 64);
        assert(64 * f <= skin.width);
        assert(18 * f * (34 * f) * 4 <= skin.width * skin.height * 4) by (nonlinear_arith)
            requires
                64 * f <= skin.width,
                32 * f <= skin.height,
        ;
    }
    let mut canvas = Raster::blank(18 * f, 34 * f);
    let ghost start = canvas@;
    let plan = skin_preview_plan(square);
    let mut k: usize = 0;
    while k < plan.len()
        invariant
            skin.wf(),
            img == skin@,
            total == skin.pixels@.len(),
            f == scale_of(img),
            square == is_square(img),
            rows == source_rows(square),
            64 * f <= skin.width,
            rows * f <= skin.height,
            plan@ == preview_plan(square),
            forall|i: int| 0 <= i < plan@.len() ==> blit_fits(#[trigger] plan@[i], rows),
            start == blank((18 * f) as nat, (34 * f) as nat),
            k <= plan@.len(),
            canvas.wf(),
            canvas@ == apply_blits(start, img, plan@.take(k as int), f as nat),
        decreases plan@.len() - k,
    {
        let b = plan[k];
        proof {
            lemma_blit_bounds(b, square, f as nat, skin.width as nat, skin.height as nat);
            assert(plan@.take(k + 1).drop_last() =~= plan@.take(k as int));
        }
        let piece = skin.crop(b.src_x * f, b.src_y * f, b.width * f, b.height * f);
        if b.blend {
            overlay(&mut canvas, &piece, (b.dst_x * f) as i64, (b.dst_y * f) as i64);
        } else {
            canvas.replace(&piece, b.dst_x * f, b.dst_y * f);
        }
        k = k + 1;
    }
    assert(plan@.take(plan@.len() as int) =~= plan@);
    canvas
}

/// The image that the preview of a texture shows: its own image, and for a
/// skin the skin's preview; `None` where the image is not a PNG or a skin is
/// not high enough for its layout.
pub open spec fn preview_image(t: TextureView) -> Option<RasterView> {
    match png_decoding(t.image_data) {
        None => None,
        Some(img) => if t.texture_type != TextureType::Skin {
            Some(img)
        } else if !preview_fits(img) {
            None
        } else {
            Some(skin_preview(img))
        },
    }
}

/// What the preview of a texture is: the PNG of its preview image; `None`
/// where there is no preview image or the encoder fails.
pub open spec fn preview_outcome(t: TextureView) -> Option<Seq<u8>> {
    match preview_image(t) {
        None => None,
        Some(out) => png_encoding(out),
    }
}

/// What compressing image data gives: the PNG, with best compression, of the
/// image that it holds; `None` where it is not a PNG or the encoder fails.
pub open spec fn compressed(data: Seq<u8>) -> Option<Seq<u8>> {
    match png_decoding(data) {
        Some(img) => png_encoding(img),
        None => None,
    }
}

impl Texture {
    /// Rewrites the image data as PNG with the best (lossless) compression.
    /// Where the data is not a PNG, or the encoder fails, the texture stays as
    /// it was and the error is answered; the encoder does not fail on an image
    /// with at least one pixel.
    pub fn compress(&mut self) -> (res: Result<(), AppError>)
        ensures
            compressed(old(self)@.image_data) matches Some(d) ==> res is Ok && final(self)@ == (
            TextureView { image_data: d, ..old(self)@ }),
            compressed(old(self)@.image_data) is None ==> (res matches Err(e) && e is Other)
                && final(self)@ == old(self)@,
            res is Ok && (png_decoding(old(self)@.image_data) matches Some(img)
                && small_enough_to_reread(img)) ==> png_decoding(final(self)@.image_data)
                == png_decoding(old(self)@.image_data),
            png_decoding(old(self)@.image_data) matches Some(img) ==> (img.width > 0 && img.height
                > 0 ==> res is Ok),
    {
        let img = match decode_png(self.image_data.0.as_slice()) {
            Ok(img) => img,
            Err(msg) => return Err(AppError::Other(msg)),
        };
        let bytes = match encode_png(&img) {
            Ok(bytes) => bytes,
            Err(msg) => return Err(AppError::Other(msg)),
        };
        self.image_data = Blob(bytes);
        Ok(())
    }

    /// The preview image as PNG (see `preview_outcome`), which reads back as
    /// the preview image (`preview_image`) wherever that is within the PNG
    /// reader's allocation limit. Where the image is not a PNG, the encoder
    /// fails, or a skin is too low for its layout, the error is answered as
    /// `Other`; the encoder does not fail on a preview image with at least one
    /// pixel.
    pub fn get_preview(&self) -> (res: Result<Blob, AppError>)
        ensures
            res matches Ok(b) ==> preview_outcome(self@) == Some(b@),
            res matches Ok(b) ==> (preview_image(self@) matches Some(out) ==> (
            small_enough_to_reread(out) ==> png_decoding(b@) == Some(out))),
            preview_image(self@) matches Some(out) ==> (out.width > 0 && out.height > 0 ==> res is Ok),
            res matches Err(e) ==> preview_outcome(self@) is None && e is Other,
    {
        let img = match decode_png(self.image_data.0.as_slice()) {
            Ok(img) => img,
            Err(msg) => return Err(AppError::Other(msg)),
        };
        let output = if self.texture_type != TextureType::Skin {
            img
        } else {
            if img.height == 0 {
                return Err(AppError::Other("skin image has no rows".to_owned()));
            }
            let f = img.width / 64;
            let rows: u64 = if img.width / img.height == 1 {
                64
            } else {
                32
            };
            if rows * (f as u64) > img.height as u64 {
                return Err(AppError::Other("skin image too low for its layout".to_owned()));
            }
            render_skin_preview(&img)
        };
        match encode_png(&output) {
            Ok(bytes) => Ok(Blob(bytes)),
            Err(msg) => Err(AppError::Other(msg)),
        }
    }
}

/// Compressing image data a second time gives the same data as the first
/// time, where the first time's PNG is read back as the same image.
pub proof fn law_compress_idempotent(data: Seq<u8>, img: RasterView, once: Seq<u8>)
    requires
        png_decoding(data) == Some(img),
        png_encoding(img) == Some(once),
        png_decoding(once) == Some(img),
    ensures
        compressed(data) == Some(once),
        compressed(once) == Some(once),
{
}

proof fn lemma_blits_keep_size(canvas: RasterView, skin: RasterView, plan: Seq<Blit>, f: nat)
    ensures
        apply_blits(canvas, skin, plan, f).width == canvas.width,
        apply_blits(canvas, skin, plan, f).height == canvas.height,
    decreases plan.len(),
{
    if plan.len() > 0 {
        lemma_blits_keep_size(canvas, skin, plan.drop_last(), f);
    }
}

/// The preview of a skin of scale `f` (its width divided by 64) is 18 `f`
/// pixels wide and 34 `f` pixels high.
pub proof fn law_preview_size(skin: RasterView)
    ensures
        skin_preview(skin).width == 18 * scale_of(skin),
        skin_preview(skin).height == 34 * scale_of(skin),
{
    let f = scale_of(skin);
    lemma_blits_keep_size(blank(18 * f, 34 * f), skin, preview_plan(is_square(skin)), f);
}

/// Every step of the preview plan fits (see `blit_fits`).
pub(crate) proof fn lemma_plan_fits(square: bool)
    ensures
        forall|k: int|
            0 <= k < preview_plan(square).len() ==> blit_fits(
                #[trigger] preview_plan(square)[k],
                source_rows(square),
            ),
{
    let plan = preview_plan(square);
    assert forall|k: int| 0 <= k < plan.len() implies blit_fits(#[trigger] plan[k], source_rows(square)) by {
        if square {
            assert(k == 0 || k == 1 || k == 2 || k == 3 || k == 4 || k == 5 || k == 6 || k == 7
                || k == 8 || k == 9 || k == 10 || k == 11);
        } else {
            assert(k == 0 || k == 1 || k == 2 || k == 3 || k == 4 || k == 5 || k == 6);
        }
    }
}

/// Every pixel byte of `img` outside the area of `w` columns and `h` rows at
/// its top left is zero (transparent black).
pub open spec fn clear_outside(img: RasterView, w: nat, h: nat) -> bool {
    forall|i: int|
        0 <= i < img.pixels.len() && !(column_of(i, img.width) < w && row_of(i, img.width) < h)
            ==> #[trigger] img.pixels[i] == 0
}

/// A step that fits leaves the pixels outside the figure's area as they are.
proof fn lemma_blit_keeps_margins(canvas: RasterView, skin: RasterView, b: Blit, f: nat, rows: nat)
    requires
        blit_fits(b, rows),
        canvas.width == 18 * f,
        clear_outside(canvas, 16 * f, 32 * f),
    ensures
        apply_blit(canvas, skin, b, f).width == canvas.width,
        apply_blit(canvas, skin, b, f).height == canvas.height,
        apply_blit(canvas, skin, b, f).pixels.len() == canvas.pixels.len(),
        clear_outside(apply_blit(canvas, skin, b, f), 16 * f, 32 * f),
{
    let next = apply_blit(canvas, skin, b, f);
    let dx = b.dst_x * f;
    let dy = b.dst_y * f;
    let pw = b.width * f;
    let ph = b.height * f;
    assert(dx + pw <= 16 * f) by (nonlinear_arith)
        requires
            b.dst_x + b.width <= 16,
            dx == b.dst_x * f,
            pw == b.width * f,
    ;
    assert(dy + ph <= 32 * f) by (nonlinear_arith)
        requires
            b.dst_y + b.height <= 32,
            dy == b.dst_y * f,
            ph == b.height * f,
    ;
    assert forall|i: int|
        0 <= i < next.pixels.len() && !(column_of(i, next.width) < 16 * f && row_of(i, next.width)
            < 32 * f) implies #[trigger] next.pixels[i] == 0 by {
        assert(next.pixels[i] == canvas.pixels[i]);
    }
}

/// The canvas after steps that fit keeps its size and its clear margins.
pub(crate) proof fn lemma_blits_keep_margins(canvas: RasterView, skin: RasterView, plan: Seq<Blit>, f: nat, rows: nat)
    requires
        forall|k: int| 0 <= k < plan.len() ==> blit_fits(#[trigger] plan[k], rows),
        canvas.width == 18 * f,
        clear_outside(canvas, 16 * f, 32 * f),
    ensures
        apply_blits(canvas, skin, plan, f).width == canvas.width,
        apply_blits(canvas, skin, plan, f).pixels.len() == canvas.pixels.len(),
        clear_outside(apply_blits(canvas, skin, plan, f), 16 * f, 32 * f),
    decreases plan.len(),
{
    if plan.len() > 0 {
        let rest = plan.drop_last();
        assert forall|k: int| 0 <= k < rest.len() implies blit_fits(#[trigger] rest[k], rows) by {
            assert(rest[k] == plan[k]);
        }
        lemma_blits_keep_margins(canvas, skin, rest, f, rows);
        assert(blit_fits(plan[plan.len() - 1], rows));
        lemma_blit_keeps_margins(apply_blits(canvas, skin, rest, f), skin, plan.last(), f, rows);
    }
}

/// The preview of a skin of scale `f` draws the figure inside the area of
/// 16 `f` by 32 `f` pixels at its top left: every pixel outside it is
/// transparent black.
pub proof fn law_preview_margins(skin: RasterView)
    ensures
        clear_outside(skin_preview(skin), 16 * scale_of(skin), 32 * scale_of(skin)),
{
    let f = scale_of(skin);
    let square = is_square(skin);
    lemma_plan_fits(square);
    let start = blank(18 * f, 34 * f);
    assert(clear_outside(start, 16 * f, 32 * f));
    lemma_blits_keep_margins(start, skin, preview_plan(square), f, source_rows(square));
}

} // verus!
