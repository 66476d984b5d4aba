//! What the preview of a skin shows, part by part of the figure: each part
//! of the canvas shows the first layer of that body part, with the second
//! layer blended over it.
use vstd::prelude::*;

use vstd::arithmetic::div_mod::{lemma_fundamental_div_mod, lemma_fundamental_div_mod_converse};

use crate::preview::{
    apply_blit, apply_blits, is_square, lemma_blits_keep_margins, lemma_plan_fits, preview_plan,
    scale_of, skin_preview, source_rows, Blit,
};
use crate::raster::{blank, byte_index, column_of, cropped, lemma_index_in_bounds, row_of, RasterView};

verus! {

/// The byte of channel `c` at column `x`, row `y` of an image `w` pixels wide
/// lies at that column, row and channel.
proof fn lemma_byte_position(x: int, y: int, c: int, w: int)
    requires
        0 <= x < w,
        0 <= y,
        0 <= c < 4,
    ensures
        column_of(byte_index(x, y, c, w as nat), w as nat) == x,
        row_of(byte_index(x, y, c, w as nat), w as nat) == y,
        byte_index(x, y, c, w as nat) % 4 == c,
{
    lemma_fundamental_div_mod_converse((y * w + x) * 4 + c, 4, y * w + x, c);
    lemma_fundamental_div_mod_converse(y * w + x, w, y, x);
}

/// A pixel lies in the span of `w` units from unit `a`, at `f` pixels per
/// unit, exactly where its unit lies in that span.
proof fn lemma_unit_span(p: int, a: int, w: int, f: int)
    requires
        f > 0,
        p >= 0,
        a >= 0,
        w >= 0,
    ensures
        (a * f <= p < a * f + w * f) <==> (a <= p / f < a + w),
{
    lemma_fundamental_div_mod(p, f);
    let q = p / f;
    let r = p % f;
    assert((a * f <= p < a * f + w * f) <==> (a <= q < a + w)) by (nonlinear_arith)
        requires
            p == f * q + r,
            0 <= r < f,
            f > 0,
    ;
}

/// Whether a step writes the canvas unit at column `ux`, row `uy`.
pub open spec fn step_covers(b: Blit, ux: int, uy: int) -> bool {
    b.dst_x <= ux < b.dst_x + b.width && b.dst_y <= uy < b.dst_y + b.height
}

/// The byte of the skin that a step brings to canvas column `col`, row `row`
/// (channel `ch`), at scale `f`.
pub open spec fn step_source(skin: RasterView, b: Blit, f: nat, col: int, row: int, ch: int) -> u8 {
    skin.pixels[byte_index(b.src_x * f + (col - b.dst_x * f), b.src_y * f + (row - b.dst_y * f), ch, skin.width)]
}

/// What one step does to one byte of the canvas: a byte outside the step's
/// area stays; inside it, a replacing step writes the skin's byte, and a
/// blending step keeps the byte under a transparent skin pixel and writes the
/// skin's byte for an opaque one.
proof fn lemma_step_byte(canvas: RasterView, skin: RasterView, b: Blit, f: nat, col: int, row: int, ch: int)
    requires
        f > 0,
        f <= u32::MAX,
        canvas.width == 18 * f,
        canvas.pixels.len() == 18 * f * (34 * f) * 4,
        0 <= col < 18 * f,
        0 <= row < 34 * f,
        0 <= ch < 4,
        b.dst_x + b.width <= 18,
        b.dst_y + b.height <= 34,
    ensures
        ({
            let i = byte_index(col, row, ch, canvas.width);
            let after = apply_blit(canvas, skin, b, f).pixels;
            let covered = step_covers(b, col / (f as int), row / (f as int));
            &&& !covered ==> after[i] == canvas.pixels[i]
            &&& covered && !b.blend ==> after[i] == step_source(skin, b, f, col, row, ch)
            &&& covered && b.blend && step_source(skin, b, f, col, row, 3) == 0 ==> after[i]
                == canvas.pixels[i]
            &&& covered && b.blend && step_source(skin, b, f, col, row, 3) == 255 ==> after[i]
                == step_source(skin, b, f, col, row, ch)
        }),
{
    let w = canvas.width;
    let i = byte_index(col, row, ch, w);
    lemma_byte_position(col, row, ch, w as int);
    lemma_index_in_bounds(col, row, ch, w as int, (34 * f) as int);
    let dx = b.dst_x * f;
    let dy = b.dst_y * f;
    let pw = b.width * f;
    let ph = b.height * f;
    assert(dx + pw <= 18 * f && dy + ph <= 34 * f) by (nonlinear_arith)
        requires
            b.dst_x + b.width <= 18,
            b.dst_y + b.height <= 34,
            dx == b.dst_x * f,
            dy == b.dst_y * f,
            pw == b.width * f,
            ph == b.height * f,
    ;
    assert(b.dst_x * f + b.width * f == dx + pw);
    lemma_unit_span(col, b.dst_x as int, b.width as int, f as int);
    lemma_unit_span(row, b.dst_y as int, b.height as int, f as int);
    assert(((dx as i64) as int) == dx);
    assert(((dy as i64) as int) == dy);
    let covered = step_covers(b, col / (f as int), row / (f as int));
    if covered {
        let lx = col - dx;
        let ly = row - dy;
        let sx = (b.src_x * f) as nat;
        let sy = (b.src_y * f) as nat;
        let piece = cropped(skin, sx, sy, pw as nat, ph as nat);
        lemma_byte_position(lx, ly, ch, pw);
        lemma_byte_position(lx, ly, 3, pw);
        lemma_index_in_bounds(lx, ly, ch, pw, ph);
        lemma_index_in_bounds(lx, ly, 3, pw, ph);
    }
}

/// The canvas of a skin's preview after the first `n` steps.
spec fn canvas_after(skin: RasterView, n: int) -> RasterView {
    let f = scale_of(skin);
    apply_blits(blank(18 * f, 34 * f), skin, preview_plan(is_square(skin)).take(n), f)
}

/// Each step takes the canvas of the steps before it; after every step the
/// canvas keeps its size.
proof fn lemma_canvas_after(skin: RasterView, n: int)
    requires
        0 <= n < preview_plan(is_square(skin)).len(),
    ensures
        canvas_after(skin, n + 1) == apply_blit(
            canvas_after(skin, n),
            skin,
            preview_plan(is_square(skin))[n],
            scale_of(skin),
        ),
        canvas_after(skin, n).width == 18 * scale_of(skin),
        canvas_after(skin, n).pixels.len() == 18 * scale_of(skin) * (34 * scale_of(skin)) * 4,
{
    let f = scale_of(skin);
    let sq = is_square(skin);
    let plan = preview_plan(sq);
    assert(plan.take(n + 1).drop_last() =~= plan.take(n));
    lemma_plan_fits(sq);
    let part = plan.take(n);
    assert forall|m: int| 0 <= m < part.len() implies crate::preview::blit_fits(
        #[trigger] part[m],
        source_rows(sq),
    ) by {
        assert(part[m] == plan[m]);
    }
    let start = blank(18 * f, 34 * f);
    assert(crate::preview::clear_outside(start, 16 * f, 32 * f));
    lemma_blits_keep_margins(start, skin, part, f, source_rows(sq));
}

/// Steps that do not cover a pixel leave its bytes as they were.
proof fn lemma_untouched(skin: RasterView, col: int, row: int, ch: int, a: int, b: int)
    requires
        scale_of(skin) > 0,
        scale_of(skin) <= u32::MAX,
        0 <= col < 18 * scale_of(skin),
        0 <= row < 34 * scale_of(skin),
        0 <= ch < 4,
        0 <= a <= b <= preview_plan(is_square(skin)).len(),
        forall|m: int|
            a <= m < b ==> !step_covers(
                #[trigger] preview_plan(is_square(skin))[m],
                col / (scale_of(skin) as int),
                row / (scale_of(skin) as int),
            ),
    ensures
        canvas_after(skin, b).pixels[byte_index(col, row, ch, 18 * scale_of(skin))] == canvas_after(
            skin,
            a,
        ).pixels[byte_index(col, row, ch, 18 * scale_of(skin))],
    decreases b - a,
{
    if b > a {
        lemma_untouched(skin, col, row, ch, a, b - 1);
        let plan = preview_plan(is_square(skin));
        lemma_canvas_after(skin, b - 1);
        lemma_plan_fits(is_square(skin));
        assert(crate::preview::blit_fits(plan[b - 1], source_rows(is_square(skin))));
        lemma_step_byte(canvas_after(skin, b - 1), skin, plan[b - 1], scale_of(skin), col, row, ch);
    }
}

/// One part of the figure, in units of the skin's scale (its width divided
/// by 64): its place on the canvas (`x`, `y`, `w` by `h`), where its first
/// layer lies in the skin, and where its second layer lies, where the skin
/// has one for it.
pub struct FigurePart {
    pub x: int,
    pub y: int,
    pub w: int,
    pub h: int,
    pub first_x: int,
    pub first_y: int,
    pub second: Option<(int, int)>,
}

/// The parts of the figure, seen from the front: the head, the leg under the
/// canvas's left half, the leg under its right half, the arm at the left, the
/// arm at the right, and the body. A square skin keeps its own left arm and
/// leg (in its lower half) and a second layer (hat, trousers, sleeves,
/// jacket) for every part; an older skin, twice as wide as high, shows its
/// one arm and one leg on both sides and has a second layer for the head only.
pub open spec fn figure_parts(square: bool) -> Seq<FigurePart> {
    if square {
        seq![
            FigurePart { x: 4, y: 0, w: 8, h: 8, first_x: 8, first_y: 8, second: Some((40, 8)) },
            FigurePart { x: 4, y: 20, w: 4, h: 12, first_x: 4, first_y: 20, second: Some((4, 36)) },
            FigurePart { x: 8, y: 20, w: 4, h: 12, first_x: 20, first_y: 52, second: Some((4, 52)) },
            FigurePart { x: 0, y: 8, w: 4, h: 12, first_x: 44, first_y: 20, second: Some((44, 36)) },
            FigurePart { x: 12, y: 8, w: 4, h: 12, first_x: 36, first_y: 52, second: Some((52, 52)) },
            FigurePart { x: 4, y: 8, w: 8, h: 12, first_x: 20, first_y: 20, second: Some((20, 36)) },
        ]
    } else {
        seq![
            FigurePart { x: 4, y: 0, w: 8, h: 8, first_x: 8, first_y: 8, second: Some((40, 8)) },
            FigurePart { x: 4, y: 20, w: 4, h: 12, first_x: 4, first_y: 20, second: None },
            FigurePart { x: 8, y: 20, w: 4, h: 12, first_x: 4, first_y: 20, second: None },
            FigurePart { x: 0, y: 8, w: 4, h: 12, first_x: 44, first_y: 20, second: None },
            FigurePart { x: 12, y: 8, w: 4, h: 12, first_x: 44, first_y: 20, second: None },
            FigurePart { x: 4, y: 8, w: 8, h: 12, first_x: 20, first_y: 20, second: None },
        ]
    }
}

/// The byte of channel `c` at column `x`, row `y` of an image.
pub open spec fn byte_at(img: RasterView, x: int, y: int, c: int) -> u8 {
    img.pixels[byte_index(x, y, c, img.width)]
}

/// The preview shows channel `c` of the pixel at (`x`, `y`) inside a part,
/// at scale `f`, as that part's layers give it: the first layer where there
/// is no second one or the second one is transparent there, and the second
/// layer where it is opaque.
pub open spec fn shows_part(skin: RasterView, preview: RasterView, part: FigurePart, f: int, x: int, y: int, c: int) -> bool {
    let shown = byte_at(preview, part.x * f + x, part.y * f + y, c);
    let first = byte_at(skin, part.first_x * f + x, part.first_y * f + y, c);
    match part.second {
        None => shown == first,
        Some((sx, sy)) => {
            &&& byte_at(skin, sx * f + x, sy * f + y, 3) == 0 ==> shown == first
            &&& byte_at(skin, sx * f + x, sy * f + y, 3) == 255 ==> shown == byte_at(
                skin,
                sx * f + x,
                sy * f + y,
                c,
            )
        },
    }
}

/// The step of the preview that puts the second layer of part `k` on the
/// canvas; -1 where the part has no second layer.
spec fn second_step(square: bool, k: int) -> int {
    if square {
        k + 6
    } else if k == 0 {
        6
    } else {
        -1
    }
}

/// Only the two steps of a part (its first layer, then its second) write the
/// canvas units of that part.
proof fn lemma_part_steps(square: bool, k: int, ux: int, uy: int)
    requires
        0 <= k < 6,
        figure_parts(square)[k].x <= ux < figure_parts(square)[k].x + figure_parts(square)[k].w,
        figure_parts(square)[k].y <= uy < figure_parts(square)[k].y + figure_parts(square)[k].h,
    ensures
        forall|m: int|
            0 <= m < preview_plan(square).len() && m != k && m != second_step(square, k) ==> !step_covers(
                #[trigger] preview_plan(square)[m],
                ux,
                uy,
            ),
        step_covers(preview_plan(square)[k], ux, uy),
        0 <= second_step(square, k) ==> k < second_step(square, k) < preview_plan(square).len()
            && step_covers(preview_plan(square)[second_step(square, k)], ux, uy),
{
    let plan = preview_plan(square);
    let parts = figure_parts(square);
    assert(k == 0 || k == 1 || k == 2 || k == 3 || k == 4 || k == 5);
    assert forall|m: int|
        0 <= m < plan.len() && m != k && m != second_step(square, k) implies !step_covers(
        #[trigger] plan[m],
        ux,
        uy,
    ) by {
        if square {
            assert(m == 0 || m == 1 || m == 2 || m == 3 || m == 4 || m == 5 || m == 6 || m == 7
                || m == 8 || m == 9 || m == 10 || m == 11);
        } else {
            assert(m == 0 || m == 1 || m == 2 || m == 3 || m == 4 || m == 5 || m == 6);
        }
    }
}

/// Each part of a skin's preview shows that body part of the skin: at every
/// pixel of the part's area, the first layer where the skin has no second
/// layer for the part or its second layer is transparent there, and the
/// second layer where that is opaque. For a square skin the second layers are
/// read from the skin's second-layer areas (hat at (40, 8), trousers at
/// (4, 36) and (4, 52), sleeves at (44, 36) and (52, 52), jacket at (20, 36)),
/// never from the first layer's.
pub proof fn law_preview_parts(skin: RasterView, k: int, x: int, y: int, c: int)
    requires
        skin.width <= u32::MAX,
        0 <= k < 6,
        0 <= x < figure_parts(is_square(skin))[k].w * scale_of(skin),
        0 <= y < figure_parts(is_square(skin))[k].h * scale_of(skin),
        0 <= c < 4,
    ensures
        shows_part(
            skin,
            skin_preview(skin),
            figure_parts(is_square(skin))[k],
            scale_of(skin) as int,
            x,
            y,
            c,
        ),
{
    let f = scale_of(skin);
    let fi = f as int;
    let sq = is_square(skin);
    let plan = preview_plan(sq);
    let part = figure_parts(sq)[k];
    assert(k == 0 || k == 1 || k == 2 || k == 3 || k == 4 || k == 5);
    assert(part.x + part.w <= 16 && part.y + part.h <= 32 && part.w > 0 && part.h > 0);
    assert(fi > 0) by (nonlinear_arith)
        requires
            0 <= x < part.w * fi,
            part.w > 0,
            fi >= 0,
    ;
    assert(f <= u32::MAX);
    let col = part.x * fi + x;
    let row = part.y * fi + y;
    assert(col < 18 * fi && row < 34 * fi) by (nonlinear_arith)
        requires
            col == part.x * fi + x,
            row == part.y * fi + y,
            x < part.w * fi,
            y < part.h * fi,
            part.x + part.w <= 16,
            part.y + part.h <= 32,
            part.x >= 0,
            part.y >= 0,
            fi > 0,
    ;
    lemma_unit_span(col, part.x, part.w, fi);
    lemma_unit_span(row, part.y, part.h, fi);
    let ux = col / fi;
    let uy = row / fi;
    lemma_part_steps(sq, k, ux, uy);
    lemma_plan_fits(sq);
    let n = plan.len() as int;
    let q = second_step(sq, k);
    let idx = byte_index(col, row, c, 18 * f);
    let b = plan[k];
    assert(b.dst_x == part.x && b.dst_y == part.y && b.src_x == part.first_x && b.src_y
        == part.first_y && !b.blend);
    lemma_canvas_after(skin, k);
    lemma_step_byte(canvas_after(skin, k), skin, b, f, col, row, c);
    let first = byte_at(skin, part.first_x * fi + x, part.first_y * fi + y, c);
    assert(step_source(skin, b, f, col, row, c) == first);
    assert(canvas_after(skin, k + 1).pixels[idx] == first);
    if q >= 0 {
        lemma_untouched(skin, col, row, c, k + 1, q);
        let bq = plan[q];
        let (sx, sy) = part.second->0;
        assert(bq.dst_x == part.x && bq.dst_y == part.y && bq.src_x == sx && bq.src_y == sy
            && bq.blend);
        lemma_canvas_after(skin, q);
        lemma_step_byte(canvas_after(skin, q), skin, bq, f, col, row, c);
        assert(step_source(skin, bq, f, col, row, c) == byte_at(skin, sx * fi + x, sy * fi + y, c));
        assert(step_source(skin, bq, f, col, row, 3) == byte_at(skin, sx * fi + x, sy * fi + y, 3));
        lemma_untouched(skin, col, row, c, q + 1, n);
    } else {
        assert(part.second is None);
        lemma_untouched(skin, col, row, c, k + 1, n);
    }
    assert(plan.take(n) =~= plan);
    crate::preview::law_preview_size(skin);
}

/// Whether the canvas unit at column `ux`, row `uy` lies in a part's area.
pub open spec fn in_part(part: FigurePart, ux: int, uy: int) -> bool {
    part.x <= ux < part.x + part.w && part.y <= uy < part.y + part.h
}

/// Outside the parts of the figure, the preview of a skin is transparent
/// black.
pub proof fn law_preview_background(skin: RasterView, col: int, row: int, c: int)
    requires
        skin.width <= u32::MAX,
        0 <= col < 18 * scale_of(skin),
        0 <= row < 34 * scale_of(skin),
        0 <= c < 4,
        forall|k: int|
            0 <= k < 6 ==> !in_part(
                #[trigger] figure_parts(is_square(skin))[k],
                col / (scale_of(skin) as int),
                row / (scale_of(skin) as int),
            ),
    ensures
        byte_at(skin_preview(skin), col, row, c) == 0,
{
    let f = scale_of(skin);
    let fi = f as int;
    let sq = is_square(skin);
    let plan = preview_plan(sq);
    let parts = figure_parts(sq);
    let ux = col / fi;
    let uy = row / fi;
    assert(f <= u32::MAX);
    assert forall|m: int| 0 <= m < plan.len() implies !step_covers(#[trigger] plan[m], ux, uy) by {
        assert(!in_part(parts[0], ux, uy) && !in_part(parts[1], ux, uy) && !in_part(parts[2], ux, uy)
            && !in_part(parts[3], ux, uy) && !in_part(parts[4], ux, uy) && !in_part(parts[5], ux, uy));
        if sq {
            assert(m == 0 || m == 1 || m == 2 || m == 3 || m == 4 || m == 5 || m == 6 || m == 7
                || m == 8 || m == 9 || m == 10 || m == 11);
        } else {
            assert(m == 0 || m == 1 || m == 2 || m == 3 || m == 4 || m == 5 || m == 6);
        }
    }
    let n = plan.len() as int;
    lemma_untouched(skin, col, row, c, 0, n);
    assert(plan.take(0) =~= Seq::<Blit>::empty());
    assert(plan.take(n) =~= plan);
    lemma_byte_position(col, row, c, 18 * fi);
    lemma_index_in_bounds(col, row, c, 18 * fi, 34 * fi);
    crate::preview::law_preview_size(skin);
}

} // verus!
