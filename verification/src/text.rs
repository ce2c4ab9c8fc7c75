//! Bitmap-font text overlay.
//!
//! Track text is rendered with the 8x8 bitmap font, scaled with the canvas
//! height, aligned or positioned per the configuration, and animated
//! (scroll, pulse, fade, wave) in milli units and milliseconds.

use vstd::prelude::*;
use vstd::string::StringExecFns;

use crate::canvas::Canvas;
use crate::config::{FontStyle, TextAlignment, TextAnimation, TextPosition};
use crate::fixed::milli_mul;
use crate::renderer::{FrameData, RenderParams};
use crate::trig::sin_deg;

verus! {

/// The canvas kept its shape (dimensions and buffer length).
pub open spec fn spec_keeps_shape(pre: Canvas, post: Canvas) -> bool {
    &&& post.inv()
    &&& post.width == pre.width
    &&& post.height == pre.height
    &&& post.data.len() == pre.data.len()
}

/// Byte `j` belongs to a pixel inside the square of side `side` whose
/// top-left corner is `(x0, y0)`.
pub open spec fn spec_in_square(w: int, x0: int, y0: int, side: int, j: int) -> bool {
    let p = j / 4;
    let yy = p / w;
    let xx = p % w;
    &&& w >= 1
    &&& x0 <= xx < x0 + side
    &&& y0 <= yy < y0 + side
}

proof fn lemma_pixel_byte_decomp(x: int, y: int, w: int, k: int)
    by (nonlinear_arith)
    requires
        0 <= x < w,
        0 <= y,
        0 <= k < 4,
    ensures
        ((y * w + x) * 4 + k) / 4 == y * w + x,
        (y * w + x) / w == y,
        (y * w + x) % w == x,
        0 <= (y * w + x) * 4 + k,
{
}

proof fn lemma_pixel_byte_in_region(x: int, y: int, w: int, h: int, k: int)
    by (nonlinear_arith)
    requires
        0 <= x < w,
        0 <= y < h,
        0 <= k < 4,
    ensures
        (y * w + x) * 4 + k < w * h * 4,
{
}

/// Write one pixel inside the glyph square at `(x0, y0)` of side `side`,
/// carrying the square frame condition relative to the canvas `pre` from
/// before the glyph began drawing.
fn put_square_pixel(
    canvas: &mut Canvas,
    px: usize,
    py: usize,
    col: (u8, u8, u8),
    opacity: u32,
    x0: usize,
    y0: usize,
    side: usize,
    Ghost(pre): Ghost<Canvas>,
)
    requires
        old(canvas).inv(),
        spec_keeps_shape(pre, *old(canvas)),
        forall|j: int|
            0 <= j < old(canvas).data.len() && !spec_in_square(
                pre.width as int,
                x0 as int,
                y0 as int,
                side as int,
                j,
            ) ==> old(canvas).data@[j] == pre.data@[j],
        opacity <= crate::fixed::MILLI_ONE,
        x0 <= px < x0 + side,
        y0 <= py < y0 + side,
    ensures
        spec_keeps_shape(pre, *final(canvas)),
        forall|j: int|
            0 <= j < final(canvas).data.len() && !spec_in_square(
                pre.width as int,
                x0 as int,
                y0 as int,
                side as int,
                j,
            ) ==> final(canvas).data@[j] == pre.data@[j],
        px < pre.width && py < pre.height ==> final(canvas).data@ == old(canvas).data@.update(
            ((py as int) * pre.width + px) * 4,
            crate::canvas::spec_premul(col.0, opacity),
        ).update(((py as int) * pre.width + px) * 4 + 1, crate::canvas::spec_premul(col.1, opacity))
            .update(
            ((py as int) * pre.width + px) * 4 + 2,
            crate::canvas::spec_premul(col.2, opacity),
        ).update(((py as int) * pre.width + px) * 4 + 3, crate::canvas::spec_alpha(opacity)),
        !(px < pre.width && py < pre.height) ==> final(canvas).data@ == old(canvas).data@,
{
    let ghost before = *canvas;
    canvas.put_pixel(px, py, col.0, col.1, col.2, opacity);
    proof {
        if px < pre.width && py < pre.height {
            let i0 = before.spec_index(px as int, py as int);
            let s0 = before.data@;
            let s1 = s0.update(i0, crate::canvas::spec_premul(col.0, opacity));
            let s2 = s1.update(i0 + 1, crate::canvas::spec_premul(col.1, opacity));
            let s3 = s2.update(i0 + 2, crate::canvas::spec_premul(col.2, opacity));
            let s4 = s3.update(i0 + 3, crate::canvas::spec_alpha(opacity));
            assert(canvas.data@ == s4);
            lemma_pixel_byte_decomp(px as int, py as int, pre.width as int, 0);
            lemma_pixel_byte_decomp(px as int, py as int, pre.width as int, 1);
            lemma_pixel_byte_decomp(px as int, py as int, pre.width as int, 2);
            lemma_pixel_byte_decomp(px as int, py as int, pre.width as int, 3);
            lemma_pixel_byte_in_region(px as int, py as int, pre.width as int, pre.height as int, 0);
            lemma_pixel_byte_in_region(px as int, py as int, pre.width as int, pre.height as int, 1);
            lemma_pixel_byte_in_region(px as int, py as int, pre.width as int, pre.height as int, 2);
            lemma_pixel_byte_in_region(px as int, py as int, pre.width as int, pre.height as int, 3);
            assert(spec_in_square(pre.width as int, x0 as int, y0 as int, side as int, i0));
            assert(spec_in_square(pre.width as int, x0 as int, y0 as int, side as int, i0 + 1));
            assert(spec_in_square(pre.width as int, x0 as int, y0 as int, side as int, i0 + 2));
            assert(spec_in_square(pre.width as int, x0 as int, y0 as int, side as int, i0 + 3));
            assert(0 <= i0 && i0 + 3 < canvas.data.len());
            assert forall|j: int|
                0 <= j < canvas.data.len() && !spec_in_square(
                    pre.width as int,
                    x0 as int,
                    y0 as int,
                    side as int,
                    j,
                ) implies canvas.data@[j] == pre.data@[j] by {
                assert(j != i0 && j != i0 + 1 && j != i0 + 2 && j != i0 + 3);
                assert(s4[j] == s3[j]);
                assert(s3[j] == s2[j]);
                assert(s2[j] == s1[j]);
                assert(s1[j] == s0[j]);
                assert(before.data@[j] == pre.data@[j]);
            }
        } else {
            assert(canvas.data@ == before.data@);
            assert forall|j: int|
                0 <= j < canvas.data.len() && !spec_in_square(
                    pre.width as int,
                    x0 as int,
                    y0 as int,
                    side as int,
                    j,
                ) implies canvas.data@[j] == pre.data@[j] by {
                assert(before.data@[j] == pre.data@[j]);
            }
        }
    }
}

/// Whether glyph-local pixel `(gx, gy)` of `ch` drawn at `scale` lies on a
/// set bit of the bitmap.
pub open spec fn spec_glyph_bit(ch: char, scale: int, gx: int, gy: int) -> bool {
    match crate::font::spec_char_bitmap(ch) {
        Some(bm) => (bm[gy / scale] >> ((7 - gx / scale) as u8)) & 1 == 1,
        Option::None => false,
    }
}

/// The glyph renderer's progress: glyph pixel `(gx, gy)` is painted once
/// the loops have passed its bitmap row and column and its position inside
/// the block.
pub open spec fn spec_glyph_done(
    ch: char,
    scale: int,
    gx: int,
    gy: int,
    row_p: int,
    col_p: int,
    sy_p: int,
    sx_p: int,
) -> bool {
    &&& spec_glyph_bit(ch, scale, gx, gy)
    &&& {
        let row = gy / scale;
        let col = gx / scale;
        let sy = gy % scale;
        let sx = gx % scale;
        ||| row < row_p
        ||| (row == row_p && col < col_p)
        ||| (row == row_p && col == col_p && sy < sy_p)
        ||| (row == row_p && col == col_p && sy == sy_p && sx < sx_p)
    }
}

/// The glyph renderer's loop invariant: set-bit pixels inside the progress
/// set carry the glyph color, all other glyph pixels are untouched.
pub open spec fn spec_glyph_inv(
    pre: Canvas,
    cur: Canvas,
    x: int,
    y: int,
    ch: char,
    scale: int,
    col3: (u8, u8, u8),
    opacity: u32,
    row_p: int,
    col_p: int,
    sy_p: int,
    sx_p: int,
) -> bool {
    &&& forall|gx: int, gy: int|
        0 <= gx < 8 * scale && 0 <= gy < 8 * scale && x + gx < pre.width && y + gy < pre.height
            && #[trigger] spec_glyph_done(ch, scale, gx, gy, row_p, col_p, sy_p, sx_p)
            ==> crate::styles::spec_pixel_is(cur, x + gx, y + gy, col3, opacity)
    &&& forall|gx: int, gy: int|
        0 <= gx < 8 * scale && 0 <= gy < 8 * scale && x + gx < pre.width && y + gy < pre.height
            && !#[trigger] spec_glyph_done(ch, scale, gx, gy, row_p, col_p, sy_p, sx_p)
            ==> crate::styles::spec_pixel_kept(pre, cur, x + gx, y + gy)
}

/// One write of the glyph renderer extends the progress set by (at most)
/// the glyph pixel at `(col*scale + sx, row*scale + sy)`.
#[verifier::rlimit(90)]
proof fn lemma_glyph_put_step(
    pre: Canvas,
    before: Canvas,
    after: Canvas,
    x: int,
    y: int,
    ch: char,
    scale: int,
    col3: (u8, u8, u8),
    opacity: u32,
    row: int,
    col: int,
    sy: int,
    sx: int,
)
    requires
        pre.inv(),
        spec_keeps_shape(pre, before),
        spec_keeps_shape(pre, after),
        spec_glyph_inv(pre, before, x, y, ch, scale, col3, opacity, row, col, sy, sx),
        0 <= row < 8,
        0 <= col < 8,
        0 <= sy < scale,
        0 <= sx < scale,
        1 <= scale,
        0 <= x,
        0 <= y,
        spec_glyph_bit(ch, scale, col * scale + sx, row * scale + sy),
        ({
            let px = x + col * scale + sx;
            let py = y + row * scale + sy;
            if px < pre.width && py < pre.height {
                after.data@ == before.data@.update(
                    (py * pre.width + px) * 4,
                    crate::canvas::spec_premul(col3.0, opacity),
                ).update((py * pre.width + px) * 4 + 1, crate::canvas::spec_premul(col3.1, opacity))
                    .update(
                    (py * pre.width + px) * 4 + 2,
                    crate::canvas::spec_premul(col3.2, opacity),
                ).update((py * pre.width + px) * 4 + 3, crate::canvas::spec_alpha(opacity))
            } else {
                after.data@ == before.data@
            }
        }),
    ensures
        spec_glyph_inv(pre, after, x, y, ch, scale, col3, opacity, row, col, sy, sx + 1),
{
    let w = pre.width as int;
    let h = pre.height as int;
    let gx0 = col * scale + sx;
    let gy0 = row * scale + sy;
    let px = x + gx0;
    let py = y + gy0;
    vstd::arithmetic::div_mod::lemma_fundamental_div_mod_converse(gx0, scale, col, sx);
    vstd::arithmetic::div_mod::lemma_fundamental_div_mod_converse(gy0, scale, row, sy);
    assert(gx0 / scale == col && gx0 % scale == sx && gy0 / scale == row && gy0 % scale == sy);
    assert(gx0 < 8 * scale && gy0 < 8 * scale) by (nonlinear_arith)
        requires
            0 <= col < 8 && 0 <= row < 8 && 0 <= sx < scale && 0 <= sy < scale && gx0 == col
                * scale + sx && gy0 == row * scale + sy,
    ;
    if px < w && py < h {
        let j0 = (py * w + px) * 4;
        let s0 = before.data@;
        let s1 = s0.update(j0, crate::canvas::spec_premul(col3.0, opacity));
        let s2 = s1.update(j0 + 1, crate::canvas::spec_premul(col3.1, opacity));
        let s3 = s2.update(j0 + 2, crate::canvas::spec_premul(col3.2, opacity));
        let s4 = s3.update(j0 + 3, crate::canvas::spec_alpha(opacity));
        assert(after.data@ == s4);
        assert(0 <= j0 && j0 + 3 < w * h * 4) by (nonlinear_arith)
            requires
                0 <= px < w && 0 <= py < h && j0 == (py * w + px) * 4,
        ;
        assert(j0 + 3 < s0.len());
        assert forall|gx: int, gy: int|
            0 <= gx < 8 * scale && 0 <= gy < 8 * scale && x + gx < pre.width && y + gy < pre.height
                && #[trigger] spec_glyph_done(ch, scale, gx, gy, row, col, sy, sx + 1) implies crate::styles::spec_pixel_is(
            after,
            x + gx,
            y + gy,
            col3,
            opacity,
        ) by {
            if gx == gx0 && gy == gy0 {
                assert(s4[j0] == crate::canvas::spec_premul(col3.0, opacity));
                assert(s4[j0 + 1] == crate::canvas::spec_premul(col3.1, opacity));
                assert(s4[j0 + 2] == crate::canvas::spec_premul(col3.2, opacity));
                assert(s4[j0 + 3] == crate::canvas::spec_alpha(opacity));
            } else {
                crate::styles::lemma_pixel_index_distinct(x + gx, y + gy, px, py, w);
                let p = ((y + gy) * w + (x + gx)) * 4;
                assert(0 <= p && p + 3 < w * h * 4) by (nonlinear_arith)
                    requires
                        0 <= x + gx < w && 0 <= y + gy < h && p == ((y + gy) * w + (x + gx)) * 4,
                ;
                assert(p + 3 < s0.len());
                assert((y + gy) * w + (x + gx) != py * w + px);
                assert(s4[p] == s3[p] && s4[p + 1] == s3[p + 1] && s4[p + 2] == s3[p + 2] && s4[p
                    + 3] == s3[p + 3]);
                assert(s3[p] == s2[p] && s3[p + 1] == s2[p + 1] && s3[p + 2] == s2[p + 2] && s3[p
                    + 3] == s2[p + 3]);
                assert(s2[p] == s1[p] && s2[p + 1] == s1[p + 1] && s2[p + 2] == s1[p + 2] && s2[p
                    + 3] == s1[p + 3]);
                assert(s1[p] == s0[p] && s1[p + 1] == s0[p + 1] && s1[p + 2] == s0[p + 2] && s1[p
                    + 3] == s0[p + 3]);
                if !spec_glyph_done(ch, scale, gx, gy, row, col, sy, sx) {
                    assert(gy / scale == row && gx / scale == col && gy % scale == sy && gx % scale
                        == sx);
                    vstd::arithmetic::div_mod::lemma_fundamental_div_mod(gx, scale);
                    vstd::arithmetic::div_mod::lemma_fundamental_div_mod(gy, scale);
                    assert(gx == scale * col + sx && gy == scale * row + sy);
                    assert(scale * col == col * scale && scale * row == row * scale)
                        by (nonlinear_arith);
                    assert(gx == gx0 && gy == gy0);
                    assert(false);
                }
            }
        }
        assert forall|gx: int, gy: int|
            0 <= gx < 8 * scale && 0 <= gy < 8 * scale && x + gx < pre.width && y + gy < pre.height
                && !#[trigger] spec_glyph_done(ch, scale, gx, gy, row, col, sy, sx + 1) implies crate::styles::spec_pixel_kept(
            pre,
            after,
            x + gx,
            y + gy,
        ) by {
            assert(!spec_glyph_done(ch, scale, gx, gy, row, col, sy, sx));
            assert(!(gx == gx0 && gy == gy0));
            crate::styles::lemma_pixel_index_distinct(x + gx, y + gy, px, py, w);
            let p = ((y + gy) * w + (x + gx)) * 4;
            assert(0 <= p && p + 3 < w * h * 4) by (nonlinear_arith)
                requires
                    0 <= x + gx < w && 0 <= y + gy < h && p == ((y + gy) * w + (x + gx)) * 4,
            ;
            assert(p + 3 < s0.len());
            assert((y + gy) * w + (x + gx) != py * w + px);
            assert(s4[p] == s3[p] && s4[p + 1] == s3[p + 1] && s4[p + 2] == s3[p + 2] && s4[p + 3]
                == s3[p + 3]);
            assert(s3[p] == s2[p] && s3[p + 1] == s2[p + 1] && s3[p + 2] == s2[p + 2] && s3[p + 3]
                == s2[p + 3]);
            assert(s2[p] == s1[p] && s2[p + 1] == s1[p + 1] && s2[p + 2] == s1[p + 2] && s2[p + 3]
                == s1[p + 3]);
            assert(s1[p] == s0[p] && s1[p + 1] == s0[p + 1] && s1[p + 2] == s0[p + 2] && s1[p + 3]
                == s0[p + 3]);
        }
    } else {
        assert(after.data@ == before.data@);
        assert forall|gx: int, gy: int|
            0 <= gx < 8 * scale && 0 <= gy < 8 * scale && x + gx < pre.width && y + gy < pre.height
                && #[trigger] spec_glyph_done(ch, scale, gx, gy, row, col, sy, sx + 1) implies crate::styles::spec_pixel_is(
            after,
            x + gx,
            y + gy,
            col3,
            opacity,
        ) by {
            if !spec_glyph_done(ch, scale, gx, gy, row, col, sy, sx) {
                assert(gy / scale == row && gx / scale == col && gy % scale == sy && gx % scale
                    == sx);
                vstd::arithmetic::div_mod::lemma_fundamental_div_mod(gx, scale);
                vstd::arithmetic::div_mod::lemma_fundamental_div_mod(gy, scale);
                assert(gx == scale * col + sx && gy == scale * row + sy);
                assert(scale * col == col * scale && scale * row == row * scale)
                    by (nonlinear_arith);
                assert(gx == gx0 && gy == gy0);
                assert(false);
            }
        }
        assert forall|gx: int, gy: int|
            0 <= gx < 8 * scale && 0 <= gy < 8 * scale && x + gx < pre.width && y + gy < pre.height
                && !#[trigger] spec_glyph_done(ch, scale, gx, gy, row, col, sy, sx + 1) implies crate::styles::spec_pixel_kept(
            pre,
            after,
            x + gx,
            y + gy,
        ) by {
            assert(!spec_glyph_done(ch, scale, gx, gy, row, col, sy, sx));
        }
    }
}

/// Equal progress sets carry the glyph renderer's invariant across loop
/// boundaries.
proof fn lemma_glyph_phase(
    pre: Canvas,
    cur: Canvas,
    x: int,
    y: int,
    ch: char,
    scale: int,
    col3: (u8, u8, u8),
    opacity: u32,
    row: int,
    col: int,
    sy: int,
    sx: int,
    row2: int,
    col2: int,
    sy2: int,
    sx2: int,
)
    requires
        spec_glyph_inv(pre, cur, x, y, ch, scale, col3, opacity, row, col, sy, sx),
        forall|gx: int, gy: int|
            0 <= gx < 8 * scale && 0 <= gy < 8 * scale ==> #[trigger] spec_glyph_done(
                ch,
                scale,
                gx,
                gy,
                row2,
                col2,
                sy2,
                sx2,
            ) == spec_glyph_done(ch, scale, gx, gy, row, col, sy, sx),
    ensures
        spec_glyph_inv(pre, cur, x, y, ch, scale, col3, opacity, row2, col2, sy2, sx2),
{
    assert forall|gx: int, gy: int|
        0 <= gx < 8 * scale && 0 <= gy < 8 * scale && x + gx < pre.width && y + gy < pre.height
            && #[trigger] spec_glyph_done(ch, scale, gx, gy, row2, col2, sy2, sx2) implies crate::styles::spec_pixel_is(
        cur,
        x + gx,
        y + gy,
        col3,
        opacity,
    ) by {
        assert(spec_glyph_done(ch, scale, gx, gy, row, col, sy, sx));
    }
    assert forall|gx: int, gy: int|
        0 <= gx < 8 * scale && 0 <= gy < 8 * scale && x + gx < pre.width && y + gy < pre.height
            && !#[trigger] spec_glyph_done(ch, scale, gx, gy, row2, col2, sy2, sx2) implies crate::styles::spec_pixel_kept(
        pre,
        cur,
        x + gx,
        y + gy,
    ) by {
        assert(!spec_glyph_done(ch, scale, gx, gy, row, col, sy, sx));
    }
}

/// Draw one glyph of the 8x8 font at `(x, y)`, scaled by `scale`: wherever
/// its bitmap bit is set, a `scale` by `scale` block is filled with the
/// given color at the given opacity; everything else — outside the
/// glyph's `8 * scale` square, over an unset bit, or for a character
/// without a glyph — is untouched.
pub fn render_char(
    canvas: &mut Canvas,
    x: usize,
    y: usize,
    ch: char,
    r: u8,
    g: u8,
    b: u8,
    scale: usize,
    opacity: u32,
)
    requires
        old(canvas).inv(),
        opacity <= crate::fixed::MILLI_ONE,
        1 <= scale,
        x + 8 * scale <= usize::MAX,
        y + 8 * scale <= usize::MAX,
    ensures
        spec_keeps_shape(*old(canvas), *final(canvas)),
        forall|j: int|
            0 <= j < final(canvas).data.len() && !spec_in_square(
                old(canvas).width as int,
                x as int,
                y as int,
                8 * scale,
                j,
            ) ==> final(canvas).data@[j] == old(canvas).data@[j],
        crate::font::spec_char_bitmap(ch) is None ==> final(canvas).data@ == old(canvas).data@,
        forall|gx: int, gy: int|
            0 <= gx < 8 * scale && 0 <= gy < 8 * scale && x + gx < old(canvas).width && y + gy
                < old(canvas).height && #[trigger] spec_glyph_bit(ch, scale as int, gx, gy)
                ==> crate::styles::spec_pixel_is(
                *final(canvas),
                (x as int) + gx,
                (y as int) + gy,
                (r, g, b),
                opacity,
            ),
        forall|gx: int, gy: int|
            0 <= gx < 8 * scale && 0 <= gy < 8 * scale && x + gx < old(canvas).width && y + gy
                < old(canvas).height && !#[trigger] spec_glyph_bit(ch, scale as int, gx, gy)
                ==> crate::styles::spec_pixel_kept(
                *old(canvas),
                *final(canvas),
                (x as int) + gx,
                (y as int) + gy,
            ),
{
    let ghost pre = *canvas;
    let bitmap: [u8; 8] = match crate::font::get_char_bitmap(ch) {
        Some(bm) => bm,
        _ => {
            return ;
        },
    };
    let side: usize = 8 * scale;
    let mut row_idx: usize = 0;
    while row_idx < 8
        invariant
            spec_keeps_shape(pre, *canvas),
            forall|j: int|
                0 <= j < canvas.data.len() && !spec_in_square(
                    pre.width as int,
                    x as int,
                    y as int,
                    side as int,
                    j,
                ) ==> canvas.data@[j] == pre.data@[j],
            pre == *old(canvas),
            crate::font::spec_char_bitmap(ch) == Some(bitmap@),
            side == 8 * scale,
            1 <= scale,
            x + side <= usize::MAX,
            y + side <= usize::MAX,
            opacity <= 1000,
            spec_glyph_inv(
                pre,
                *canvas,
                x as int,
                y as int,
                ch,
                scale as int,
                (r, g, b),
                opacity,
                row_idx as int,
                0,
                0,
                0,
            ),
            row_idx <= 8,
        decreases 8 - row_idx,
    {
        let row: u8 = bitmap[row_idx];
        let mut col: usize = 0;
        while col < 8
            invariant
                spec_keeps_shape(pre, *canvas),
                forall|j: int|
                    0 <= j < canvas.data.len() && !spec_in_square(
                        pre.width as int,
                        x as int,
                        y as int,
                        side as int,
                        j,
                    ) ==> canvas.data@[j] == pre.data@[j],
                pre == *old(canvas),
                crate::font::spec_char_bitmap(ch) == Some(bitmap@),
                row == bitmap@[row_idx as int],
                side == 8 * scale,
                1 <= scale,
                x + side <= usize::MAX,
                y + side <= usize::MAX,
                opacity <= 1000,
                spec_glyph_inv(
                    pre,
                    *canvas,
                    x as int,
                    y as int,
                    ch,
                    scale as int,
                    (r, g, b),
                    opacity,
                    row_idx as int,
                    col as int,
                    0,
                    0,
                ),
                row_idx < 8,
                col <= 8,
            decreases 8 - col,
        {
            if (row >> (7 - col) as u8) & 1 == 1 {
                let mut sy: usize = 0;
                while sy < scale
                    invariant
                        spec_keeps_shape(pre, *canvas),
                        forall|j: int|
                            0 <= j < canvas.data.len() && !spec_in_square(
                                pre.width as int,
                                x as int,
                                y as int,
                                side as int,
                                j,
                            ) ==> canvas.data@[j] == pre.data@[j],
                        pre == *old(canvas),
                        crate::font::spec_char_bitmap(ch) == Some(bitmap@),
                        row == bitmap@[row_idx as int],
                        (row >> (7 - col) as u8) & 1 == 1,
                        side == 8 * scale,
                        1 <= scale,
                        x + side <= usize::MAX,
                        y + side <= usize::MAX,
                        opacity <= 1000,
                        spec_glyph_inv(
                            pre,
                            *canvas,
                            x as int,
                            y as int,
                            ch,
                            scale as int,
                            (r, g, b),
                            opacity,
                            row_idx as int,
                            col as int,
                            sy as int,
                            0,
                        ),
                        row_idx < 8,
                        col < 8,
                        sy <= scale,
                    decreases scale - sy,
                {
                    let mut sx: usize = 0;
                    while sx < scale
                        invariant
                            spec_keeps_shape(pre, *canvas),
                            forall|j: int|
                                0 <= j < canvas.data.len() && !spec_in_square(
                                    pre.width as int,
                                    x as int,
                                    y as int,
                                    side as int,
                                    j,
                                ) ==> canvas.data@[j] == pre.data@[j],
                            pre == *old(canvas),
                            crate::font::spec_char_bitmap(ch) == Some(bitmap@),
                            row == bitmap@[row_idx as int],
                            (row >> (7 - col) as u8) & 1 == 1,
                            side == 8 * scale,
                            1 <= scale,
                            x + side <= usize::MAX,
                            y + side <= usize::MAX,
                            opacity <= 1000,
                            spec_glyph_inv(
                                pre,
                                *canvas,
                                x as int,
                                y as int,
                                ch,
                                scale as int,
                                (r, g, b),
                                opacity,
                                row_idx as int,
                                col as int,
                                sy as int,
                                sx as int,
                            ),
                            row_idx < 8,
                            col < 8,
                            sy < scale,
                            sx <= scale,
                        decreases scale - sx,
                    {
                        proof {
                            assert((col as int) * scale + sx < 8 * scale && (row_idx as int)
                                * scale + sy < 8 * scale && 0 <= (col as int) * scale && 0 <= (
                            row_idx as int) * scale) by (nonlinear_arith)
                                requires
                                    col < 8 && row_idx < 8 && sx < scale && sy < scale && 0 <= col
                                        && 0 <= row_idx && 0 <= sx && 0 <= sy && 1 <= scale,
                            ;
                        }
                        let px: usize = x + col * scale + sx;
                        let py: usize = y + row_idx * scale + sy;
                        let ghost before_put = *canvas;
                        put_square_pixel(
                            canvas,
                            px,
                            py,
                            (r, g, b),
                            opacity,
                            x,
                            y,
                            side,
                            Ghost(pre),
                        );
                        proof {
                            vstd::arithmetic::div_mod::lemma_fundamental_div_mod_converse(
                                (col as int) * scale + sx,
                                scale as int,
                                col as int,
                                sx as int,
                            );
                            vstd::arithmetic::div_mod::lemma_fundamental_div_mod_converse(
                                (row_idx as int) * scale + sy,
                                scale as int,
                                row_idx as int,
                                sy as int,
                            );
                            assert(spec_glyph_bit(
                                ch,
                                scale as int,
                                (col as int) * scale + sx,
                                (row_idx as int) * scale + sy,
                            ));
                            lemma_glyph_put_step(
                                pre,
                                before_put,
                                *canvas,
                                x as int,
                                y as int,
                                ch,
                                scale as int,
                                (r, g, b),
                                opacity,
                                row_idx as int,
                                col as int,
                                sy as int,
                                sx as int,
                            );
                        }
                        sx += 1;
                    }
                    proof {
                    assert forall|gx: int, gy: int|
                        0 <= gx < 8 * scale && 0 <= gy < 8 * scale implies #[trigger] spec_glyph_done(
                        ch,
                        scale as int,
                        gx,
                        gy,
                        row_idx as int,
                        col as int,
                        sy as int + 1,
                        0,
                    ) == spec_glyph_done(ch, scale as int, gx, gy, row_idx as int, col as int, sy as int, scale as int) by {
                        assert(0 <= gx % (scale as int) < scale && 0 <= gy % (scale as int)
                            < scale && 0 <= gx / (scale as int) < 8 && 0 <= gy / (scale as int)
                            < 8) by (nonlinear_arith)
                            requires
                                0 <= gx < 8 * (scale as int) && 0 <= gy < 8 * (scale as int) && 1
                                    <= scale,
                        ;
                    }
                        lemma_glyph_phase(
                            pre,
                            *canvas,
                            x as int,
                            y as int,
                            ch,
                            scale as int,
                            (r, g, b),
                            opacity,
                            row_idx as int,
                            col as int,
                            sy as int,
                            scale as int,
                            row_idx as int,
                            col as int,
                            sy as int + 1,
                            0,
                        );
                    }
                    sy += 1;
                }
                proof {
                    assert forall|gx: int, gy: int|
                        0 <= gx < 8 * scale && 0 <= gy < 8 * scale implies #[trigger] spec_glyph_done(
                        ch,
                        scale as int,
                        gx,
                        gy,
                        row_idx as int,
                        col as int + 1,
                        0,
                        0,
                    ) == spec_glyph_done(ch, scale as int, gx, gy, row_idx as int, col as int, scale as int, 0) by {
                        assert(0 <= gx % (scale as int) < scale && 0 <= gy % (scale as int)
                            < scale && 0 <= gx / (scale as int) < 8 && 0 <= gy / (scale as int)
                            < 8) by (nonlinear_arith)
                            requires
                                0 <= gx < 8 * (scale as int) && 0 <= gy < 8 * (scale as int) && 1
                                    <= scale,
                        ;
                    }
                    lemma_glyph_phase(
                        pre,
                        *canvas,
                        x as int,
                        y as int,
                        ch,
                        scale as int,
                        (r, g, b),
                        opacity,
                        row_idx as int,
                        col as int,
                        scale as int,
                        0,
                        row_idx as int,
                        col as int + 1,
                        0,
                        0,
                    );
                }
            } else {
                proof {
                    assert forall|gx: int, gy: int|
                        0 <= gx < 8 * scale && 0 <= gy < 8 * scale implies #[trigger] spec_glyph_done(
                        ch,
                        scale as int,
                        gx,
                        gy,
                        row_idx as int,
                        col as int + 1,
                        0,
                        0,
                    ) == spec_glyph_done(
                        ch,
                        scale as int,
                        gx,
                        gy,
                        row_idx as int,
                        col as int,
                        0,
                        0,
                    ) by {
                        if gy / (scale as int) == row_idx as int && gx / (scale as int)
                            == col as int {
                            assert(!spec_glyph_bit(ch, scale as int, gx, gy));
                        }
                    }
                    lemma_glyph_phase(
                        pre,
                        *canvas,
                        x as int,
                        y as int,
                        ch,
                        scale as int,
                        (r, g, b),
                        opacity,
                        row_idx as int,
                        col as int,
                        0,
                        0,
                        row_idx as int,
                        col as int + 1,
                        0,
                        0,
                    );
                }
            }
            col += 1;
        }
        proof {
                    assert forall|gx: int, gy: int|
                        0 <= gx < 8 * scale && 0 <= gy < 8 * scale implies #[trigger] spec_glyph_done(
                        ch,
                        scale as int,
                        gx,
                        gy,
                        row_idx as int + 1,
                        0,
                        0,
                        0,
                    ) == spec_glyph_done(ch, scale as int, gx, gy, row_idx as int, 8, 0, 0) by {
                        assert(0 <= gx % (scale as int) < scale && 0 <= gy % (scale as int)
                            < scale && 0 <= gx / (scale as int) < 8 && 0 <= gy / (scale as int)
                            < 8) by (nonlinear_arith)
                            requires
                                0 <= gx < 8 * (scale as int) && 0 <= gy < 8 * (scale as int) && 1
                                    <= scale,
                        ;
                    }
            lemma_glyph_phase(
                pre,
                *canvas,
                x as int,
                y as int,
                ch,
                scale as int,
                (r, g, b),
                opacity,
                row_idx as int,
                8,
                0,
                0,
                row_idx as int + 1,
                0,
                0,
                0,
            );
        }
        row_idx += 1;
    }
    proof {
        assert forall|gx: int, gy: int|
            0 <= gx < 8 * scale && 0 <= gy < 8 * scale && x + gx < pre.width && y + gy < pre.height
                && #[trigger] spec_glyph_bit(ch, scale as int, gx, gy) implies spec_glyph_done(
            ch,
            scale as int,
            gx,
            gy,
            8,
            0,
            0,
            0,
        ) by {
            assert(0 <= gy / (scale as int) < 8) by (nonlinear_arith)
                requires
                    0 <= gy < 8 * (scale as int) && 1 <= scale,
            ;
        }
        assert forall|gx: int, gy: int|
            0 <= gx < 8 * scale && 0 <= gy < 8 * scale && x + gx < pre.width && y + gy < pre.height
                && !#[trigger] spec_glyph_bit(ch, scale as int, gx, gy) implies crate::styles::spec_pixel_kept(
            pre,
            *canvas,
            (x as int) + gx,
            (y as int) + gy,
        ) by {
            assert(!spec_glyph_done(ch, scale as int, gx, gy, 8, 0, 0, 0));
        }
    }
}

/// The display text and the length (in bytes) of its title part, used to
/// split the title color from the artist color. With both flags set and
/// both strings present the text is `title - artist`; with both flags set
/// and both strings missing it falls back to a placeholder.
pub fn build_display_text(
    show_title: bool,
    show_artist: bool,
    track_title: &Option<String>,
    track_artist: &Option<String>,
) -> (r: (String, usize))
    requires
        show_title || show_artist,
    ensures
        ({
            let title_chars = match track_title {
                Some(t) => t@,
                None => Seq::<char>::empty(),
            };
            let artist_chars = match track_artist {
                Some(a) => a@,
                None => Seq::<char>::empty(),
            };
            let title_bytes = vstd::utf8::encode_utf8(title_chars).len() as usize;
            match (show_title, show_artist, track_title, track_artist) {
                (true, true, Some(_), Some(_)) => r.0@ == title_chars + " - "@ + artist_chars
                    && r.1 == title_bytes,
                (true, true, Some(_), None) => r.0@ == title_chars && r.1 == title_bytes,
                (true, true, None, Some(_)) => r.0@ == artist_chars && r.1 == 0,
                (true, false, Some(_), _) => r.0@ == title_chars && r.1 == title_bytes,
                (false, true, _, Some(_)) => r.0@ == artist_chars && r.1 == 0,
                _ => r.0@ == "cavibe"@ && r.1 == 6,
            }
        }),
{
    match (show_title, show_artist, track_title, track_artist) {
        (true, true, Some(title), Some(artist)) => {
            let mut combined = String::from_str(title.as_str());
            let tl = combined.as_str().len();
            combined.append(" - ");
            combined.append(artist.as_str());
            (combined, tl)
        },
        (true, true, Some(title), _) => {
            let tl = title.as_str().len();
            (String::from_str(title.as_str()), tl)
        },
        (true, true, _, Some(artist)) => (String::from_str(artist.as_str()), 0),
        (true, false, Some(title), _) => {
            let tl = title.as_str().len();
            (String::from_str(title.as_str()), tl)
        },
        (false, true, _, Some(artist)) => (String::from_str(artist.as_str()), 0),
        _ => (String::from_str("cavibe"), 6),
    }
}

/// The glyph scale for a font style on a canvas of height `h`: a per-style
/// base scale, proportional to the height against a reference height of
/// 800 rows, rounded, and at least 1.
pub open spec fn spec_font_scale(style: FontStyle, h: int) -> int {
    let base: int = match style {
        FontStyle::Normal => 3000,
        FontStyle::Bold => 4000,
        FontStyle::Ascii => 2000,
        FontStyle::Figlet => 5000,
    };
    let rounded = (base * h + 400000) / 800000;
    if rounded >= 1 {
        rounded
    } else {
        1
    }
}

/// Compute the glyph scale for a font style on a canvas of height `h`.
pub fn font_scale(style: FontStyle, h: usize) -> (s: usize)
    requires
        4 * h <= usize::MAX,
    ensures
        s == spec_font_scale(style, h as int),
        1 <= s,
        s <= h / 160 + 1,
{
    let base: u64 = match style {
        FontStyle::Normal => 3000,
        FontStyle::Bold => 4000,
        FontStyle::Ascii => 2000,
        FontStyle::Figlet => 5000,
    };
    proof {
        assert((base as int) * (h as int) + 400000 <= 5000 * (h as int) + 400000 && 0 <= (
        base as int) * (h as int) && (5000 * (h as int) + 400000) / 800000 <= (h as int) / 160 + 1)
            by (nonlinear_arith)
            requires
                base <= 5000 && 0 <= h,
        ;
        vstd::arithmetic::div_mod::lemma_div_is_ordered(
            (base as int) * (h as int) + 400000,
            5000 * (h as int) + 400000,
            800000,
        );
    }
    let r: usize = (((base as u128) * (h as u128) + 400000) / 800000) as usize;
    if r >= 1 {
        r
    } else {
        1
    }
}

/// Overlay the track text onto the canvas. With neither the title nor the
/// artist shown the canvas is untouched; the canvas always keeps its
/// shape.
#[verifier::rlimit(60)]
pub fn render_text(canvas: &mut Canvas, frame: &FrameData, params: &RenderParams)
    requires
        old(canvas).inv(),
        frame.wf(),
        params.wf(),
    ensures
        spec_keeps_shape(*old(canvas), *final(canvas)),
        !params.text_config.show_title && !params.text_config.show_artist
            ==> final(canvas).data@ == old(canvas).data@,
{
    let tc = &params.text_config;
    if !tc.show_title && !tc.show_artist {
        return ;
    }
    if canvas.width == 0 || canvas.height == 0 {
        return ;
    }
    let width: usize = canvas.width;
    let height: usize = canvas.height;
    proof {
        assert(4 * width <= width * height * 4 && 4 * height <= width * height * 4)
            by (nonlinear_arith)
            requires
                width >= 1 && height >= 1,
        ;
    }
    let (text, title_len) = build_display_text(
        tc.show_title,
        tc.show_artist,
        &frame.track_title,
        &frame.track_artist,
    );
    let text_bytes = text.as_str().as_bytes();
    let n_chars: usize = text_bytes.len();
    if n_chars == 0 {
        return ;
    }
    let scale: usize = font_scale(tc.font_style, height);
    let char_width: usize = 8 * scale;
    let char_height: usize = 8 * scale;
    let char_spacing: usize = match tc.font_style {
        FontStyle::Bold => 2 * scale,
        _ => scale,
    };
    let text_area_height: usize = char_height + 20;
    let margin_h: usize = tc.margin_horizontal as usize;
    // Vertical position, and a horizontal override when explicit
    // coordinates are configured.
    let (base_text_y, coord_x_override): (usize, Option<usize>) = match tc.position {
        TextPosition::Top => (tc.margin_top as usize, None),
        TextPosition::Bottom => {
            let reserve = text_area_height + tc.margin_bottom as usize;
            (
                if height >= reserve {
                    height - reserve
                } else {
                    0
                },
                None,
            )
        },
        TextPosition::Center => (
            (if height >= char_height {
                height - char_height
            } else {
                0
            }) / 2,
            None,
        ),
        TextPosition::Coordinates { x, y } => {
            let yy = resolve_coord(&y, height);
            let xx = resolve_coord(&x, width);
            (yy, Some(xx))
        },
    };
    let slot: usize = char_width + char_spacing;
    let text_width: usize = if n_chars <= usize::MAX / slot {
        proof {
            assert((n_chars as int) * (slot as int) <= usize::MAX) by (nonlinear_arith)
                requires
                    0 <= n_chars <= (usize::MAX as int) / (slot as int) && 1 <= slot,
            ;
        }
        n_chars * slot
    } else {
        usize::MAX
    };
    let available_width: usize = if width >= 2 * margin_h {
        width - 2 * margin_h
    } else {
        0
    };
    let base_start_x: usize = match coord_x_override {
        Some(cx) => cx,
        _ => {
            match tc.alignment {
                TextAlignment::Left => margin_h,
                TextAlignment::Center => margin_h + (if available_width >= text_width {
                    available_width - text_width
                } else {
                    0
                }) / 2,
                TextAlignment::Right => margin_h + (if available_width >= text_width {
                    available_width - text_width
                } else {
                    0
                }),
            }
        },
    };
    // Ping-pong scroll offset when the text does not fit.
    let scroll_offset: usize = if tc.animation_style == TextAnimation::Scroll && text_width
        > available_width {
        let scroll_range: usize = {
            let base = text_width - available_width;
            if margin_h <= (usize::MAX - base) / 2 {
                base + 2 * margin_h
            } else {
                base
            }
        };
        let speed: u64 = {
            let s = (tc.animation_speed as u64) * 30 / 1000;
            if s >= 1 {
                s
            } else {
                1
            }
        };
        proof {
            assert(0 <= (frame.time_ms as int) * (speed as int) <= u128::MAX) by (nonlinear_arith)
                requires
                    0 <= frame.time_ms <= u64::MAX && 0 <= speed <= u64::MAX,
            ;
        }
        let traveled: u128 = (frame.time_ms as u128) * (speed as u128) / 1000;
        if scroll_range >= 1 {
            let cycle: u128 = traveled % (2 * (scroll_range as u128));
            if cycle > scroll_range as u128 {
                (2 * (scroll_range as u128) - cycle) as usize
            } else {
                cycle as usize
            }
        } else {
            0
        }
    } else {
        0
    };
    let y_base: usize = {
        let pad = (if text_area_height >= char_height {
            text_area_height - char_height
        } else {
            0
        }) / 2;
        if base_text_y <= usize::MAX - pad {
            base_text_y + pad
        } else {
            usize::MAX
        }
    };
    // Background box behind the text, when configured.
    match tc.background_color {
        Some(bg) => {
            let bg_padding: usize = 10;
            let bg_x_start: usize = if base_start_x >= bg_padding {
                base_start_x - bg_padding
            } else {
                0
            };
            let bg_x_end: usize = {
                let e = if text_width <= usize::MAX - bg_padding && base_start_x <= usize::MAX
                    - text_width - bg_padding {
                    base_start_x + text_width + bg_padding
                } else {
                    usize::MAX
                };
                if e <= width {
                    e
                } else {
                    width
                }
            };
            let bg_y_start: usize = if base_text_y >= bg_padding {
                base_text_y - bg_padding
            } else {
                0
            };
            let bg_y_end: usize = {
                let e = if text_area_height <= usize::MAX - bg_padding && base_text_y <= usize::MAX
                    - text_area_height - bg_padding {
                    base_text_y + text_area_height + bg_padding
                } else {
                    usize::MAX
                };
                if e <= height {
                    e
                } else {
                    height
                }
            };
            let bg_alpha: u32 = milli_mul(params.opacity, 800);
            let mut py: usize = bg_y_start;
            while py < bg_y_end
                invariant
                    spec_keeps_shape(*old(canvas), *canvas),
                    bg_y_end <= canvas.height,
                    bg_x_end <= canvas.width,
                    params.wf(),
                    bg_alpha <= 1000,
                decreases bg_y_end - py,
            {
                let mut px: usize = bg_x_start;
                while px < bg_x_end
                    invariant
                        spec_keeps_shape(*old(canvas), *canvas),
                        bg_x_end <= canvas.width,
                        py < canvas.height,
                        params.wf(),
                        bg_alpha <= 1000,
                    decreases bg_x_end - px,
                {
                    canvas.put_pixel_with_alpha(
                        px,
                        py,
                        bg.r,
                        bg.g,
                        bg.b,
                        params.opacity,
                        bg_alpha,
                    );
                    px += 1;
                }
                py += 1;
            }
        },
        _ => {},
    }
    // Per-character colors: scheme gradient, or the configured fixed
    // title/artist colors split at the end of the title.
    let gradient: Option<Vec<(u8, u8, u8)>> = if tc.use_color_scheme {
        if n_chars <= usize::MAX / 1000 {
            let scaled_time: u32 = {
                proof {
                    assert(0 <= (frame.time_ms as int) * (tc.animation_speed as int) <= u64::MAX)
                        by (nonlinear_arith)
                        requires
                            0 <= frame.time_ms <= u32::MAX && 0 <= tc.animation_speed <= u32::MAX,
                    ;
                }
                let t = (frame.time_ms as u64) * (tc.animation_speed as u64) / 1000;
                if t <= u32::MAX as u64 {
                    t as u32
                } else {
                    u32::MAX
                }
            };
            Some(
                params.color_scheme.get_text_gradient(
                    n_chars,
                    milli_mul(frame.intensity, crate::fixed::milli_clamp(tc.pulse_intensity)),
                    scaled_time,
                ),
            )
        } else {
            Some(Vec::new())
        }
    } else {
        Option::None
    };
    let title_rgb: (u8, u8, u8) = match tc.title_color {
        Some(c) => (c.r, c.g, c.b),
        _ => (255, 255, 255),
    };
    let artist_rgb: (u8, u8, u8) = match tc.artist_color {
        Some(c) => (c.r, c.g, c.b),
        _ => (200, 200, 200),
    };
    // Draw the characters.
    proof {
        assert(8 * (scale as int) + char_spacing <= usize::MAX / 64 + 20) by (nonlinear_arith)
            requires
                scale <= (height as int) / 160 + 1 && char_spacing <= 2 * (scale as int) && 4
                    * height <= usize::MAX && 0 <= height && 0 <= scale,
        ;
    }
    let mut i: usize = 0;
    while i < n_chars
        invariant
            spec_keeps_shape(*old(canvas), *canvas),
            n_chars == text_bytes.len(),
            width == canvas.width,
            height == canvas.height,
            4 * width <= usize::MAX,
            4 * height <= usize::MAX,
            scale >= 1,
            scale <= height / 160 + 1,
            slot == 8 * scale + char_spacing,
            char_spacing <= 2 * scale,
            slot <= usize::MAX / 64 + 20,
            params.wf(),
            frame.wf(),
            i <= n_chars,
        decreases n_chars - i,
    {
        let ch: char = text_bytes[i] as char;
        proof {
            assert(0 <= (i as int) * (slot as int) <= i128::MAX / 4) by (nonlinear_arith)
                requires
                    0 <= i <= usize::MAX && 0 <= slot <= usize::MAX / 64 + 20,
            ;
        }
        let base_x_wide: i128 = base_start_x as i128 - scroll_offset as i128 + (i as i128) * (
        slot as i128);
        // Per-character animation: vertical offset and opacity.
        let mut char_y: usize = y_base;
        let mut char_opacity: u32 = params.opacity;
        match tc.animation_style {
            TextAnimation::Wave => {
                // Three radians per second: about 172 degrees every second.
                let phase: u128 = (frame.time_ms as u128) * 172 / 1000;
                proof {
                    assert(0 <= phase * (tc.animation_speed as int) <= u128::MAX)
                        by (nonlinear_arith)
                        requires
                            0 <= phase <= u64::MAX && 0 <= tc.animation_speed <= u32::MAX,
                    ;
                }
                let deg: u32 = ((phase * (tc.animation_speed as u128) / 1000 + (i as u128) * 17)
                    % 360) as u32;
                let s: i32 = sin_deg(deg);
                let off: usize = if s >= 0 {
                    ((s as u32) * 8 / 1000) as usize
                } else {
                    (((-s) as u32) * 8 / 1000) as usize
                };
                char_y = if s >= 0 {
                    if y_base <= usize::MAX - off {
                        y_base + off
                    } else {
                        y_base
                    }
                } else {
                    if y_base >= off {
                        y_base - off
                    } else {
                        0
                    }
                };
            },
            TextAnimation::Pulse => {
                let p: u32 = 700 + milli_mul(
                    300,
                    milli_mul(frame.intensity, crate::fixed::milli_clamp(tc.pulse_intensity)),
                );
                char_opacity = milli_mul(params.opacity, p);
            },
            TextAnimation::Fade => {
                proof {
                    assert(0 <= (frame.time_ms as int) * (tc.animation_speed as int) <= u64::MAX)
                        by (nonlinear_arith)
                        requires
                            0 <= frame.time_ms <= u32::MAX && 0 <= tc.animation_speed <= u32::MAX,
                    ;
                }
                // One radian per second at unit speed: about 57 degrees.
                let deg: u32 = (((frame.time_ms as u128) * (tc.animation_speed as u128) * 57
                    / 1000000) % 360) as u32;
                let s: i32 = sin_deg(deg);
                let inner: u32 = if s >= 0 {
                    500 + (s as u32) / 2
                } else {
                    500 - ((-s) as u32) / 2
                };
                let fade: u32 = 500 + inner / 2;
                char_opacity = milli_mul(params.opacity, fade);
            },
            _ => {},
        }
        let (r, g, b): (u8, u8, u8) = match &gradient {
            Some(colors) => {
                if i < colors.len() {
                    colors[i]
                } else {
                    (255, 255, 255)
                }
            },
            _ => {
                if title_len > 0 && i >= title_len && i - title_len >= 3 {
                    artist_rgb
                } else {
                    title_rgb
                }
            },
        };
        // Skip characters that sit outside the visible area.
        if 0 <= base_x_wide && base_x_wide < width as i128 && char_y < height {
            let char_x: usize = base_x_wide as usize;
            proof {
                assert(char_x + 8 * scale <= usize::MAX && char_y + 8 * scale <= usize::MAX && (
                char_y as int) + 1 + 8 * scale <= usize::MAX && (char_x as int) + 2 + 8 * scale
                    <= usize::MAX && (char_y as int) + 2 + 8 * scale <= usize::MAX)
                    by (nonlinear_arith)
                    requires
                        char_x < width && char_y < height && scale <= height / 160 + 1 && 4 * width
                            <= usize::MAX && 4 * height <= usize::MAX && height >= 1 && width >= 1
                            && scale >= 1,
            ;
            }
            match tc.font_style {
                FontStyle::Bold => {
                    render_char(canvas, char_x, char_y, ch, r, g, b, scale, char_opacity);
                    render_char(canvas, char_x + 1, char_y, ch, r, g, b, scale, char_opacity);
                    render_char(canvas, char_x, char_y + 1, ch, r, g, b, scale, char_opacity);
                },
                FontStyle::Figlet => {
                    let outline = (r / 3, g / 3, b / 3);
                    let outline_op: u32 = char_opacity / 2;
                    render_char(
                        canvas,
                        char_x,
                        char_y,
                        ch,
                        outline.0,
                        outline.1,
                        outline.2,
                        scale,
                        outline_op,
                    );
                    render_char(
                        canvas,
                        char_x + 2,
                        char_y,
                        ch,
                        outline.0,
                        outline.1,
                        outline.2,
                        scale,
                        outline_op,
                    );
                    render_char(
                        canvas,
                        char_x,
                        char_y + 2,
                        ch,
                        outline.0,
                        outline.1,
                        outline.2,
                        scale,
                        outline_op,
                    );
                    render_char(
                        canvas,
                        char_x + 2,
                        char_y + 2,
                        ch,
                        outline.0,
                        outline.1,
                        outline.2,
                        scale,
                        outline_op,
                    );
                    render_char(
                        canvas,
                        char_x + 1,
                        char_y + 1,
                        ch,
                        r,
                        g,
                        b,
                        scale,
                        char_opacity,
                    );
                },
                _ => {
                    render_char(canvas, char_x, char_y, ch, r, g, b, scale, char_opacity);
                },
            }
        }
        i += 1;
    }
}

/// Resolve a configured coordinate against a dimension: pixels pass
/// through (negative values as zero), a percentage takes its share of the
/// dimension, saturating at the machine limit.
fn resolve_coord(c: &crate::config::CoordValue, total: usize) -> (r: usize)
    ensures
        r == match *c {
            crate::config::CoordValue::Pixels(px) => if px >= 0 {
                px as int
            } else {
                0int
            },
            crate::config::CoordValue::Percent(pct) => if total * pct / 100 <= usize::MAX {
                total * pct / 100
            } else {
                usize::MAX as int
            },
        },
{
    match c {
        crate::config::CoordValue::Pixels(px) => if *px >= 0 {
            *px as usize
        } else {
            0
        },
        crate::config::CoordValue::Percent(pct) => {
            proof {
                assert(0 <= (total as int) * (*pct as int) <= u128::MAX) by (nonlinear_arith)
                    requires
                        0 <= total <= usize::MAX && 0 <= *pct <= u32::MAX,
                ;
            }
            let wide: u128 = (total as u128) * (*pct as u128) / 100;
            if wide <= usize::MAX as u128 {
                wide as usize
            } else {
                usize::MAX
            }
        },
    }
}

} // verus!
