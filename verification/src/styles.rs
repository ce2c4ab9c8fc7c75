//! The eight bar-style renderers and their dispatch.
//!
//! Every style draws only into the bar band computed by the layout: the
//! contracts say that bytes of rows outside the band are untouched. Rows
//! are contiguous in the RGBA buffer, so the band is the byte interval
//! `[bars_y_start * width * 4, (bars_y_start + bars_height) * width * 4)`.
//!
//! Six styles (classic, mirrored, wave, blocks, oscilloscope, spectrogram)
//! additionally carry a complete per-pixel contract: exactly which pixels
//! they cover, and the color and opacity each covered pixel comes out
//! with. The dots and radial styles draw overlapping strokes whose final
//! value depends on draw order, so their contracts stop at the band frame
//! condition.

use vstd::prelude::*;

use crate::canvas::Canvas;
use crate::fixed::{milli_frac, milli_mul, resample_index, scale_dim};
use crate::layout::{compute_bar_layout, BarLayout};
use crate::renderer::RenderParams;

verus! {

/// The canvas kept its shape: same dimensions, same buffer length, still
/// well formed.
pub open spec fn spec_same_frame(pre: Canvas, post: Canvas) -> bool {
    &&& post.inv()
    &&& post.width == pre.width
    &&& post.height == pre.height
    &&& post.data.len() == pre.data.len()
}

/// Every byte outside the row band `ys..ys+hb` is unchanged.
pub open spec fn spec_rows_kept(pre: Canvas, post: Canvas, ys: int, hb: int) -> bool {
    forall|j: int|
        0 <= j < post.data.len() && !(ys * pre.width * 4 <= j < (ys + hb) * pre.width * 4)
            ==> post.data@[j] == pre.data@[j]
}

/// The four bytes of a pixel in rows `ys..ys+hb` lie inside the band's byte
/// interval.
proof fn lemma_pixel_in_band(x: int, y: int, w: int, ys: int, hb: int)
    by (nonlinear_arith)
    requires
        0 <= x < w,
        0 <= ys <= y,
        y < ys + hb,
    ensures
        ys * w * 4 <= (y * w + x) * 4,
        (y * w + x) * 4 + 3 < (ys + hb) * w * 4,
{
}

/// Squares of canvas-scale offsets stay far from the wide-integer limit.
proof fn lemma_circle_bound(dx: int, dy: int, r: int)
    by (nonlinear_arith)
    requires
        -r <= dx <= r,
        -r <= dy <= r,
        0 <= r <= 0x7000000000000000,
    ensures
        0 <= dx * dx <= r * r,
        0 <= dy * dy <= r * r,
        dx * dx + dy * dy <= i128::MAX,
        r * r <= i128::MAX,
{
}

/// A slot times a bar index stays within the drawn extent.
proof fn lemma_slot_extent(i: int, d: int, slot: int)
    by (nonlinear_arith)
    requires
        0 <= i < d,
        1 <= slot,
    ensures
        i * slot + slot <= d * slot,
        0 <= i * slot,
        slot <= d * slot,
{
}

/// Total number of styles.
pub fn style_count() -> (n: usize)
    ensures
        n == 8,
{
    8
}

/// Write one pixel that lies in the row band `ys..ys+hb`, carrying the
/// band frame condition relative to the canvas `pre` from before the style
/// began drawing.
fn put_band_pixel(
    canvas: &mut Canvas,
    x: usize,
    y: usize,
    col: (u8, u8, u8),
    opacity: u32,
    ys: usize,
    hb: usize,
    Ghost(pre): Ghost<Canvas>,
)
    requires
        old(canvas).inv(),
        spec_same_frame(pre, *old(canvas)),
        spec_rows_kept(pre, *old(canvas), ys as int, hb as int),
        opacity <= crate::fixed::MILLI_ONE,
        ys <= y < ys + hb,
        ys + hb <= old(canvas).height,
    ensures
        spec_same_frame(pre, *final(canvas)),
        spec_rows_kept(pre, *final(canvas), ys as int, hb as int),
        x < pre.width ==> final(canvas).data@ == old(canvas).data@.update(
            ((y as int) * pre.width + x) * 4,
            crate::canvas::spec_premul(col.0, opacity),
        ).update(((y as int) * pre.width + x) * 4 + 1, crate::canvas::spec_premul(col.1, opacity))
            .update(((y as int) * pre.width + x) * 4 + 2, crate::canvas::spec_premul(col.2, opacity))
            .update(((y as int) * pre.width + x) * 4 + 3, crate::canvas::spec_alpha(opacity)),
        x >= pre.width ==> final(canvas).data@ == old(canvas).data@,
{
    let ghost before = *canvas;
    canvas.put_pixel(x, y, col.0, col.1, col.2, opacity);
    proof {
        let i0 = before.spec_index(x as int, y as int);
        if x < pre.width {
            lemma_pixel_in_band(x as int, y as int, pre.width as int, ys as int, hb as int);
            let s0 = before.data@;
            let s1 = s0.update(i0, crate::canvas::spec_premul(col.0, opacity));
            let s2 = s1.update(i0 + 1, crate::canvas::spec_premul(col.1, opacity));
            let s3 = s2.update(i0 + 2, crate::canvas::spec_premul(col.2, opacity));
            let s4 = s3.update(i0 + 3, crate::canvas::spec_alpha(opacity));
            assert(canvas.data@ == s4);
            assert((ys as int) * pre.width * 4 <= i0 && i0 + 3 < (ys + hb) as int * pre.width * 4);
            assert(((ys + hb) as int) * pre.width * 4 <= pre.width * pre.height * 4)
                by (nonlinear_arith)
                requires
                    ys + hb <= pre.height && pre.width >= 0,
            ;
            assert(i0 + 3 < canvas.data.len());
            assert forall|j: int|
                0 <= j < canvas.data.len() && !((ys as int) * pre.width * 4 <= j < (ys + hb) as int
                    * pre.width * 4) implies canvas.data@[j] == pre.data@[j] by {
                assert(s4[j] == s3[j]);
                assert(s3[j] == s2[j]);
                assert(s2[j] == s1[j]);
                assert(s1[j] == s0[j]);
                assert(before.data@[j] == pre.data@[j]);
            }
        } else {
            assert(canvas.data@ == before.data@);
            assert forall|j: int|
                0 <= j < canvas.data.len() && !((ys as int) * pre.width * 4 <= j < (ys + hb) as int
                    * pre.width * 4) implies canvas.data@[j] == pre.data@[j] by {
                assert(before.data@[j] == pre.data@[j]);
            }
        }
    }
}

/// Shared preconditions of every style renderer.
pub open spec fn spec_style_pre(canvas: Canvas, layout: BarLayout, params: RenderParams) -> bool {
    &&& canvas.inv()
    &&& layout.wf(canvas.width as int, canvas.height as int)
    &&& params.wf()
    &&& params.bar_width <= layout.slot_width || params.bar_width == 0
}

/// Shared postconditions of every style renderer: the canvas keeps its
/// shape and only the bar band is written.
pub open spec fn spec_style_post(pre: Canvas, post: Canvas, layout: BarLayout) -> bool {
    &&& spec_same_frame(pre, post)
    &&& spec_rows_kept(pre, post, layout.bars_y_start as int, layout.bars_height as int)
}

/// Whether the inputs admit a bar layout: there are magnitudes, the band
/// has room, the slot is positive, and at least one bar fits.
pub open spec fn spec_layout_exists(w: int, h: int, freqs: Seq<u32>, params: RenderParams) -> bool {
    let n = freqs.len() as int;
    let bar_count = if n <= w {
        n
    } else {
        w
    };
    let band = crate::layout::spec_bars_band(params.text_config, h);
    let slot = (params.bar_width + params.bar_spacing) as int;
    &&& n >= 1
    &&& band.1 >= 1
    &&& slot >= 1
    &&& (if w / slot <= bar_count {
        w / slot
    } else {
        bar_count
    }) >= 1
}

/// The layout `compute_bar_layout` produces for these inputs: the text
/// band, the slot geometry, the centered extent, and the re-sampled
/// magnitudes.
#[verifier::opaque]
pub open spec fn spec_layout_matches(
    l: BarLayout,
    w: int,
    h: int,
    freqs: Seq<u32>,
    params: RenderParams,
) -> bool {
    let n = freqs.len() as int;
    let bar_count = if n <= w {
        n
    } else {
        w
    };
    let band = crate::layout::spec_bars_band(params.text_config, h);
    let slot = (params.bar_width + params.bar_spacing) as int;
    let displayable = if w / slot <= bar_count {
        w / slot
    } else {
        bar_count
    };
    &&& l.bars_y_start == band.0
    &&& l.bars_height == band.1
    &&& l.slot_width == slot
    &&& l.displayable == displayable
    &&& l.start_x == (if w >= displayable * slot {
        (w - displayable * slot) / 2
    } else {
        0
    })
    &&& l.render_frequencies.len() == displayable
    &&& forall|i: int|
        0 <= i < displayable ==> #[trigger] l.render_frequencies@[i] == freqs[crate::layout::spec_source_index(
            i,
            displayable,
            n,
            params.mirror,
            params.reverse_mirror,
        )]
    &&& l.wf(w, h)
}

/// What the selected style guarantees of the canvas, in terms of the
/// layout it was drawn with: for six of the eight styles, exactly which
/// pixels it painted and with what value; for the dots and radial styles
/// (whose overlapping strokes are draw-order dependent) at least that
/// nothing outside the band changed.
#[verifier::opaque]
pub open spec fn spec_style_result(
    pre: Canvas,
    post: Canvas,
    l: BarLayout,
    params: RenderParams,
) -> bool {
    if params.style == 1 {
        &&& forall|x: int, y: int|
            0 <= x < pre.width && 0 <= y < pre.height && #[trigger] spec_mirrored_covers(
                l,
                params,
                x,
                y,
            ) ==> spec_pixel_is(post, x, y, spec_mirrored_color(l, params, x, y), params.opacity)
        &&& forall|x: int, y: int|
            0 <= x < pre.width && 0 <= y < pre.height && !#[trigger] spec_mirrored_covers(
                l,
                params,
                x,
                y,
            ) ==> spec_pixel_kept(pre, post, x, y)
    } else if params.style == 2 {
        &&& forall|x: int, y: int|
            0 <= x < pre.width && 0 <= y < pre.height && #[trigger] spec_wave_covers(
                l,
                params,
                x,
                y,
            ) ==> spec_pixel_is(
                post,
                x,
                y,
                spec_wave_color(l, params, x, y),
                spec_wave_op(l, params, x, y),
            )
        &&& forall|x: int, y: int|
            0 <= x < pre.width && 0 <= y < pre.height && !#[trigger] spec_wave_covers(
                l,
                params,
                x,
                y,
            ) ==> spec_pixel_kept(pre, post, x, y)
    } else if params.style == 3 {
        true
    } else if params.style == 4 {
        &&& forall|x: int, y: int|
            0 <= x < pre.width && 0 <= y < pre.height && #[trigger] spec_blocks_covers(
                l,
                params,
                x,
                y,
            ) ==> spec_pixel_is(
                post,
                x,
                y,
                spec_blocks_color(l, params, x, y),
                spec_blocks_op(l, params, x, y),
            )
        &&& forall|x: int, y: int|
            0 <= x < pre.width && 0 <= y < pre.height && !#[trigger] spec_blocks_covers(
                l,
                params,
                x,
                y,
            ) ==> spec_pixel_kept(pre, post, x, y)
    } else if params.style == 5 {
        &&& forall|x: int, y: int|
            0 <= x < pre.width && 0 <= y < pre.height && #[trigger] spec_osc_covers(
                l,
                params,
                pre.width as int,
                x,
                y,
            ) ==> spec_pixel_is(
                post,
                x,
                y,
                spec_osc_color(l, params, pre.width as int, x),
                params.opacity,
            )
        &&& forall|x: int, y: int|
            0 <= x < pre.width && 0 <= y < pre.height && !#[trigger] spec_osc_covers(
                l,
                params,
                pre.width as int,
                x,
                y,
            ) ==> spec_pixel_kept(pre, post, x, y)
    } else if params.style == 6 {
        &&& forall|x: int, y: int|
            0 <= x < pre.width && 0 <= y < pre.height && #[trigger] spec_spect_covers(
                l,
                params,
                pre.width as int,
                x,
                y,
            ) ==> spec_pixel_is(
                post,
                x,
                y,
                spec_spect_color(l, params, pre.width as int, x, y),
                spec_spect_op(l, params, pre.width as int, x, y),
            )
        &&& forall|x: int, y: int|
            0 <= x < pre.width && 0 <= y < pre.height && !#[trigger] spec_spect_covers(
                l,
                params,
                pre.width as int,
                x,
                y,
            ) ==> spec_pixel_kept(pre, post, x, y)
    } else if params.style == 7 {
        true
    } else {
        &&& forall|x: int, y: int|
            0 <= x < pre.width && 0 <= y < pre.height && #[trigger] spec_classic_covers(
                l,
                params,
                x,
                y,
            ) ==> spec_pixel_is(post, x, y, spec_classic_color(l, params, x, y), params.opacity)
        &&& forall|x: int, y: int|
            0 <= x < pre.width && 0 <= y < pre.height && !#[trigger] spec_classic_covers(
                l,
                params,
                x,
                y,
            ) ==> spec_pixel_kept(pre, post, x, y)
    }
}

/// Pixel `(x, y)` of `post` is fully transparent black.
pub open spec fn spec_pixel_zero(post: Canvas, x: int, y: int) -> bool {
    let j = (y * post.width + x) * 4;
    &&& post.data@[j] == 0u8
    &&& post.data@[j + 1] == 0u8
    &&& post.data@[j + 2] == 0u8
    &&& post.data@[j + 3] == 0u8
}

/// What the selected style leaves on a canvas that was cleared first: for
/// six of the eight styles, covered pixels hold the style's value and
/// every other pixel is transparent black; for the dots and radial styles
/// nothing beyond the band frame is said.
pub open spec fn spec_frame_content(post: Canvas, l: BarLayout, params: RenderParams) -> bool {
    if params.style == 1 {
        &&& forall|x: int, y: int|
            0 <= x < post.width && 0 <= y < post.height && #[trigger] spec_mirrored_covers(
                l,
                params,
                x,
                y,
            ) ==> spec_pixel_is(post, x, y, spec_mirrored_color(l, params, x, y), params.opacity)
        &&& forall|x: int, y: int|
            0 <= x < post.width && 0 <= y < post.height && !#[trigger] spec_mirrored_covers(
                l,
                params,
                x,
                y,
            ) ==> spec_pixel_zero(post, x, y)
    } else if params.style == 2 {
        &&& forall|x: int, y: int|
            0 <= x < post.width && 0 <= y < post.height && #[trigger] spec_wave_covers(
                l,
                params,
                x,
                y,
            ) ==> spec_pixel_is(
                post,
                x,
                y,
                spec_wave_color(l, params, x, y),
                spec_wave_op(l, params, x, y),
            )
        &&& forall|x: int, y: int|
            0 <= x < post.width && 0 <= y < post.height && !#[trigger] spec_wave_covers(
                l,
                params,
                x,
                y,
            ) ==> spec_pixel_zero(post, x, y)
    } else if params.style == 3 {
        true
    } else if params.style == 4 {
        &&& forall|x: int, y: int|
            0 <= x < post.width && 0 <= y < post.height && #[trigger] spec_blocks_covers(
                l,
                params,
                x,
                y,
            ) ==> spec_pixel_is(
                post,
                x,
                y,
                spec_blocks_color(l, params, x, y),
                spec_blocks_op(l, params, x, y),
            )
        &&& forall|x: int, y: int|
            0 <= x < post.width && 0 <= y < post.height && !#[trigger] spec_blocks_covers(
                l,
                params,
                x,
                y,
            ) ==> spec_pixel_zero(post, x, y)
    } else if params.style == 5 {
        &&& forall|x: int, y: int|
            0 <= x < post.width && 0 <= y < post.height && #[trigger] spec_osc_covers(
                l,
                params,
                post.width as int,
                x,
                y,
            ) ==> spec_pixel_is(
                post,
                x,
                y,
                spec_osc_color(l, params, post.width as int, x),
                params.opacity,
            )
        &&& forall|x: int, y: int|
            0 <= x < post.width && 0 <= y < post.height && !#[trigger] spec_osc_covers(
                l,
                params,
                post.width as int,
                x,
                y,
            ) ==> spec_pixel_zero(post, x, y)
    } else if params.style == 6 {
        &&& forall|x: int, y: int|
            0 <= x < post.width && 0 <= y < post.height && #[trigger] spec_spect_covers(
                l,
                params,
                post.width as int,
                x,
                y,
            ) ==> spec_pixel_is(
                post,
                x,
                y,
                spec_spect_color(l, params, post.width as int, x, y),
                spec_spect_op(l, params, post.width as int, x, y),
            )
        &&& forall|x: int, y: int|
            0 <= x < post.width && 0 <= y < post.height && !#[trigger] spec_spect_covers(
                l,
                params,
                post.width as int,
                x,
                y,
            ) ==> spec_pixel_zero(post, x, y)
    } else if params.style == 7 {
        true
    } else {
        &&& forall|x: int, y: int|
            0 <= x < post.width && 0 <= y < post.height && #[trigger] spec_classic_covers(
                l,
                params,
                x,
                y,
            ) ==> spec_pixel_is(post, x, y, spec_classic_color(l, params, x, y), params.opacity)
        &&& forall|x: int, y: int|
            0 <= x < post.width && 0 <= y < post.height && !#[trigger] spec_classic_covers(
                l,
                params,
                x,
                y,
            ) ==> spec_pixel_zero(post, x, y)
    }
}

/// On a cleared canvas, a style's kept pixels are transparent black, so
/// its result pins the whole picture.
#[verifier::rlimit(90)]
pub proof fn lemma_result_on_clear(cleared: Canvas, post: Canvas, l: BarLayout, params: RenderParams)
    requires
        cleared.inv(),
        spec_same_frame(cleared, post),
        forall|j: int| 0 <= j < cleared.width * cleared.height * 4 ==> cleared.data@[j] == 0u8,
        spec_style_result(cleared, post, l, params),
    ensures
        spec_frame_content(post, l, params),
{
    reveal(spec_style_result);
    let w = cleared.width as int;
    let h = cleared.height as int;
    assert forall|x: int, y: int| 0 <= x < w && 0 <= y < h implies (spec_pixel_kept(
        cleared,
        post,
        x,
        y,
    ) ==> spec_pixel_zero(post, x, y)) by {
        if spec_pixel_kept(cleared, post, x, y) {
            let j = (y * w + x) * 4;
            assert(0 <= j && j + 3 < w * h * 4) by (nonlinear_arith)
                requires
                    0 <= x < w && 0 <= y < h && j == (y * w + x) * 4,
            ;
            assert(cleared.data@[j] == 0u8 && cleared.data@[j + 1] == 0u8 && cleared.data@[j + 2]
                == 0u8 && cleared.data@[j + 3] == 0u8);
        }
    }
}

/// Dispatch to the selected style renderer. With no usable layout —
/// degenerate geometry — the canvas is completely untouched; otherwise the
/// selected style's own per-pixel guarantees hold for the layout these
/// inputs determine, and in every case only the bar band computed from the
/// text configuration is written.
pub fn render_bars(canvas: &mut Canvas, frequencies: &Vec<u32>, params: &RenderParams)
    requires
        old(canvas).inv(),
        params.wf(),
        forall|i: int| 0 <= i < frequencies.len() ==> #[trigger] frequencies@[i] <= 1000,
    ensures
        spec_same_frame(*old(canvas), *final(canvas)),
        spec_rows_kept(
            *old(canvas),
            *final(canvas),
            crate::layout::spec_bars_band(params.text_config, old(canvas).height as int).0,
            crate::layout::spec_bars_band(params.text_config, old(canvas).height as int).1,
        ),
        !spec_layout_exists(
            old(canvas).width as int,
            old(canvas).height as int,
            frequencies@,
            *params,
        ) ==> final(canvas).data@ == old(canvas).data@,
        spec_layout_exists(
            old(canvas).width as int,
            old(canvas).height as int,
            frequencies@,
            *params,
        ) ==> exists|l: BarLayout|
            #[trigger] spec_layout_matches(
                l,
                old(canvas).width as int,
                old(canvas).height as int,
                frequencies@,
                *params,
            ) && spec_style_result(*old(canvas), *final(canvas), l, *params),
{
    let layout = match compute_bar_layout(canvas.width, canvas.height, frequencies, params) {
        Some(l) => l,
        None => {
            return ;
        },
    };
    let ghost w = canvas.width as int;
    let ghost h = canvas.height as int;
    proof {
        reveal(spec_layout_matches);
        assert(spec_layout_matches(layout, w, h, frequencies@, *params));
    }
    if params.style == 1 {
        render_bars_mirrored(canvas, &layout, params);
    } else if params.style == 2 {
        render_bars_wave(canvas, &layout, params);
    } else if params.style == 3 {
        render_bars_dots(canvas, &layout, params);
    } else if params.style == 4 {
        render_bars_blocks(canvas, &layout, params);
    } else if params.style == 5 {
        render_bars_oscilloscope(canvas, &layout, params);
    } else if params.style == 6 {
        render_bars_spectrogram(canvas, &layout, params);
    } else if params.style == 7 {
        render_bars_radial(canvas, &layout, params);
    } else {
        render_bars_classic(canvas, &layout, params);
    }
    proof {
        reveal(spec_style_result);
        assert(spec_style_result(*old(canvas), *canvas, layout, *params));
    }
}

/// Which drawn bar covers column `x` (negative when none): the bar whose
/// slot contains `x`, with `x` inside the bar's painted width.
pub open spec fn spec_bar_at(layout: BarLayout, bar_width: int, x: int) -> int {
    if layout.start_x <= x < layout.start_x + layout.displayable * layout.slot_width && (x
        - layout.start_x) % (layout.slot_width as int) < bar_width {
        (x - layout.start_x) / (layout.slot_width as int)
    } else {
        -1
    }
}

/// Rows a bar of milli magnitude `m` fills in a band of `hb` rows.
pub open spec fn spec_bar_height(m: int, hb: int) -> int {
    m * hb / 1000
}

/// Whether the classic style paints pixel `(x, y)`: the pixel sits in a
/// bar's painted columns, inside the band, and no higher above the band's
/// bottom row than the bar's height.
pub open spec fn spec_classic_covers(
    layout: BarLayout,
    params: RenderParams,
    x: int,
    y: int,
) -> bool {
    let b = spec_bar_at(layout, params.bar_width as int, x);
    let yo = layout.bars_y_start + layout.bars_height - 1 - y;
    &&& b >= 0
    &&& layout.bars_y_start <= y < layout.bars_y_start + layout.bars_height
    &&& yo < spec_bar_height(
        layout.render_frequencies@[b] as int,
        layout.bars_height as int,
    )
}

/// The color the classic style paints at `(x, y)`: the scheme color at the
/// bar's horizontal position and the row's height fraction.
pub open spec fn spec_classic_color(
    layout: BarLayout,
    params: RenderParams,
    x: int,
    y: int,
) -> (u8, u8, u8) {
    let b = spec_bar_at(layout, params.bar_width as int, x);
    let yo = layout.bars_y_start + layout.bars_height - 1 - y;
    crate::color::spec_get_color(
        params.color_scheme,
        b * 1000 / (layout.displayable as int),
        yo * 1000 / (layout.bars_height as int),
    )
}

/// Pixel `(x, y)` of `post` holds `col` premultiplied by `opacity`.
pub open spec fn spec_pixel_is(post: Canvas, x: int, y: int, col: (u8, u8, u8), opacity: u32) -> bool {
    let j = (y * post.width + x) * 4;
    &&& post.data@[j] == crate::canvas::spec_premul(col.0, opacity)
    &&& post.data@[j + 1] == crate::canvas::spec_premul(col.1, opacity)
    &&& post.data@[j + 2] == crate::canvas::spec_premul(col.2, opacity)
    &&& post.data@[j + 3] == crate::canvas::spec_alpha(opacity)
}

/// Pixel `(x, y)` is unchanged between `pre` and `post`.
pub open spec fn spec_pixel_kept(pre: Canvas, post: Canvas, x: int, y: int) -> bool {
    let j = (y * pre.width + x) * 4;
    &&& post.data@[j] == pre.data@[j]
    &&& post.data@[j + 1] == pre.data@[j + 1]
    &&& post.data@[j + 2] == pre.data@[j + 2]
    &&& post.data@[j + 3] == pre.data@[j + 3]
}

/// The classic style's progress: pixel `(x, y)` is painted once the loops
/// have finished every bar below `i`, every row offset of bar `i` below
/// `yo_prog`, and the first `bx_prog` columns of row `yo_prog`.
pub open spec fn spec_classic_done(
    layout: BarLayout,
    params: RenderParams,
    x: int,
    y: int,
    i: int,
    yo_prog: int,
    bx_prog: int,
) -> bool {
    &&& spec_classic_covers(layout, params, x, y)
    &&& {
        let b = spec_bar_at(layout, params.bar_width as int, x);
        let yo = layout.bars_y_start + layout.bars_height - 1 - y;
        let c = (x - layout.start_x) % (layout.slot_width as int);
        ||| b < i
        ||| (b == i && yo < yo_prog)
        ||| (b == i && yo == yo_prog && c < bx_prog)
    }
}

/// Distinct pixels of one canvas occupy distinct buffer indexes.
pub proof fn lemma_pixel_index_distinct(x1: int, y1: int, x2: int, y2: int, w: int)
    by (nonlinear_arith)
    requires
        0 <= x1 < w,
        0 <= x2 < w,
        0 <= y1,
        0 <= y2,
        x1 != x2 || y1 != y2,
    ensures
        y1 * w + x1 != y2 * w + x2,
{
}

/// The column arithmetic of one painted pixel: offset `bx` of bar `i`.
proof fn lemma_bar_column(sx: int, slot: int, d: int, i: int, bx: int)
    requires
        1 <= slot,
        0 <= i < d,
        0 <= bx < slot,
    ensures
        (sx + i * slot + bx - sx) / slot == i,
        (sx + i * slot + bx - sx) % slot == bx,
        sx <= sx + i * slot + bx < sx + d * slot,
{
    vstd::arithmetic::div_mod::lemma_fundamental_div_mod_converse(i * slot + bx, slot, i, bx);
    lemma_slot_extent(i, d, slot);
}

/// A column inside the drawn extent belongs to a bar below `displayable`.
proof fn lemma_bar_at_range(t: int, slot: int, d: int)
    by (nonlinear_arith)
    requires
        1 <= slot,
        0 <= t < d * slot,
    ensures
        0 <= t / slot < d,
        0 <= t % slot < slot,
        t == (t / slot) * slot + t % slot,
{
}

/// The classic style's loop invariant: pixels inside the progress set are
/// painted with their color, all others are untouched.
pub open spec fn spec_classic_inv(
    pre: Canvas,
    cur: Canvas,
    layout: BarLayout,
    params: RenderParams,
    i: int,
    yo_prog: int,
    bx_prog: int,
) -> bool {
    &&& forall|x: int, y: int|
        0 <= x < pre.width && 0 <= y < pre.height && #[trigger] spec_classic_done(
            layout,
            params,
            x,
            y,
            i,
            yo_prog,
            bx_prog,
        ) ==> spec_pixel_is(cur, x, y, spec_classic_color(layout, params, x, y), params.opacity)
    &&& forall|x: int, y: int|
        0 <= x < pre.width && 0 <= y < pre.height && !#[trigger] spec_classic_done(
            layout,
            params,
            x,
            y,
            i,
            yo_prog,
            bx_prog,
        ) ==> spec_pixel_kept(pre, cur, x, y)
}

/// One write of the classic style extends the progress set by exactly the
/// pixel `(x0, y0)`.
#[verifier::rlimit(90)]
proof fn lemma_classic_put_step(
    pre: Canvas,
    before: Canvas,
    after: Canvas,
    layout: BarLayout,
    params: RenderParams,
    i: int,
    yo: int,
    bx: int,
    x0: int,
    y0: int,
    col: (u8, u8, u8),
)
    requires
        spec_style_pre(pre, layout, params),
        spec_same_frame(pre, before),
        spec_same_frame(pre, after),
        spec_classic_inv(pre, before, layout, params, i, yo, bx),
        0 <= i < layout.displayable,
        0 <= bx < params.bar_width,
        x0 == layout.start_x + i * layout.slot_width + bx,
        x0 < pre.width,
        0 <= yo,
        yo < spec_bar_height(
            layout.render_frequencies@[i] as int,
            layout.bars_height as int,
        ),
        spec_bar_height(layout.render_frequencies@[i] as int, layout.bars_height as int)
            <= layout.bars_height,
        y0 == layout.bars_y_start + layout.bars_height - 1 - yo,
        col == crate::color::spec_get_color(
            params.color_scheme,
            i * 1000 / (layout.displayable as int),
            yo * 1000 / (layout.bars_height as int),
        ),
        after.data@ == before.data@.update(
            (y0 * pre.width + x0) * 4,
            crate::canvas::spec_premul(col.0, params.opacity),
        ).update((y0 * pre.width + x0) * 4 + 1, crate::canvas::spec_premul(col.1, params.opacity))
            .update(
            (y0 * pre.width + x0) * 4 + 2,
            crate::canvas::spec_premul(col.2, params.opacity),
        ).update((y0 * pre.width + x0) * 4 + 3, crate::canvas::spec_alpha(params.opacity)),
    ensures
        spec_classic_inv(pre, after, layout, params, i, yo, bx + 1),
{
    let w = pre.width as int;
    let h = pre.height as int;
    let sx = layout.start_x as int;
    let slot = layout.slot_width as int;
    let d = layout.displayable as int;
    let ys = layout.bars_y_start as int;
    let hb = layout.bars_height as int;
    lemma_bar_column(sx, slot, d, i, bx);
    assert(spec_bar_at(layout, params.bar_width as int, x0) == i);
    assert(spec_classic_covers(layout, params, x0, y0));
    assert(spec_classic_color(layout, params, x0, y0) == col);
    let j0 = (y0 * w + x0) * 4;
    let s0 = before.data@;
    let s1 = s0.update(j0, crate::canvas::spec_premul(col.0, params.opacity));
    let s2 = s1.update(j0 + 1, crate::canvas::spec_premul(col.1, params.opacity));
    let s3 = s2.update(j0 + 2, crate::canvas::spec_premul(col.2, params.opacity));
    let s4 = s3.update(j0 + 3, crate::canvas::spec_alpha(params.opacity));
    assert(after.data@ == s4);
    lemma_pixel_in_band(x0, y0, w, ys, hb);
    assert((ys + hb) * w * 4 <= w * h * 4) by (nonlinear_arith)
        requires
            ys + hb <= h && w >= 0,
    ;
    assert(0 <= j0 && j0 + 3 < before.data.len());
    assert forall|x: int, y: int|
        0 <= x < pre.width && 0 <= y < pre.height && #[trigger] spec_classic_done(
            layout,
            params,
            x,
            y,
            i,
            yo,
            bx + 1,
        ) implies spec_pixel_is(
        after,
        x,
        y,
        spec_classic_color(layout, params, x, y),
        params.opacity,
    ) by {
        if x == x0 && y == y0 {
            assert(s4[j0] == crate::canvas::spec_premul(col.0, params.opacity));
            assert(s4[j0 + 1] == crate::canvas::spec_premul(col.1, params.opacity));
            assert(s4[j0 + 2] == crate::canvas::spec_premul(col.2, params.opacity));
            assert(s4[j0 + 3] == crate::canvas::spec_alpha(params.opacity));
        } else {
            lemma_pixel_index_distinct(x, y, x0, y0, w);
            let p = (y * w + x) * 4;
            assert(0 <= p && p + 3 < w * h * 4) by (nonlinear_arith)
                requires
                    0 <= x < w && 0 <= y < h && p == (y * w + x) * 4,
            ;
            assert(w * h * 4 <= s0.len());
            assert(0 <= p && p + 3 < s0.len());
            assert(y * w + x != y0 * w + x0);
            assert(s4[p] == s3[p] && s4[p + 1] == s3[p + 1] && s4[p + 2] == s3[p + 2] && s4[p + 3]
                == s3[p + 3]);
            assert(s3[p] == s2[p] && s3[p + 1] == s2[p + 1] && s3[p + 2] == s2[p + 2] && s3[p + 3]
                == s2[p + 3]);
            assert(s2[p] == s1[p] && s2[p + 1] == s1[p + 1] && s2[p + 2] == s1[p + 2] && s2[p + 3]
                == s1[p + 3]);
            assert(s1[p] == s0[p] && s1[p + 1] == s0[p + 1] && s1[p + 2] == s0[p + 2] && s1[p + 3]
                == s0[p + 3]);
            if !spec_classic_done(layout, params, x, y, i, yo, bx) {
                let t = x - sx;
                lemma_bar_at_range(t, slot, d);
                assert(false);
            }
        }
    }
    assert forall|x: int, y: int|
        0 <= x < pre.width && 0 <= y < pre.height && !#[trigger] spec_classic_done(
            layout,
            params,
            x,
            y,
            i,
            yo,
            bx + 1,
        ) implies spec_pixel_kept(pre, after, x, y) by {
        assert(!spec_classic_done(layout, params, x, y, i, yo, bx));
        assert(!(x == x0 && y == y0));
        lemma_pixel_index_distinct(x, y, x0, y0, w);
        let p = (y * w + x) * 4;
        assert(0 <= p && p + 3 < w * h * 4) by (nonlinear_arith)
            requires
                0 <= x < w && 0 <= y < h && p == (y * w + x) * 4,
        ;
        assert(w * h * 4 <= s0.len());
        assert(0 <= p && p + 3 < s0.len());
        assert(y * w + x != y0 * w + x0);
        assert(s4[p] == s3[p] && s4[p + 1] == s3[p + 1] && s4[p + 2] == s3[p + 2] && s4[p + 3]
            == s3[p + 3]);
        assert(s3[p] == s2[p] && s3[p + 1] == s2[p + 1] && s3[p + 2] == s2[p + 2] && s3[p + 3]
            == s2[p + 3]);
        assert(s2[p] == s1[p] && s2[p + 1] == s1[p + 1] && s2[p + 2] == s1[p + 2] && s2[p + 3]
            == s1[p + 3]);
        assert(s1[p] == s0[p] && s1[p + 1] == s0[p + 1] && s1[p + 2] == s0[p + 2] && s1[p + 3]
            == s0[p + 3]);
    }
}

/// Finishing a row of a bar is the same progress as starting the next row.
proof fn lemma_classic_row_done(
    pre: Canvas,
    cur: Canvas,
    layout: BarLayout,
    params: RenderParams,
    i: int,
    yo: int,
    bw: int,
)
    requires
        spec_style_pre(pre, layout, params),
        spec_classic_inv(pre, cur, layout, params, i, yo, bw),
        bw == params.bar_width,
    ensures
        spec_classic_inv(pre, cur, layout, params, i, yo + 1, 0),
{
    assert forall|x: int, y: int|
        0 <= x < pre.width && 0 <= y < pre.height implies #[trigger] spec_classic_done(
        layout,
        params,
        x,
        y,
        i,
        yo + 1,
        0,
    ) == spec_classic_done(layout, params, x, y, i, yo, bw) by {}
    assert forall|x: int, y: int|
        0 <= x < pre.width && 0 <= y < pre.height && #[trigger] spec_classic_done(
            layout,
            params,
            x,
            y,
            i,
            yo + 1,
            0,
        ) implies spec_pixel_is(
        cur,
        x,
        y,
        spec_classic_color(layout, params, x, y),
        params.opacity,
    ) by {
        assert(spec_classic_done(layout, params, x, y, i, yo, bw));
    }
    assert forall|x: int, y: int|
        0 <= x < pre.width && 0 <= y < pre.height && !#[trigger] spec_classic_done(
            layout,
            params,
            x,
            y,
            i,
            yo + 1,
            0,
        ) implies spec_pixel_kept(pre, cur, x, y) by {
        assert(!spec_classic_done(layout, params, x, y, i, yo, bw));
    }
}

/// Finishing all rows of a bar is the same progress as starting the next
/// bar.
proof fn lemma_classic_bar_done(
    pre: Canvas,
    cur: Canvas,
    layout: BarLayout,
    params: RenderParams,
    i: int,
    bh: int,
)
    requires
        spec_style_pre(pre, layout, params),
        spec_classic_inv(pre, cur, layout, params, i, bh, 0),
        0 <= i < layout.displayable,
        bh == spec_bar_height(
            layout.render_frequencies@[i] as int,
            layout.bars_height as int,
        ),
    ensures
        spec_classic_inv(pre, cur, layout, params, i + 1, 0, 0),
{
    assert forall|x: int, y: int|
        0 <= x < pre.width && 0 <= y < pre.height implies #[trigger] spec_classic_done(
        layout,
        params,
        x,
        y,
        i + 1,
        0,
        0,
    ) == spec_classic_done(layout, params, x, y, i, bh, 0) by {}
    assert forall|x: int, y: int|
        0 <= x < pre.width && 0 <= y < pre.height && #[trigger] spec_classic_done(
            layout,
            params,
            x,
            y,
            i + 1,
            0,
            0,
        ) implies spec_pixel_is(
        cur,
        x,
        y,
        spec_classic_color(layout, params, x, y),
        params.opacity,
    ) by {
        assert(spec_classic_done(layout, params, x, y, i, bh, 0));
    }
    assert forall|x: int, y: int|
        0 <= x < pre.width && 0 <= y < pre.height && !#[trigger] spec_classic_done(
            layout,
            params,
            x,
            y,
            i + 1,
            0,
            0,
        ) implies spec_pixel_kept(pre, cur, x, y) by {
        assert(!spec_classic_done(layout, params, x, y, i, bh, 0));
    }
}

/// Style 0: classic vertical bars grown upward from the bottom of the band,
/// height proportional to the magnitude, colored bottom-to-top. The
/// contract gives the full picture: a pixel the style covers holds exactly
/// the scheme color for its bar and row, premultiplied by the configured
/// opacity, and every other pixel is untouched.
#[verifier::rlimit(60)]
fn render_bars_classic(canvas: &mut Canvas, layout: &BarLayout, params: &RenderParams)
    requires
        spec_style_pre(*old(canvas), *layout, *params),
    ensures
        spec_style_post(*old(canvas), *final(canvas), *layout),
        forall|x: int, y: int|
            0 <= x < old(canvas).width && 0 <= y < old(canvas).height && #[trigger] spec_classic_covers(
                *layout,
                *params,
                x,
                y,
            ) ==> spec_pixel_is(
                *final(canvas),
                x,
                y,
                spec_classic_color(*layout, *params, x, y),
                params.opacity,
            ),
        forall|x: int, y: int|
            0 <= x < old(canvas).width && 0 <= y < old(canvas).height
                && !#[trigger] spec_classic_covers(*layout, *params, x, y) ==> spec_pixel_kept(
                *old(canvas),
                *final(canvas),
                x,
                y,
            ),
{
    let ghost pre = *canvas;
    let ghost w = pre.width as int;
    let ghost h = pre.height as int;
    let mut i: usize = 0;
    while i < layout.displayable
        invariant
            spec_style_pre(pre, *layout, *params),
            spec_style_post(pre, *canvas, *layout),
            pre == *old(canvas),
            w == pre.width as int,
            h == pre.height as int,
            spec_classic_inv(pre, *canvas, *layout, *params, i as int, 0, 0),
            i <= layout.displayable,
        decreases layout.displayable - i,
    {
        proof {
            lemma_slot_extent(i as int, layout.displayable as int, layout.slot_width as int);
        }
        let magnitude: u32 = layout.render_frequencies[i];
        let bar_height: usize = scale_dim(magnitude, layout.bars_height);
        let x_start: usize = layout.start_x + i * layout.slot_width;
        let position: u32 = milli_frac(i, layout.displayable);
        let mut y_offset: usize = 0;
        while y_offset < bar_height
            invariant
                spec_style_pre(pre, *layout, *params),
                spec_style_post(pre, *canvas, *layout),
                pre == *old(canvas),
                w == pre.width as int,
                h == pre.height as int,
                i < layout.displayable,
                magnitude == layout.render_frequencies@[i as int],
                bar_height == spec_bar_height(magnitude as int, layout.bars_height as int),
                bar_height <= layout.bars_height,
                x_start == layout.start_x + i * layout.slot_width,
                x_start + params.bar_width <= pre.width || params.bar_width == 0,
                x_start <= pre.width,
                position == (i as int) * 1000 / (layout.displayable as int),
                position <= 1000,
                spec_classic_inv(pre, *canvas, *layout, *params, i as int, y_offset as int, 0),
                y_offset <= bar_height,
            decreases bar_height - y_offset,
        {
            let y: usize = layout.bars_y_start + layout.bars_height - 1 - y_offset;
            let intensity: u32 = milli_frac(y_offset, layout.bars_height);
            let (r, g, b) = params.color_scheme.get_color(position, intensity);
            let mut bx: usize = 0;
            while bx < params.bar_width
                invariant
                    spec_style_pre(pre, *layout, *params),
                    spec_style_post(pre, *canvas, *layout),
                    pre == *old(canvas),
                    w == pre.width as int,
                    h == pre.height as int,
                    i < layout.displayable,
                    magnitude == layout.render_frequencies@[i as int],
                    bar_height == spec_bar_height(magnitude as int, layout.bars_height as int),
                    bar_height <= layout.bars_height,
                    x_start == layout.start_x + i * layout.slot_width,
                    x_start + params.bar_width <= pre.width,
                    y_offset < bar_height,
                    y == layout.bars_y_start + layout.bars_height - 1 - y_offset,
                    layout.bars_y_start <= y < layout.bars_y_start + layout.bars_height,
                    y < pre.height,
                    (r, g, b) == crate::color::spec_get_color(
                        params.color_scheme,
                        (i as int) * 1000 / (layout.displayable as int),
                        (y_offset as int) * 1000 / (layout.bars_height as int),
                    ),
                    spec_classic_inv(
                        pre,
                        *canvas,
                        *layout,
                        *params,
                        i as int,
                        y_offset as int,
                        bx as int,
                    ),
                    bx <= params.bar_width,
                decreases params.bar_width - bx,
            {
                let x: usize = x_start + bx;
                let ghost before_put = *canvas;
                put_band_pixel(
                    canvas,
                    x,
                    y,
                    (r, g, b),
                    params.opacity,
                    layout.bars_y_start,
                    layout.bars_height,
                    Ghost(pre),
                );
                proof {
                    lemma_classic_put_step(
                        pre,
                        before_put,
                        *canvas,
                        *layout,
                        *params,
                        i as int,
                        y_offset as int,
                        bx as int,
                        x as int,
                        y as int,
                        (r, g, b),
                    );
                }
                bx += 1;
            }
            proof {
                lemma_classic_row_done(
                    pre,
                    *canvas,
                    *layout,
                    *params,
                    i as int,
                    y_offset as int,
                    params.bar_width as int,
                );
            }
            y_offset += 1;
        }
        proof {
            lemma_classic_bar_done(
                pre,
                *canvas,
                *layout,
                *params,
                i as int,
                bar_height as int,
            );
        }
        i += 1;
    }
    proof {
        assert forall|x: int, y: int|
            0 <= x < pre.width && 0 <= y < pre.height && #[trigger] spec_classic_covers(
                *layout,
                *params,
                x,
                y,
            ) implies spec_classic_done(
            *layout,
            *params,
            x,
            y,
            layout.displayable as int,
            0,
            0,
        ) by {
            lemma_bar_at_range(
                x - layout.start_x,
                layout.slot_width as int,
                layout.displayable as int,
            );
        }
        assert forall|x: int, y: int|
            0 <= x < pre.width && 0 <= y < pre.height && !#[trigger] spec_classic_covers(
                *layout,
                *params,
                x,
                y,
            ) implies spec_pixel_kept(pre, *canvas, x, y) by {
            assert(!spec_classic_done(
                *layout,
                *params,
                x,
                y,
                layout.displayable as int,
                0,
                0,
            ));
        }
    }
}

/// The vertical center row of the band.
pub open spec fn spec_band_center(layout: BarLayout) -> int {
    layout.bars_y_start + layout.bars_height / 2
}

/// How far a bar of milli magnitude `m` extends above and below the
/// center of a band `hb` rows tall.
pub open spec fn spec_half_height(m: int, hb: int) -> int {
    m * (hb / 2) / 1000
}

/// Whether the mirrored style paints pixel `(x, y)`: the pixel sits in a
/// bar's painted columns, within the bar's reach above or below the
/// center row.
pub open spec fn spec_mirrored_covers(
    layout: BarLayout,
    params: RenderParams,
    x: int,
    y: int,
) -> bool {
    let b = spec_bar_at(layout, params.bar_width as int, x);
    let c = spec_band_center(layout);
    let dist = if y >= c {
        y - c
    } else {
        c - y
    };
    &&& b >= 0
    &&& layout.bars_y_start <= y < layout.bars_y_start + layout.bars_height
    &&& dist < spec_half_height(
        layout.render_frequencies@[b] as int,
        layout.bars_height as int,
    )
}

/// The color the mirrored style paints at `(x, y)`: the scheme color at
/// the bar's position and the row's distance from the center.
pub open spec fn spec_mirrored_color(
    layout: BarLayout,
    params: RenderParams,
    x: int,
    y: int,
) -> (u8, u8, u8) {
    let b = spec_bar_at(layout, params.bar_width as int, x);
    let c = spec_band_center(layout);
    let dist = if y >= c {
        y - c
    } else {
        c - y
    };
    let hb2 = layout.bars_height as int / 2;
    crate::color::spec_get_color(
        params.color_scheme,
        b * 1000 / (layout.displayable as int),
        if hb2 >= 1 {
            dist * 1000 / hb2
        } else {
            0
        },
    )
}

/// The mirrored style's progress: pixel `(x, y)` is painted once the
/// loops have finished every bar below `i`, every distance of bar `i`
/// below `yo_prog`, and at distance `yo_prog` the upper row (when
/// `phase` is 1) plus the first `bx_prog` columns of the current row.
pub open spec fn spec_mirrored_done(
    layout: BarLayout,
    params: RenderParams,
    x: int,
    y: int,
    i: int,
    yo_prog: int,
    phase: int,
    bx_prog: int,
) -> bool {
    &&& spec_mirrored_covers(layout, params, x, y)
    &&& {
        let b = spec_bar_at(layout, params.bar_width as int, x);
        let ctr = spec_band_center(layout);
        let dist = if y >= ctr {
            y - ctr
        } else {
            ctr - y
        };
        let is_up = y <= ctr;
        let c = (x - layout.start_x) % (layout.slot_width as int);
        ||| b < i
        ||| (b == i && dist < yo_prog)
        ||| (b == i && dist == yo_prog && phase == 0 && is_up && c < bx_prog)
        ||| (b == i && dist == yo_prog && phase == 1 && (is_up || c < bx_prog))
    }
}

/// The mirrored style's loop invariant.
pub open spec fn spec_mirrored_inv(
    pre: Canvas,
    cur: Canvas,
    layout: BarLayout,
    params: RenderParams,
    i: int,
    yo_prog: int,
    phase: int,
    bx_prog: int,
) -> bool {
    &&& forall|x: int, y: int|
        0 <= x < pre.width && 0 <= y < pre.height && #[trigger] spec_mirrored_done(
            layout,
            params,
            x,
            y,
            i,
            yo_prog,
            phase,
            bx_prog,
        ) ==> spec_pixel_is(cur, x, y, spec_mirrored_color(layout, params, x, y), params.opacity)
    &&& forall|x: int, y: int|
        0 <= x < pre.width && 0 <= y < pre.height && !#[trigger] spec_mirrored_done(
            layout,
            params,
            x,
            y,
            i,
            yo_prog,
            phase,
            bx_prog,
        ) ==> spec_pixel_kept(pre, cur, x, y)
}

/// One write of the mirrored style extends the progress set by (at most)
/// the pixel `(x0, y0)`.
#[verifier::rlimit(90)]
proof fn lemma_mirrored_put_step(
    pre: Canvas,
    before: Canvas,
    after: Canvas,
    layout: BarLayout,
    params: RenderParams,
    i: int,
    yo: int,
    phase: int,
    bx: int,
    x0: int,
    y0: int,
    col: (u8, u8, u8),
)
    requires
        spec_style_pre(pre, layout, params),
        spec_same_frame(pre, before),
        spec_same_frame(pre, after),
        spec_mirrored_inv(pre, before, layout, params, i, yo, phase, bx),
        0 <= i < layout.displayable,
        0 <= bx < params.bar_width,
        phase == 0 || phase == 1,
        x0 == layout.start_x + i * layout.slot_width + bx,
        x0 < pre.width,
        0 <= yo,
        yo < spec_half_height(
            layout.render_frequencies@[i] as int,
            layout.bars_height as int,
        ),
        spec_half_height(layout.render_frequencies@[i] as int, layout.bars_height as int)
            <= layout.bars_height as int / 2,
        phase == 0 ==> y0 == spec_band_center(layout) - yo,
        phase == 1 ==> y0 == spec_band_center(layout) + yo,
        col == spec_mirrored_color(layout, params, x0, y0),
        after.data@ == before.data@.update(
            (y0 * pre.width + x0) * 4,
            crate::canvas::spec_premul(col.0, params.opacity),
        ).update((y0 * pre.width + x0) * 4 + 1, crate::canvas::spec_premul(col.1, params.opacity))
            .update(
            (y0 * pre.width + x0) * 4 + 2,
            crate::canvas::spec_premul(col.2, params.opacity),
        ).update((y0 * pre.width + x0) * 4 + 3, crate::canvas::spec_alpha(params.opacity)),
    ensures
        spec_mirrored_inv(pre, after, layout, params, i, yo, phase, bx + 1),
{
    let w = pre.width as int;
    let h = pre.height as int;
    let sx = layout.start_x as int;
    let slot = layout.slot_width as int;
    let d = layout.displayable as int;
    lemma_bar_column(sx, slot, d, i, bx);
    assert(spec_bar_at(layout, params.bar_width as int, x0) == i);
    assert(spec_mirrored_covers(layout, params, x0, y0));
    let j0 = (y0 * w + x0) * 4;
    let s0 = before.data@;
    let s1 = s0.update(j0, crate::canvas::spec_premul(col.0, params.opacity));
    let s2 = s1.update(j0 + 1, crate::canvas::spec_premul(col.1, params.opacity));
    let s3 = s2.update(j0 + 2, crate::canvas::spec_premul(col.2, params.opacity));
    let s4 = s3.update(j0 + 3, crate::canvas::spec_alpha(params.opacity));
    assert(after.data@ == s4);
    assert(0 <= j0 && j0 + 3 < w * h * 4) by (nonlinear_arith)
        requires
            0 <= x0 < w && 0 <= y0 < h && j0 == (y0 * w + x0) * 4,
    ;
    assert(j0 + 3 < s0.len());
    assert forall|x: int, y: int|
        0 <= x < pre.width && 0 <= y < pre.height && #[trigger] spec_mirrored_done(
            layout,
            params,
            x,
            y,
            i,
            yo,
            phase,
            bx + 1,
        ) implies spec_pixel_is(
        after,
        x,
        y,
        spec_mirrored_color(layout, params, x, y),
        params.opacity,
    ) by {
        if x == x0 && y == y0 {
            assert(s4[j0] == crate::canvas::spec_premul(col.0, params.opacity));
            assert(s4[j0 + 1] == crate::canvas::spec_premul(col.1, params.opacity));
            assert(s4[j0 + 2] == crate::canvas::spec_premul(col.2, params.opacity));
            assert(s4[j0 + 3] == crate::canvas::spec_alpha(params.opacity));
        } else {
            lemma_pixel_index_distinct(x, y, x0, y0, w);
            let p = (y * w + x) * 4;
            assert(0 <= p && p + 3 < w * h * 4) by (nonlinear_arith)
                requires
                    0 <= x < w && 0 <= y < h && p == (y * w + x) * 4,
            ;
            assert(p + 3 < s0.len());
            assert(y * w + x != y0 * w + x0);
            assert(s4[p] == s3[p] && s4[p + 1] == s3[p + 1] && s4[p + 2] == s3[p + 2] && s4[p + 3]
                == s3[p + 3]);
            assert(s3[p] == s2[p] && s3[p + 1] == s2[p + 1] && s3[p + 2] == s2[p + 2] && s3[p + 3]
                == s2[p + 3]);
            assert(s2[p] == s1[p] && s2[p + 1] == s1[p + 1] && s2[p + 2] == s1[p + 2] && s2[p + 3]
                == s1[p + 3]);
            assert(s1[p] == s0[p] && s1[p + 1] == s0[p + 1] && s1[p + 2] == s0[p + 2] && s1[p + 3]
                == s0[p + 3]);
            if !spec_mirrored_done(layout, params, x, y, i, yo, phase, bx) {
                let t = x - sx;
                lemma_bar_at_range(t, slot, d);
                assert(false);
            }
        }
    }
    assert forall|x: int, y: int|
        0 <= x < pre.width && 0 <= y < pre.height && !#[trigger] spec_mirrored_done(
            layout,
            params,
            x,
            y,
            i,
            yo,
            phase,
            bx + 1,
        ) implies spec_pixel_kept(pre, after, x, y) by {
        assert(!spec_mirrored_done(layout, params, x, y, i, yo, phase, bx));
        assert(!(x == x0 && y == y0));
        lemma_pixel_index_distinct(x, y, x0, y0, w);
        let p = (y * w + x) * 4;
        assert(0 <= p && p + 3 < w * h * 4) by (nonlinear_arith)
            requires
                0 <= x < w && 0 <= y < h && p == (y * w + x) * 4,
        ;
        assert(p + 3 < s0.len());
        assert(y * w + x != y0 * w + x0);
        assert(s4[p] == s3[p] && s4[p + 1] == s3[p + 1] && s4[p + 2] == s3[p + 2] && s4[p + 3]
            == s3[p + 3]);
        assert(s3[p] == s2[p] && s3[p + 1] == s2[p + 1] && s3[p + 2] == s2[p + 2] && s3[p + 3]
            == s2[p + 3]);
        assert(s2[p] == s1[p] && s2[p + 1] == s1[p + 1] && s2[p + 2] == s1[p + 2] && s2[p + 3]
            == s1[p + 3]);
        assert(s1[p] == s0[p] && s1[p + 1] == s0[p + 1] && s1[p + 2] == s0[p + 2] && s1[p + 3]
            == s0[p + 3]);
    }
}

/// Moving between the mirrored style's loop phases keeps the same
/// progress set.
proof fn lemma_mirrored_phase(
    pre: Canvas,
    cur: Canvas,
    layout: BarLayout,
    params: RenderParams,
    i: int,
    yo: int,
    phase: int,
    bx: int,
    i2: int,
    yo2: int,
    phase2: int,
    bx2: int,
)
    requires
        spec_style_pre(pre, layout, params),
        spec_mirrored_inv(pre, cur, layout, params, i, yo, phase, bx),
        forall|x: int, y: int|
            0 <= x < pre.width && 0 <= y < pre.height ==> #[trigger] spec_mirrored_done(
                layout,
                params,
                x,
                y,
                i2,
                yo2,
                phase2,
                bx2,
            ) == spec_mirrored_done(layout, params, x, y, i, yo, phase, bx),
    ensures
        spec_mirrored_inv(pre, cur, layout, params, i2, yo2, phase2, bx2),
{
    assert forall|x: int, y: int|
        0 <= x < pre.width && 0 <= y < pre.height && #[trigger] spec_mirrored_done(
            layout,
            params,
            x,
            y,
            i2,
            yo2,
            phase2,
            bx2,
        ) implies spec_pixel_is(
        cur,
        x,
        y,
        spec_mirrored_color(layout, params, x, y),
        params.opacity,
    ) by {
        assert(spec_mirrored_done(layout, params, x, y, i, yo, phase, bx));
    }
    assert forall|x: int, y: int|
        0 <= x < pre.width && 0 <= y < pre.height && !#[trigger] spec_mirrored_done(
            layout,
            params,
            x,
            y,
            i2,
            yo2,
            phase2,
            bx2,
        ) implies spec_pixel_kept(pre, cur, x, y) by {
        assert(!spec_mirrored_done(layout, params, x, y, i, yo, phase, bx));
    }
}

/// Style 1: bars grown symmetrically out of the vertical center of the
/// band, half the magnitude up and half down. The contract gives the full
/// picture: a pixel within a bar's reach of the center row holds exactly
/// the scheme color for its bar and its distance from the center,
/// premultiplied by the configured opacity; every other pixel is
/// untouched.
#[verifier::rlimit(90)]
fn render_bars_mirrored(canvas: &mut Canvas, layout: &BarLayout, params: &RenderParams)
    requires
        spec_style_pre(*old(canvas), *layout, *params),
    ensures
        spec_style_post(*old(canvas), *final(canvas), *layout),
        forall|x: int, y: int|
            0 <= x < old(canvas).width && 0 <= y < old(canvas).height
                && #[trigger] spec_mirrored_covers(*layout, *params, x, y) ==> spec_pixel_is(
                *final(canvas),
                x,
                y,
                spec_mirrored_color(*layout, *params, x, y),
                params.opacity,
            ),
        forall|x: int, y: int|
            0 <= x < old(canvas).width && 0 <= y < old(canvas).height
                && !#[trigger] spec_mirrored_covers(*layout, *params, x, y) ==> spec_pixel_kept(
                *old(canvas),
                *final(canvas),
                x,
                y,
            ),
{
    let ghost pre = *canvas;
    let ghost w = pre.width as int;
    let center_y: usize = layout.bars_y_start + layout.bars_height / 2;
    let half_band: usize = layout.bars_height / 2;
    let mut i: usize = 0;
    while i < layout.displayable
        invariant
            spec_style_pre(pre, *layout, *params),
            spec_style_post(pre, *canvas, *layout),
            pre == *old(canvas),
            w == pre.width as int,
            center_y == spec_band_center(*layout),
            half_band == layout.bars_height / 2,
            spec_mirrored_inv(pre, *canvas, *layout, *params, i as int, 0, 0, 0),
            i <= layout.displayable,
        decreases layout.displayable - i,
    {
        proof {
            lemma_slot_extent(i as int, layout.displayable as int, layout.slot_width as int);
        }
        let magnitude: u32 = layout.render_frequencies[i];
        let half_height: usize = scale_dim(magnitude, half_band);
        let x_start: usize = layout.start_x + i * layout.slot_width;
        let position: u32 = milli_frac(i, layout.displayable);
        let mut y_offset: usize = 0;
        while y_offset < half_height
            invariant
                spec_style_pre(pre, *layout, *params),
                spec_style_post(pre, *canvas, *layout),
                pre == *old(canvas),
                w == pre.width as int,
                i < layout.displayable,
                center_y == spec_band_center(*layout),
                half_band == layout.bars_height / 2,
                magnitude == layout.render_frequencies@[i as int],
                half_height == spec_half_height(magnitude as int, layout.bars_height as int),
                half_height <= half_band,
                x_start == layout.start_x + i * layout.slot_width,
                x_start + params.bar_width <= pre.width || params.bar_width == 0,
                x_start <= pre.width,
                position == (i as int) * 1000 / (layout.displayable as int),
                position <= 1000,
                spec_mirrored_inv(pre, *canvas, *layout, *params, i as int, y_offset as int, 0, 0),
                y_offset <= half_height,
            decreases half_height - y_offset,
        {
            let intensity: u32 = if half_band >= 1 {
                milli_frac(y_offset, half_band)
            } else {
                0
            };
            let (r, g, b) = params.color_scheme.get_color(position, intensity);
            let y_up: usize = center_y - y_offset;
            let mut bx: usize = 0;
            while bx < params.bar_width
                invariant
                    spec_style_pre(pre, *layout, *params),
                    spec_style_post(pre, *canvas, *layout),
                    pre == *old(canvas),
                    w == pre.width as int,
                    i < layout.displayable,
                    center_y == spec_band_center(*layout),
                    half_band == layout.bars_height / 2,
                    magnitude == layout.render_frequencies@[i as int],
                    half_height == spec_half_height(magnitude as int, layout.bars_height as int),
                    half_height <= half_band,
                    x_start == layout.start_x + i * layout.slot_width,
                    x_start + params.bar_width <= pre.width,
                    y_offset < half_height,
                    y_up == spec_band_center(*layout) - y_offset,
                    layout.bars_y_start <= y_up < layout.bars_y_start + layout.bars_height,
                    (r, g, b) == crate::color::spec_get_color(
                        params.color_scheme,
                        (i as int) * 1000 / (layout.displayable as int),
                        if layout.bars_height as int / 2 >= 1 {
                            (y_offset as int) * 1000 / (layout.bars_height as int / 2)
                        } else {
                            0
                        },
                    ),
                    spec_mirrored_inv(
                        pre,
                        *canvas,
                        *layout,
                        *params,
                        i as int,
                        y_offset as int,
                        0,
                        bx as int,
                    ),
                    bx <= params.bar_width,
                decreases params.bar_width - bx,
            {
                let x: usize = x_start + bx;
                proof {
                    lemma_bar_column(
                        layout.start_x as int,
                        layout.slot_width as int,
                        layout.displayable as int,
                        i as int,
                        bx as int,
                    );
                }
                let ghost before_put = *canvas;
                put_band_pixel(
                    canvas,
                    x,
                    y_up,
                    (r, g, b),
                    params.opacity,
                    layout.bars_y_start,
                    layout.bars_height,
                    Ghost(pre),
                );
                proof {
                    lemma_mirrored_put_step(
                        pre,
                        before_put,
                        *canvas,
                        *layout,
                        *params,
                        i as int,
                        y_offset as int,
                        0,
                        bx as int,
                        x as int,
                        y_up as int,
                        (r, g, b),
                    );
                }
                bx += 1;
            }
            proof {
                lemma_mirrored_phase(
                    pre,
                    *canvas,
                    *layout,
                    *params,
                    i as int,
                    y_offset as int,
                    0,
                    params.bar_width as int,
                    i as int,
                    y_offset as int,
                    1,
                    0,
                );
            }
            let y_down: usize = center_y + y_offset;
            let mut bx2: usize = 0;
            while bx2 < params.bar_width
                invariant
                    spec_style_pre(pre, *layout, *params),
                    spec_style_post(pre, *canvas, *layout),
                    pre == *old(canvas),
                    w == pre.width as int,
                    i < layout.displayable,
                    center_y == spec_band_center(*layout),
                    half_band == layout.bars_height / 2,
                    magnitude == layout.render_frequencies@[i as int],
                    half_height == spec_half_height(magnitude as int, layout.bars_height as int),
                    half_height <= half_band,
                    x_start == layout.start_x + i * layout.slot_width,
                    x_start + params.bar_width <= pre.width,
                    y_offset < half_height,
                    y_down == spec_band_center(*layout) + y_offset,
                    layout.bars_y_start <= y_down < layout.bars_y_start + layout.bars_height,
                    (r, g, b) == crate::color::spec_get_color(
                        params.color_scheme,
                        (i as int) * 1000 / (layout.displayable as int),
                        if layout.bars_height as int / 2 >= 1 {
                            (y_offset as int) * 1000 / (layout.bars_height as int / 2)
                        } else {
                            0
                        },
                    ),
                    spec_mirrored_inv(
                        pre,
                        *canvas,
                        *layout,
                        *params,
                        i as int,
                        y_offset as int,
                        1,
                        bx2 as int,
                    ),
                    bx2 <= params.bar_width,
                decreases params.bar_width - bx2,
            {
                let x: usize = x_start + bx2;
                proof {
                    lemma_bar_column(
                        layout.start_x as int,
                        layout.slot_width as int,
                        layout.displayable as int,
                        i as int,
                        bx2 as int,
                    );
                }
                let ghost before_put = *canvas;
                put_band_pixel(
                    canvas,
                    x,
                    y_down,
                    (r, g, b),
                    params.opacity,
                    layout.bars_y_start,
                    layout.bars_height,
                    Ghost(pre),
                );
                proof {
                    lemma_mirrored_put_step(
                        pre,
                        before_put,
                        *canvas,
                        *layout,
                        *params,
                        i as int,
                        y_offset as int,
                        1,
                        bx2 as int,
                        x as int,
                        y_down as int,
                        (r, g, b),
                    );
                }
                bx2 += 1;
            }
            proof {
                lemma_mirrored_phase(
                    pre,
                    *canvas,
                    *layout,
                    *params,
                    i as int,
                    y_offset as int,
                    1,
                    params.bar_width as int,
                    i as int,
                    y_offset as int + 1,
                    0,
                    0,
                );
            }
            y_offset += 1;
        }
        proof {
            lemma_mirrored_phase(
                pre,
                *canvas,
                *layout,
                *params,
                i as int,
                half_height as int,
                0,
                0,
                i as int + 1,
                0,
                0,
                0,
            );
        }
        i += 1;
    }
    proof {
        assert forall|x: int, y: int|
            0 <= x < pre.width && 0 <= y < pre.height && #[trigger] spec_mirrored_covers(
                *layout,
                *params,
                x,
                y,
            ) implies spec_mirrored_done(
            *layout,
            *params,
            x,
            y,
            layout.displayable as int,
            0,
            0,
            0,
        ) by {
            lemma_bar_at_range(
                x - layout.start_x,
                layout.slot_width as int,
                layout.displayable as int,
            );
        }
        assert forall|x: int, y: int|
            0 <= x < pre.width && 0 <= y < pre.height && !#[trigger] spec_mirrored_covers(
                *layout,
                *params,
                x,
                y,
            ) implies spec_pixel_kept(pre, *canvas, x, y) by {
            assert(!spec_mirrored_done(
                *layout,
                *params,
                x,
                y,
                layout.displayable as int,
                0,
                0,
                0,
            ));
        }
    }
}

/// The wave style's line width for a configured bar width: a third of
/// it, at least 1.
pub open spec fn spec_wave_width(bar_width: int) -> int {
    if bar_width / 3 >= 1 {
        bar_width / 3
    } else {
        1
    }
}

/// Whether the wave style paints pixel `(x, y)`: within the line width of
/// a bar's slot, inside the band, and no farther from the center row than
/// the bar's wave height.
pub open spec fn spec_wave_covers(layout: BarLayout, params: RenderParams, x: int, y: int) -> bool {
    let b = spec_bar_at(layout, spec_wave_width(params.bar_width as int), x);
    let c = spec_band_center(layout);
    let dist = if y >= c {
        y - c
    } else {
        c - y
    };
    &&& b >= 0
    &&& layout.bars_y_start <= y < layout.bars_y_start + layout.bars_height
    &&& dist <= spec_half_height(
        layout.render_frequencies@[b] as int,
        layout.bars_height as int,
    )
}

/// The wave style's intensity at `(x, y)`: full at the center, falling to
/// nothing at the tips.
pub open spec fn spec_wave_intensity(layout: BarLayout, params: RenderParams, x: int, y: int) -> int {
    let b = spec_bar_at(layout, spec_wave_width(params.bar_width as int), x);
    let c = spec_band_center(layout);
    let dist = if y >= c {
        y - c
    } else {
        c - y
    };
    let wh = spec_half_height(layout.render_frequencies@[b] as int, layout.bars_height as int);
    let wh1 = if wh >= 1 {
        wh
    } else {
        1
    };
    1000 - dist * 1000 / wh1
}

/// The color the wave style paints at `(x, y)`.
pub open spec fn spec_wave_color(
    layout: BarLayout,
    params: RenderParams,
    x: int,
    y: int,
) -> (u8, u8, u8) {
    let b = spec_bar_at(layout, spec_wave_width(params.bar_width as int), x);
    crate::color::spec_get_color(
        params.color_scheme,
        b * 1000 / (layout.displayable as int),
        spec_wave_intensity(layout, params, x, y),
    )
}

/// The opacity the wave style paints at `(x, y)`: the configured opacity
/// scaled by the intensity.
pub open spec fn spec_wave_op(layout: BarLayout, params: RenderParams, x: int, y: int) -> u32 {
    ((params.opacity as int) * spec_wave_intensity(layout, params, x, y) / 1000) as u32
}

/// The wave style's progress: the offsets of bar `i` are walked from the
/// top tip down through the center to the bottom tip, `k_prog` offsets
/// done, plus the first `bx_prog` columns of the current offset.
pub open spec fn spec_wave_done(
    layout: BarLayout,
    params: RenderParams,
    x: int,
    y: int,
    i: int,
    k_prog: int,
    bx_prog: int,
) -> bool {
    &&& spec_wave_covers(layout, params, x, y)
    &&& {
        let b = spec_bar_at(layout, spec_wave_width(params.bar_width as int), x);
        let ctr = spec_band_center(layout);
        let dist = if y >= ctr {
            y - ctr
        } else {
            ctr - y
        };
        let wh = spec_half_height(
            layout.render_frequencies@[b] as int,
            layout.bars_height as int,
        );
        let kk = if y <= ctr {
            wh - dist
        } else {
            wh + dist
        };
        let c = (x - layout.start_x) % (layout.slot_width as int);
        ||| b < i
        ||| (b == i && kk < k_prog)
        ||| (b == i && kk == k_prog && c < bx_prog)
    }
}

/// The wave style's loop invariant.
pub open spec fn spec_wave_inv(
    pre: Canvas,
    cur: Canvas,
    layout: BarLayout,
    params: RenderParams,
    i: int,
    k_prog: int,
    bx_prog: int,
) -> bool {
    &&& forall|x: int, y: int|
        0 <= x < pre.width && 0 <= y < pre.height && #[trigger] spec_wave_done(
            layout,
            params,
            x,
            y,
            i,
            k_prog,
            bx_prog,
        ) ==> spec_pixel_is(
            cur,
            x,
            y,
            spec_wave_color(layout, params, x, y),
            spec_wave_op(layout, params, x, y),
        )
    &&& forall|x: int, y: int|
        0 <= x < pre.width && 0 <= y < pre.height && !#[trigger] spec_wave_done(
            layout,
            params,
            x,
            y,
            i,
            k_prog,
            bx_prog,
        ) ==> spec_pixel_kept(pre, cur, x, y)
}

/// One write of the wave style extends the progress set by (at most) the
/// pixel `(x0, y0)`.
#[verifier::rlimit(90)]
proof fn lemma_wave_put_step(
    pre: Canvas,
    before: Canvas,
    after: Canvas,
    layout: BarLayout,
    params: RenderParams,
    i: int,
    k: int,
    bx: int,
    x0: int,
    y0: int,
    col: (u8, u8, u8),
    op: u32,
)
    requires
        spec_style_pre(pre, layout, params),
        spec_same_frame(pre, before),
        spec_same_frame(pre, after),
        spec_wave_inv(pre, before, layout, params, i, k, bx),
        0 <= x0 < pre.width,
        0 <= y0 < pre.height,
        spec_wave_done(layout, params, x0, y0, i, k, bx + 1),
        col == spec_wave_color(layout, params, x0, y0),
        op == spec_wave_op(layout, params, x0, y0),
        forall|x: int, y: int|
            0 <= x < pre.width && 0 <= y < pre.height && #[trigger] spec_wave_done(
                layout,
                params,
                x,
                y,
                i,
                k,
                bx + 1,
            ) && !(x == x0 && y == y0) ==> spec_wave_done(layout, params, x, y, i, k, bx),
        after.data@ == before.data@.update(
            (y0 * pre.width + x0) * 4,
            crate::canvas::spec_premul(col.0, op),
        ).update((y0 * pre.width + x0) * 4 + 1, crate::canvas::spec_premul(col.1, op)).update(
            (y0 * pre.width + x0) * 4 + 2,
            crate::canvas::spec_premul(col.2, op),
        ).update((y0 * pre.width + x0) * 4 + 3, crate::canvas::spec_alpha(op)),
    ensures
        spec_wave_inv(pre, after, layout, params, i, k, bx + 1),
{
    let w = pre.width as int;
    let h = pre.height as int;
    let j0 = (y0 * w + x0) * 4;
    let s0 = before.data@;
    let s1 = s0.update(j0, crate::canvas::spec_premul(col.0, op));
    let s2 = s1.update(j0 + 1, crate::canvas::spec_premul(col.1, op));
    let s3 = s2.update(j0 + 2, crate::canvas::spec_premul(col.2, op));
    let s4 = s3.update(j0 + 3, crate::canvas::spec_alpha(op));
    assert(after.data@ == s4);
    assert(0 <= j0 && j0 + 3 < w * h * 4) by (nonlinear_arith)
        requires
            0 <= x0 < w && 0 <= y0 < h && j0 == (y0 * w + x0) * 4,
    ;
    assert(j0 + 3 < s0.len());
    assert forall|x: int, y: int|
        0 <= x < pre.width && 0 <= y < pre.height && #[trigger] spec_wave_done(
            layout,
            params,
            x,
            y,
            i,
            k,
            bx + 1,
        ) implies spec_pixel_is(
        after,
        x,
        y,
        spec_wave_color(layout, params, x, y),
        spec_wave_op(layout, params, x, y),
    ) by {
        if x == x0 && y == y0 {
            assert(s4[j0] == crate::canvas::spec_premul(col.0, op));
            assert(s4[j0 + 1] == crate::canvas::spec_premul(col.1, op));
            assert(s4[j0 + 2] == crate::canvas::spec_premul(col.2, op));
            assert(s4[j0 + 3] == crate::canvas::spec_alpha(op));
        } else {
            lemma_pixel_index_distinct(x, y, x0, y0, w);
            let p = (y * w + x) * 4;
            assert(0 <= p && p + 3 < w * h * 4) by (nonlinear_arith)
                requires
                    0 <= x < w && 0 <= y < h && p == (y * w + x) * 4,
            ;
            assert(p + 3 < s0.len());
            assert(y * w + x != y0 * w + x0);
            assert(s4[p] == s3[p] && s4[p + 1] == s3[p + 1] && s4[p + 2] == s3[p + 2] && s4[p + 3]
                == s3[p + 3]);
            assert(s3[p] == s2[p] && s3[p + 1] == s2[p + 1] && s3[p + 2] == s2[p + 2] && s3[p + 3]
                == s2[p + 3]);
            assert(s2[p] == s1[p] && s2[p + 1] == s1[p + 1] && s2[p + 2] == s1[p + 2] && s2[p + 3]
                == s1[p + 3]);
            assert(s1[p] == s0[p] && s1[p + 1] == s0[p + 1] && s1[p + 2] == s0[p + 2] && s1[p + 3]
                == s0[p + 3]);
        }
    }
    assert forall|x: int, y: int|
        0 <= x < pre.width && 0 <= y < pre.height && !#[trigger] spec_wave_done(
            layout,
            params,
            x,
            y,
            i,
            k,
            bx + 1,
        ) implies spec_pixel_kept(pre, after, x, y) by {
        assert(!spec_wave_done(layout, params, x, y, i, k, bx));
        assert(!(x == x0 && y == y0));
        lemma_pixel_index_distinct(x, y, x0, y0, w);
        let p = (y * w + x) * 4;
        assert(0 <= p && p + 3 < w * h * 4) by (nonlinear_arith)
            requires
                0 <= x < w && 0 <= y < h && p == (y * w + x) * 4,
        ;
        assert(p + 3 < s0.len());
        assert(y * w + x != y0 * w + x0);
        assert(s4[p] == s3[p] && s4[p + 1] == s3[p + 1] && s4[p + 2] == s3[p + 2] && s4[p + 3]
            == s3[p + 3]);
        assert(s3[p] == s2[p] && s3[p + 1] == s2[p + 1] && s3[p + 2] == s2[p + 2] && s3[p + 3]
            == s2[p + 3]);
        assert(s2[p] == s1[p] && s2[p + 1] == s1[p + 1] && s2[p + 2] == s1[p + 2] && s2[p + 3]
            == s1[p + 3]);
        assert(s1[p] == s0[p] && s1[p + 1] == s0[p + 1] && s1[p + 2] == s0[p + 2] && s1[p + 3]
            == s0[p + 3]);
    }
}

/// Moving between the wave style's loop phases keeps the same progress
/// set.
proof fn lemma_wave_phase(
    pre: Canvas,
    cur: Canvas,
    layout: BarLayout,
    params: RenderParams,
    i: int,
    k: int,
    bx: int,
    i2: int,
    k2: int,
    bx2: int,
)
    requires
        spec_style_pre(pre, layout, params),
        spec_wave_inv(pre, cur, layout, params, i, k, bx),
        forall|x: int, y: int|
            0 <= x < pre.width && 0 <= y < pre.height ==> #[trigger] spec_wave_done(
                layout,
                params,
                x,
                y,
                i2,
                k2,
                bx2,
            ) == spec_wave_done(layout, params, x, y, i, k, bx),
    ensures
        spec_wave_inv(pre, cur, layout, params, i2, k2, bx2),
{
    assert forall|x: int, y: int|
        0 <= x < pre.width && 0 <= y < pre.height && #[trigger] spec_wave_done(
            layout,
            params,
            x,
            y,
            i2,
            k2,
            bx2,
        ) implies spec_pixel_is(
        cur,
        x,
        y,
        spec_wave_color(layout, params, x, y),
        spec_wave_op(layout, params, x, y),
    ) by {
        assert(spec_wave_done(layout, params, x, y, i, k, bx));
    }
    assert forall|x: int, y: int|
        0 <= x < pre.width && 0 <= y < pre.height && !#[trigger] spec_wave_done(
            layout,
            params,
            x,
            y,
            i2,
            k2,
            bx2,
        ) implies spec_pixel_kept(pre, cur, x, y) by {
        assert(!spec_wave_done(layout, params, x, y, i, k, bx));
    }
}

/// One offset row of the wave style: draws the row's columns when it
/// falls inside the band, and advances the progress set by one offset.
#[verifier::rlimit(100)]
#[verifier::spinoff_prover]
fn wave_row(
    canvas: &mut Canvas,
    layout: &BarLayout,
    params: &RenderParams,
    i: usize,
    k: usize,
    wave_height: usize,
    wh1: usize,
    wave_width: usize,
    x_start: usize,
    position: u32,
    center_y: usize,
    Ghost(pre): Ghost<Canvas>,
)
    requires
        spec_style_pre(pre, *layout, *params),
        spec_style_post(pre, *old(canvas), *layout),
        i < layout.displayable,
        center_y == spec_band_center(*layout),
        wave_height == spec_half_height(
            layout.render_frequencies@[i as int] as int,
            layout.bars_height as int,
        ),
        wave_height <= layout.bars_height / 2,
        wh1 == if wave_height >= 1 {
            wave_height as int
        } else {
            1
        },
        wave_width == spec_wave_width(params.bar_width as int),
        wave_width <= layout.slot_width,
        x_start == layout.start_x + i * layout.slot_width,
        x_start + wave_width <= pre.width,
        position == (i as int) * 1000 / (layout.displayable as int),
        position <= 1000,
        spec_wave_inv(pre, *old(canvas), *layout, *params, i as int, k as int, 0),
        k < 2 * wave_height + 1,
    ensures
        spec_style_post(pre, *final(canvas), *layout),
        spec_wave_inv(pre, *final(canvas), *layout, *params, i as int, k as int + 1, 0),
{
    let ghost w = pre.width as int;
    let ghost magnitude = layout.render_frequencies@[i as int];
            let (y, dist): (usize, usize) = if k < wave_height {
                (center_y - (wave_height - k), wave_height - k)
            } else {
                (center_y + (k - wave_height), k - wave_height)
            };
            if y >= layout.bars_y_start && y < layout.bars_y_start + layout.bars_height {
                let fall: u32 = milli_frac(dist, wh1);
                let intensity: u32 = 1000 - fall;
                let (r, g, b) = params.color_scheme.get_color(position, intensity);
                let op: u32 = milli_mul(params.opacity, intensity);
                let mut bx: usize = 0;
                while bx < wave_width
                    invariant
                        spec_style_pre(pre, *layout, *params),
                        spec_style_post(pre, *canvas, *layout),
                        w == pre.width as int,
                        i < layout.displayable,
                        center_y == spec_band_center(*layout),
                        magnitude == layout.render_frequencies@[i as int],
                        wave_height == spec_half_height(
                            magnitude as int,
                            layout.bars_height as int,
                        ),
                        wh1 == if wave_height >= 1 {
                            wave_height as int
                        } else {
                            1
                        },
                        wave_width == spec_wave_width(params.bar_width as int),
                        wave_width <= layout.slot_width,
                        x_start == layout.start_x + i * layout.slot_width,
                        x_start + wave_width <= pre.width,
                        k < 2 * wave_height + 1,
                        dist <= wave_height,
                        k as int == if y <= center_y {
                            wave_height - dist
                        } else {
                            wave_height + dist
                        },
                        dist == if y as int >= center_y as int {
                            y - center_y
                        } else {
                            center_y - y
                        },
                        layout.bars_y_start <= y < layout.bars_y_start + layout.bars_height,
                        (r, g, b) == crate::color::spec_get_color(
                            params.color_scheme,
                            (i as int) * 1000 / (layout.displayable as int),
                            1000 - (dist as int) * 1000 / (wh1 as int),
                        ),
                        op as int == (params.opacity as int) * (1000 - (dist as int) * 1000 / (
                        wh1 as int)) / 1000,
                        op <= 1000,
                        spec_wave_inv(
                            pre,
                            *canvas,
                            *layout,
                            *params,
                            i as int,
                            k as int,
                            bx as int,
                        ),
                        bx <= wave_width,
                    decreases wave_width - bx,
                {
                    let x: usize = x_start + bx;
                    proof {
                        lemma_bar_column(
                            layout.start_x as int,
                            layout.slot_width as int,
                            layout.displayable as int,
                            i as int,
                            bx as int,
                        );
                    }
                    let ghost before_put = *canvas;
                    put_band_pixel(
                        canvas,
                        x,
                        y,
                        (r, g, b),
                        op,
                        layout.bars_y_start,
                        layout.bars_height,
                        Ghost(pre),
                    );
                    proof {
                        assert forall|px: int, py: int|
                            0 <= px < pre.width && 0 <= py < pre.height && #[trigger] spec_wave_done(
                                *layout,
                                *params,
                                px,
                                py,
                                i as int,
                                k as int,
                                bx as int + 1,
                            ) && !(px == x as int && py == y as int) implies spec_wave_done(
                            *layout,
                            *params,
                            px,
                            py,
                            i as int,
                            k as int,
                            bx as int,
                        ) by {
                            if !spec_wave_done(
                                *layout,
                                *params,
                                px,
                                py,
                                i as int,
                                k as int,
                                bx as int,
                            ) {
                                lemma_bar_at_range(
                                    px - layout.start_x,
                                    layout.slot_width as int,
                                    layout.displayable as int,
                                );
                                assert(false);
                            }
                        }
                        lemma_wave_put_step(
                            pre,
                            before_put,
                            *canvas,
                            *layout,
                            *params,
                            i as int,
                            k as int,
                            bx as int,
                            x as int,
                            y as int,
                            (r, g, b),
                            op,
                        );
                    }
                    bx += 1;
                }
                proof {
                    lemma_wave_phase(
                        pre,
                        *canvas,
                        *layout,
                        *params,
                        i as int,
                        k as int,
                        wave_width as int,
                        i as int,
                        k as int + 1,
                        0,
                    );
                }
            } else {
                proof {
                    lemma_wave_phase(
                        pre,
                        *canvas,
                        *layout,
                        *params,
                        i as int,
                        k as int,
                        0,
                        i as int,
                        k as int + 1,
                        0,
                    );
                }
            }
}

/// Style 2: a thin vertical wave centered on the middle row of the band,
/// brightest at the center and fading toward the tips. The contract gives
/// the full picture: a pixel within a bar's wave reach holds the scheme
/// color at the distance-faded intensity and opacity; every other pixel
/// is untouched.
#[verifier::rlimit(100)]
#[verifier::spinoff_prover]
fn render_bars_wave(canvas: &mut Canvas, layout: &BarLayout, params: &RenderParams)
    requires
        spec_style_pre(*old(canvas), *layout, *params),
    ensures
        spec_style_post(*old(canvas), *final(canvas), *layout),
        forall|x: int, y: int|
            0 <= x < old(canvas).width && 0 <= y < old(canvas).height && #[trigger] spec_wave_covers(
                *layout,
                *params,
                x,
                y,
            ) ==> spec_pixel_is(
                *final(canvas),
                x,
                y,
                spec_wave_color(*layout, *params, x, y),
                spec_wave_op(*layout, *params, x, y),
            ),
        forall|x: int, y: int|
            0 <= x < old(canvas).width && 0 <= y < old(canvas).height && !#[trigger] spec_wave_covers(
                *layout,
                *params,
                x,
                y,
            ) ==> spec_pixel_kept(*old(canvas), *final(canvas), x, y),
{
    let ghost pre = *canvas;
    let ghost w = pre.width as int;
    let center_y: usize = layout.bars_y_start + layout.bars_height / 2;
    let wave_width: usize = {
        let v = params.bar_width / 3;
        if v >= 1 {
            v
        } else {
            1
        }
    };
    let mut i: usize = 0;
    while i < layout.displayable
        invariant
            spec_style_pre(pre, *layout, *params),
            spec_style_post(pre, *canvas, *layout),
            pre == *old(canvas),
            w == pre.width as int,
            center_y == spec_band_center(*layout),
            wave_width == spec_wave_width(params.bar_width as int),
            wave_width <= layout.slot_width,
            spec_wave_inv(pre, *canvas, *layout, *params, i as int, 0, 0),
            i <= layout.displayable,
        decreases layout.displayable - i,
    {
        proof {
            lemma_slot_extent(i as int, layout.displayable as int, layout.slot_width as int);
        }
        let magnitude: u32 = layout.render_frequencies[i];
        let wave_height: usize = scale_dim(magnitude, layout.bars_height / 2);
        let x_start: usize = layout.start_x + i * layout.slot_width;
        let position: u32 = milli_frac(i, layout.displayable);
        let wh1: usize = if wave_height >= 1 {
            wave_height
        } else {
            1
        };
        // Offsets run from the top tip through the center to the bottom
        // tip; all arithmetic stays unsigned.
        let mut k: usize = 0;
        while k < 2 * wave_height + 1
            invariant
                spec_style_pre(pre, *layout, *params),
                spec_style_post(pre, *canvas, *layout),
                pre == *old(canvas),
                w == pre.width as int,
                i < layout.displayable,
                center_y == spec_band_center(*layout),
                magnitude == layout.render_frequencies@[i as int],
                wave_height == spec_half_height(magnitude as int, layout.bars_height as int),
                wave_height <= layout.bars_height / 2,
                wh1 == if wave_height >= 1 {
                    wave_height as int
                } else {
                    1
                },
                wave_width == spec_wave_width(params.bar_width as int),
                wave_width <= layout.slot_width,
                x_start == layout.start_x + i * layout.slot_width,
                x_start + wave_width <= pre.width,
                x_start <= pre.width,
                position == (i as int) * 1000 / (layout.displayable as int),
                position <= 1000,
                spec_wave_inv(pre, *canvas, *layout, *params, i as int, k as int, 0),
                k <= 2 * wave_height + 1,
            decreases 2 * wave_height + 1 - k,
        {
            wave_row(
                canvas,
                layout,
                params,
                i,
                k,
                wave_height,
                wh1,
                wave_width,
                x_start,
                position,
                center_y,
                Ghost(pre),
            );
            k += 1;
        }
        proof {
            lemma_wave_phase(
                pre,
                *canvas,
                *layout,
                *params,
                i as int,
                2 * wave_height as int + 1,
                0,
                i as int + 1,
                0,
                0,
            );
        }
        i += 1;
    }
    proof {
        assert forall|x: int, y: int|
            0 <= x < pre.width && 0 <= y < pre.height && #[trigger] spec_wave_covers(
                *layout,
                *params,
                x,
                y,
            ) implies spec_wave_done(*layout, *params, x, y, layout.displayable as int, 0, 0) by {
            lemma_bar_at_range(
                x - layout.start_x,
                layout.slot_width as int,
                layout.displayable as int,
            );
        }
        assert forall|x: int, y: int|
            0 <= x < pre.width && 0 <= y < pre.height && !#[trigger] spec_wave_covers(
                *layout,
                *params,
                x,
                y,
            ) implies spec_pixel_kept(pre, *canvas, x, y) by {
            assert(!spec_wave_done(*layout, *params, x, y, layout.displayable as int, 0, 0));
        }
    }
}

/// Style 3: dots at the magnitude peak with a fading trail below.
fn render_bars_dots(canvas: &mut Canvas, layout: &BarLayout, params: &RenderParams)
    requires
        spec_style_pre(*old(canvas), *layout, *params),
    ensures
        spec_style_post(*old(canvas), *final(canvas), *layout),
{
    let ghost pre = *canvas;
    proof {
        lemma_slot_extent(0, layout.displayable as int, layout.slot_width as int);
        assert(pre.width * 4 <= pre.width * pre.height * 4) by (nonlinear_arith)
            requires
                pre.height >= 1 && pre.width >= 0,
        ;
        assert(pre.height * 4 <= pre.width * pre.height * 4) by (nonlinear_arith)
            requires
                pre.width >= 1 && pre.height >= 0,
        ;
    }
    let dot_radius: usize = {
        let v = params.bar_width / 3;
        if v >= 2 {
            v
        } else {
            2
        }
    };
    let band_end: usize = layout.bars_y_start + layout.bars_height;
    let mut i: usize = 0;
    while i < layout.displayable
        invariant
            spec_style_pre(pre, *layout, *params),
            spec_style_post(pre, *canvas, *layout),
            pre == *old(canvas),
            band_end == layout.bars_y_start + layout.bars_height,
            4 * pre.width <= usize::MAX,
            4 * pre.height <= usize::MAX,
            dot_radius <= pre.width + 2,
            i <= layout.displayable,
        decreases layout.displayable - i,
    {
        proof {
            lemma_slot_extent(i as int, layout.displayable as int, layout.slot_width as int);
        }
        let magnitude: u32 = layout.render_frequencies[i];
        let peak_y: usize = layout.bars_y_start + layout.bars_height - 1 - scale_dim(
            magnitude,
            layout.bars_height - 1,
        );
        let x_center: usize = layout.start_x + i * layout.slot_width + params.bar_width / 2;
        let position: u32 = milli_frac(i, layout.displayable);
        let (r, g, b) = params.color_scheme.get_color(position, magnitude);
        // Filled circle at the peak.
        let side: usize = 2 * dot_radius + 1;
        let mut dyk: usize = 0;
        while dyk < side
            invariant
                spec_style_pre(pre, *layout, *params),
                spec_style_post(pre, *canvas, *layout),
                pre == *old(canvas),
                band_end == layout.bars_y_start + layout.bars_height,
                side == 2 * dot_radius + 1,
                4 * pre.width <= usize::MAX,
                dot_radius <= pre.width + 2,
                layout.bars_y_start <= peak_y < band_end,
                magnitude <= 1000,
                position <= 1000,
                dyk <= side,
            decreases side - dyk,
        {
            let dy: i128 = dyk as i128 - dot_radius as i128;
            let mut dxk: usize = 0;
            while dxk < side
                invariant
                    spec_style_pre(pre, *layout, *params),
                    spec_style_post(pre, *canvas, *layout),
                    pre == *old(canvas),
                    band_end == layout.bars_y_start + layout.bars_height,
                    side == 2 * dot_radius + 1,
                    4 * pre.width <= usize::MAX,
                    dot_radius <= pre.width + 2,
                    layout.bars_y_start <= peak_y < band_end,
                    -(dot_radius as i128) <= dy <= dot_radius as i128,
                    dxk <= side,
                decreases side - dxk,
            {
                let dx: i128 = dxk as i128 - dot_radius as i128;
                proof {
                    lemma_circle_bound(dx as int, dy as int, dot_radius as int);
                }
                let r2: i128 = (dot_radius as i128) * (dot_radius as i128);
                if dx * dx + dy * dy <= r2 {
                    let xi: i128 = x_center as i128 + dx;
                    let yi: i128 = peak_y as i128 + dy;
                    if 0 <= xi && xi < canvas.width as i128 && yi >= layout.bars_y_start as i128
                        && yi < band_end as i128 {
                        put_band_pixel(
                            canvas,
                            xi as usize,
                            yi as usize,
                            (r, g, b),
                            params.opacity,
                            layout.bars_y_start,
                            layout.bars_height,
                            Ghost(pre),
                        );
                    }
                }
                dxk += 1;
            }
            dyk += 1;
        }
        // Fading trail below the dot.
        let trail_width: usize = {
            let v = params.bar_width / 4;
            if v >= 1 {
                v
            } else {
                1
            }
        };
        let trail_start: usize = peak_y + dot_radius + 1;
        let half_band: usize = {
            let v = layout.bars_height / 2;
            if v >= 1 {
                v
            } else {
                1
            }
        };
        let mut dy2: usize = 0;
        while dy2 < half_band && trail_start + dy2 < band_end
            invariant
                spec_style_pre(pre, *layout, *params),
                spec_style_post(pre, *canvas, *layout),
                pre == *old(canvas),
                band_end == layout.bars_y_start + layout.bars_height,
                4 * pre.width <= usize::MAX,
                4 * pre.height <= usize::MAX,
                dot_radius <= pre.width + 2,
                layout.bars_y_start <= peak_y < band_end,
                trail_start == peak_y + dot_radius + 1,
                1 <= half_band <= layout.bars_height,
                magnitude <= 1000,
                position <= 1000,
                dy2 <= half_band,
            decreases half_band - dy2,
        {
            let y: usize = trail_start + dy2;
            let trail_intensity: u32 = 1000 - milli_frac(dy2, half_band);
            let (tr, tg, tb) = params.color_scheme.get_color(
                position,
                milli_mul(trail_intensity, magnitude),
            );
            let op: u32 = milli_mul(params.opacity, trail_intensity);
            let mut bx: usize = 0;
            while bx < trail_width
                invariant
                    spec_style_pre(pre, *layout, *params),
                    spec_style_post(pre, *canvas, *layout),
                    pre == *old(canvas),
                    band_end == layout.bars_y_start + layout.bars_height,
                    layout.bars_y_start <= y < band_end,
                    op <= 1000,
                    bx <= trail_width,
                decreases trail_width - bx,
            {
                let xi: i128 = x_center as i128 - (trail_width / 2) as i128 + bx as i128;
                if 0 <= xi && xi < canvas.width as i128 {
                    put_band_pixel(
                        canvas,
                        xi as usize,
                        y,
                        (tr, tg, tb),
                        op,
                        layout.bars_y_start,
                        layout.bars_height,
                        Ghost(pre),
                    );
                }
                bx += 1;
            }
            dy2 += 1;
        }
        i += 1;
    }
}

/// The fade band's height for a configured bar width: half the bar
/// width, at least 2.
pub open spec fn spec_fade_height(bar_width: int) -> int {
    if bar_width / 2 >= 2 {
        bar_width / 2
    } else {
        2
    }
}

/// The sub-unit remainder of a bar's height, in milli units: what the
/// fade band's strength is derived from.
pub open spec fn spec_bar_fraction(m: int, hb: int) -> int {
    (m * hb) % 1000
}

/// How many fade rows bar `b` gets: the fade height, limited by the room
/// between the bar's top row and the top of the band.
pub open spec fn spec_blocks_fade_rows(layout: BarLayout, params: RenderParams, b: int) -> int {
    let hb = layout.bars_height as int;
    let bh = spec_bar_height(layout.render_frequencies@[b] as int, hb);
    let top = layout.bars_y_start + hb - 1 - bh;
    let head_room = top - layout.bars_y_start;
    if spec_fade_height(params.bar_width as int) <= head_room {
        spec_fade_height(params.bar_width as int)
    } else {
        head_room
    }
}

/// Whether the blocks style paints pixel `(x, y)`: either in the solid
/// portion (like the classic style) or in the fade band above it (only
/// present when the bar does not fill the band).
pub open spec fn spec_blocks_covers(
    layout: BarLayout,
    params: RenderParams,
    x: int,
    y: int,
) -> bool {
    let b = spec_bar_at(layout, params.bar_width as int, x);
    let hb = layout.bars_height as int;
    let yo = layout.bars_y_start + hb - 1 - y;
    let bh = spec_bar_height(layout.render_frequencies@[b] as int, hb);
    let top = layout.bars_y_start + hb - 1 - bh;
    let fy = top - y;
    &&& b >= 0
    &&& layout.bars_y_start <= y < layout.bars_y_start + hb
    &&& (yo < bh || (bh < hb && 0 <= fy < spec_blocks_fade_rows(layout, params, b)))
}

/// The color the blocks style paints at `(x, y)`: in the solid portion the
/// row's own intensity, in the fade band the intensity of the top edge.
pub open spec fn spec_blocks_color(
    layout: BarLayout,
    params: RenderParams,
    x: int,
    y: int,
) -> (u8, u8, u8) {
    let b = spec_bar_at(layout, params.bar_width as int, x);
    let hb = layout.bars_height as int;
    let yo = layout.bars_y_start + hb - 1 - y;
    let bh = spec_bar_height(layout.render_frequencies@[b] as int, hb);
    crate::color::spec_get_color(
        params.color_scheme,
        b * 1000 / (layout.displayable as int),
        if yo < bh {
            yo * 1000 / hb
        } else {
            bh * 1000 / hb
        },
    )
}

/// The opacity the blocks style paints at `(x, y)`: full in the solid
/// portion; in the fade band, scaled by the height remainder and fading
/// out with the distance above the top edge.
pub open spec fn spec_blocks_op(layout: BarLayout, params: RenderParams, x: int, y: int) -> u32 {
    let b = spec_bar_at(layout, params.bar_width as int, x);
    let hb = layout.bars_height as int;
    let yo = layout.bars_y_start + hb - 1 - y;
    let bh = spec_bar_height(layout.render_frequencies@[b] as int, hb);
    let top = layout.bars_y_start + hb - 1 - bh;
    let fy = top - y;
    if yo < bh {
        params.opacity
    } else {
        let fract = spec_bar_fraction(layout.render_frequencies@[b] as int, hb);
        let fall = 1000 - fy * 1000 / spec_fade_height(params.bar_width as int);
        let fade = fract * fall / 1000;
        ((params.opacity as int) * fade / 1000) as u32
    }
}

/// The blocks style's progress: all bars below `i`; for bar `i`, phase 0
/// walks the solid rows by offset, phase 1 the fade rows; within the
/// current row the first `bx_prog` columns.
pub open spec fn spec_blocks_done(
    layout: BarLayout,
    params: RenderParams,
    x: int,
    y: int,
    i: int,
    phase: int,
    row_prog: int,
    bx_prog: int,
) -> bool {
    &&& spec_blocks_covers(layout, params, x, y)
    &&& {
        let b = spec_bar_at(layout, params.bar_width as int, x);
        let hb = layout.bars_height as int;
        let yo = layout.bars_y_start + hb - 1 - y;
        let bh = spec_bar_height(layout.render_frequencies@[b] as int, hb);
        let top = layout.bars_y_start + hb - 1 - bh;
        let fy = top - y;
        let c = (x - layout.start_x) % (layout.slot_width as int);
        let zone: int = if yo < bh {
            0
        } else {
            1
        };
        let idx = if yo < bh {
            yo
        } else {
            fy
        };
        ||| b < i
        ||| (b == i && zone < phase)
        ||| (b == i && zone == phase && idx < row_prog)
        ||| (b == i && zone == phase && idx == row_prog && c < bx_prog)
    }
}

/// The blocks style's loop invariant.
pub open spec fn spec_blocks_inv(
    pre: Canvas,
    cur: Canvas,
    layout: BarLayout,
    params: RenderParams,
    i: int,
    phase: int,
    row_prog: int,
    bx_prog: int,
) -> bool {
    &&& forall|x: int, y: int|
        0 <= x < pre.width && 0 <= y < pre.height && #[trigger] spec_blocks_done(
            layout,
            params,
            x,
            y,
            i,
            phase,
            row_prog,
            bx_prog,
        ) ==> spec_pixel_is(
            cur,
            x,
            y,
            spec_blocks_color(layout, params, x, y),
            spec_blocks_op(layout, params, x, y),
        )
    &&& forall|x: int, y: int|
        0 <= x < pre.width && 0 <= y < pre.height && !#[trigger] spec_blocks_done(
            layout,
            params,
            x,
            y,
            i,
            phase,
            row_prog,
            bx_prog,
        ) ==> spec_pixel_kept(pre, cur, x, y)
}

/// One write of the blocks style extends the progress set by (at most) the
/// pixel `(x0, y0)`.
#[verifier::rlimit(90)]
proof fn lemma_blocks_put_step(
    pre: Canvas,
    before: Canvas,
    after: Canvas,
    layout: BarLayout,
    params: RenderParams,
    i: int,
    phase: int,
    row: int,
    bx: int,
    x0: int,
    y0: int,
    col: (u8, u8, u8),
    op: u32,
)
    requires
        spec_style_pre(pre, layout, params),
        spec_same_frame(pre, before),
        spec_same_frame(pre, after),
        spec_blocks_inv(pre, before, layout, params, i, phase, row, bx),
        0 <= x0 < pre.width,
        0 <= y0 < pre.height,
        spec_blocks_done(layout, params, x0, y0, i, phase, row, bx + 1),
        col == spec_blocks_color(layout, params, x0, y0),
        op == spec_blocks_op(layout, params, x0, y0),
        forall|x: int, y: int|
            0 <= x < pre.width && 0 <= y < pre.height && #[trigger] spec_blocks_done(
                layout,
                params,
                x,
                y,
                i,
                phase,
                row,
                bx + 1,
            ) && !(x == x0 && y == y0) ==> spec_blocks_done(layout, params, x, y, i, phase, row, bx),
        after.data@ == before.data@.update(
            (y0 * pre.width + x0) * 4,
            crate::canvas::spec_premul(col.0, op),
        ).update((y0 * pre.width + x0) * 4 + 1, crate::canvas::spec_premul(col.1, op)).update(
            (y0 * pre.width + x0) * 4 + 2,
            crate::canvas::spec_premul(col.2, op),
        ).update((y0 * pre.width + x0) * 4 + 3, crate::canvas::spec_alpha(op)),
    ensures
        spec_blocks_inv(pre, after, layout, params, i, phase, row, bx + 1),
{
    let w = pre.width as int;
    let h = pre.height as int;
    let j0 = (y0 * w + x0) * 4;
    let s0 = before.data@;
    let s1 = s0.update(j0, crate::canvas::spec_premul(col.0, op));
    let s2 = s1.update(j0 + 1, crate::canvas::spec_premul(col.1, op));
    let s3 = s2.update(j0 + 2, crate::canvas::spec_premul(col.2, op));
    let s4 = s3.update(j0 + 3, crate::canvas::spec_alpha(op));
    assert(after.data@ == s4);
    assert(0 <= j0 && j0 + 3 < w * h * 4) by (nonlinear_arith)
        requires
            0 <= x0 < w && 0 <= y0 < h && j0 == (y0 * w + x0) * 4,
    ;
    assert(j0 + 3 < s0.len());
    assert forall|x: int, y: int|
        0 <= x < pre.width && 0 <= y < pre.height && #[trigger] spec_blocks_done(
            layout,
            params,
            x,
            y,
            i,
            phase,
            row,
            bx + 1,
        ) implies spec_pixel_is(
        after,
        x,
        y,
        spec_blocks_color(layout, params, x, y),
        spec_blocks_op(layout, params, x, y),
    ) by {
        if x == x0 && y == y0 {
            assert(s4[j0] == crate::canvas::spec_premul(col.0, op));
            assert(s4[j0 + 1] == crate::canvas::spec_premul(col.1, op));
            assert(s4[j0 + 2] == crate::canvas::spec_premul(col.2, op));
            assert(s4[j0 + 3] == crate::canvas::spec_alpha(op));
        } else {
            lemma_pixel_index_distinct(x, y, x0, y0, w);
            let p = (y * w + x) * 4;
            assert(0 <= p && p + 3 < w * h * 4) by (nonlinear_arith)
                requires
                    0 <= x < w && 0 <= y < h && p == (y * w + x) * 4,
            ;
            assert(p + 3 < s0.len());
            assert(y * w + x != y0 * w + x0);
            assert(s4[p] == s3[p] && s4[p + 1] == s3[p + 1] && s4[p + 2] == s3[p + 2] && s4[p + 3]
                == s3[p + 3]);
            assert(s3[p] == s2[p] && s3[p + 1] == s2[p + 1] && s3[p + 2] == s2[p + 2] && s3[p + 3]
                == s2[p + 3]);
            assert(s2[p] == s1[p] && s2[p + 1] == s1[p + 1] && s2[p + 2] == s1[p + 2] && s2[p + 3]
                == s1[p + 3]);
            assert(s1[p] == s0[p] && s1[p + 1] == s0[p + 1] && s1[p + 2] == s0[p + 2] && s1[p + 3]
                == s0[p + 3]);
        }
    }
    assert forall|x: int, y: int|
        0 <= x < pre.width && 0 <= y < pre.height && !#[trigger] spec_blocks_done(
            layout,
            params,
            x,
            y,
            i,
            phase,
            row,
            bx + 1,
        ) implies spec_pixel_kept(pre, after, x, y) by {
        assert(!spec_blocks_done(layout, params, x, y, i, phase, row, bx));
        assert(!(x == x0 && y == y0));
        lemma_pixel_index_distinct(x, y, x0, y0, w);
        let p = (y * w + x) * 4;
        assert(0 <= p && p + 3 < w * h * 4) by (nonlinear_arith)
            requires
                0 <= x < w && 0 <= y < h && p == (y * w + x) * 4,
        ;
        assert(p + 3 < s0.len());
        assert(y * w + x != y0 * w + x0);
        assert(s4[p] == s3[p] && s4[p + 1] == s3[p + 1] && s4[p + 2] == s3[p + 2] && s4[p + 3]
            == s3[p + 3]);
        assert(s3[p] == s2[p] && s3[p + 1] == s2[p + 1] && s3[p + 2] == s2[p + 2] && s3[p + 3]
            == s2[p + 3]);
        assert(s2[p] == s1[p] && s2[p + 1] == s1[p + 1] && s2[p + 2] == s1[p + 2] && s2[p + 3]
            == s1[p + 3]);
        assert(s1[p] == s0[p] && s1[p + 1] == s0[p + 1] && s1[p + 2] == s0[p + 2] && s1[p + 3]
            == s0[p + 3]);
    }
}

/// Moving between the blocks style's loop phases keeps the same progress
/// set.
proof fn lemma_blocks_phase(
    pre: Canvas,
    cur: Canvas,
    layout: BarLayout,
    params: RenderParams,
    i: int,
    phase: int,
    row: int,
    bx: int,
    i2: int,
    phase2: int,
    row2: int,
    bx2: int,
)
    requires
        spec_style_pre(pre, layout, params),
        spec_blocks_inv(pre, cur, layout, params, i, phase, row, bx),
        forall|x: int, y: int|
            0 <= x < pre.width && 0 <= y < pre.height ==> #[trigger] spec_blocks_done(
                layout,
                params,
                x,
                y,
                i2,
                phase2,
                row2,
                bx2,
            ) == spec_blocks_done(layout, params, x, y, i, phase, row, bx),
    ensures
        spec_blocks_inv(pre, cur, layout, params, i2, phase2, row2, bx2),
{
    assert forall|x: int, y: int|
        0 <= x < pre.width && 0 <= y < pre.height && #[trigger] spec_blocks_done(
            layout,
            params,
            x,
            y,
            i2,
            phase2,
            row2,
            bx2,
        ) implies spec_pixel_is(
        cur,
        x,
        y,
        spec_blocks_color(layout, params, x, y),
        spec_blocks_op(layout, params, x, y),
    ) by {
        assert(spec_blocks_done(layout, params, x, y, i, phase, row, bx));
    }
    assert forall|x: int, y: int|
        0 <= x < pre.width && 0 <= y < pre.height && !#[trigger] spec_blocks_done(
            layout,
            params,
            x,
            y,
            i2,
            phase2,
            row2,
            bx2,
        ) implies spec_pixel_kept(pre, cur, x, y) by {
        assert(!spec_blocks_done(layout, params, x, y, i, phase, row, bx));
    }
}

/// Style 4: blocks grown like the classic bars, with an anti-aliased fade
/// band above the top edge driven by the sub-unit remainder of the bar
/// height. The contract gives the full picture: solid pixels hold the
/// classic row color at full opacity, fade pixels hold the top edge's
/// color at the remainder-scaled, falling opacity; every other pixel is
/// untouched.
#[verifier::rlimit(90)]
fn render_bars_blocks(canvas: &mut Canvas, layout: &BarLayout, params: &RenderParams)
    requires
        spec_style_pre(*old(canvas), *layout, *params),
    ensures
        spec_style_post(*old(canvas), *final(canvas), *layout),
        forall|x: int, y: int|
            0 <= x < old(canvas).width && 0 <= y < old(canvas).height
                && #[trigger] spec_blocks_covers(*layout, *params, x, y) ==> spec_pixel_is(
                *final(canvas),
                x,
                y,
                spec_blocks_color(*layout, *params, x, y),
                spec_blocks_op(*layout, *params, x, y),
            ),
        forall|x: int, y: int|
            0 <= x < old(canvas).width && 0 <= y < old(canvas).height
                && !#[trigger] spec_blocks_covers(*layout, *params, x, y) ==> spec_pixel_kept(
                *old(canvas),
                *final(canvas),
                x,
                y,
            ),
{
    let ghost pre = *canvas;
    let ghost w = pre.width as int;
    let fade_height: usize = {
        let v = params.bar_width / 2;
        if v >= 2 {
            v
        } else {
            2
        }
    };
    let mut i: usize = 0;
    while i < layout.displayable
        invariant
            spec_style_pre(pre, *layout, *params),
            spec_style_post(pre, *canvas, *layout),
            pre == *old(canvas),
            w == pre.width as int,
            fade_height == spec_fade_height(params.bar_width as int),
            spec_blocks_inv(pre, *canvas, *layout, *params, i as int, 0, 0, 0),
            i <= layout.displayable,
        decreases layout.displayable - i,
    {
        proof {
            lemma_slot_extent(i as int, layout.displayable as int, layout.slot_width as int);
        }
        let magnitude: u32 = layout.render_frequencies[i];
        let bar_height: usize = scale_dim(magnitude, layout.bars_height);
        let fractional: u32 = {
            proof {
                assert((magnitude as int) * (layout.bars_height as int) >= 0) by (nonlinear_arith)
                    requires
                        magnitude >= 0 && layout.bars_height >= 0,
                ;
                assert((magnitude as int) * (layout.bars_height as int) <= u128::MAX)
                    by (nonlinear_arith)
                    requires
                        magnitude <= 1000 && layout.bars_height <= usize::MAX,
                ;
            }
            (((magnitude as u128) * (layout.bars_height as u128)) % 1000) as u32
        };
        let x_start: usize = layout.start_x + i * layout.slot_width;
        let position: u32 = milli_frac(i, layout.displayable);
        // Solid portion, identical to the classic style.
        let mut y_offset: usize = 0;
        while y_offset < bar_height
            invariant
                spec_style_pre(pre, *layout, *params),
                spec_style_post(pre, *canvas, *layout),
                pre == *old(canvas),
                w == pre.width as int,
                i < layout.displayable,
                magnitude == layout.render_frequencies@[i as int],
                bar_height == spec_bar_height(magnitude as int, layout.bars_height as int),
                bar_height <= layout.bars_height,
                fade_height == spec_fade_height(params.bar_width as int),
                fractional == spec_bar_fraction(magnitude as int, layout.bars_height as int),
                x_start == layout.start_x + i * layout.slot_width,
                x_start + params.bar_width <= pre.width || params.bar_width == 0,
                x_start <= pre.width,
                position == (i as int) * 1000 / (layout.displayable as int),
                position <= 1000,
                spec_blocks_inv(pre, *canvas, *layout, *params, i as int, 0, y_offset as int, 0),
                y_offset <= bar_height,
            decreases bar_height - y_offset,
        {
            let y: usize = layout.bars_y_start + layout.bars_height - 1 - y_offset;
            let intensity: u32 = milli_frac(y_offset, layout.bars_height);
            let (r, g, b) = params.color_scheme.get_color(position, intensity);
            let mut bx: usize = 0;
            while bx < params.bar_width
                invariant
                    spec_style_pre(pre, *layout, *params),
                    spec_style_post(pre, *canvas, *layout),
                    pre == *old(canvas),
                    w == pre.width as int,
                    i < layout.displayable,
                    magnitude == layout.render_frequencies@[i as int],
                    bar_height == spec_bar_height(magnitude as int, layout.bars_height as int),
                    bar_height <= layout.bars_height,
                    x_start == layout.start_x + i * layout.slot_width,
                    x_start + params.bar_width <= pre.width,
                    y_offset < bar_height,
                    y == layout.bars_y_start + layout.bars_height - 1 - y_offset,
                    layout.bars_y_start <= y < layout.bars_y_start + layout.bars_height,
                    (r, g, b) == crate::color::spec_get_color(
                        params.color_scheme,
                        (i as int) * 1000 / (layout.displayable as int),
                        (y_offset as int) * 1000 / (layout.bars_height as int),
                    ),
                    spec_blocks_inv(
                        pre,
                        *canvas,
                        *layout,
                        *params,
                        i as int,
                        0,
                        y_offset as int,
                        bx as int,
                    ),
                    bx <= params.bar_width,
                decreases params.bar_width - bx,
            {
                let x: usize = x_start + bx;
                proof {
                    lemma_bar_column(
                        layout.start_x as int,
                        layout.slot_width as int,
                        layout.displayable as int,
                        i as int,
                        bx as int,
                    );
                }
                let ghost before_put = *canvas;
                put_band_pixel(
                    canvas,
                    x,
                    y,
                    (r, g, b),
                    params.opacity,
                    layout.bars_y_start,
                    layout.bars_height,
                    Ghost(pre),
                );
                proof {
                    assert forall|px: int, py: int|
                        0 <= px < pre.width && 0 <= py < pre.height && #[trigger] spec_blocks_done(
                            *layout,
                            *params,
                            px,
                            py,
                            i as int,
                            0,
                            y_offset as int,
                            bx as int + 1,
                        ) && !(px == x as int && py == y as int) implies spec_blocks_done(
                        *layout,
                        *params,
                        px,
                        py,
                        i as int,
                        0,
                        y_offset as int,
                        bx as int,
                    ) by {
                        if !spec_blocks_done(
                            *layout,
                            *params,
                            px,
                            py,
                            i as int,
                            0,
                            y_offset as int,
                            bx as int,
                        ) {
                            lemma_bar_at_range(
                                px - layout.start_x,
                                layout.slot_width as int,
                                layout.displayable as int,
                            );
                            assert(false);
                        }
                    }
                    lemma_blocks_put_step(
                        pre,
                        before_put,
                        *canvas,
                        *layout,
                        *params,
                        i as int,
                        0,
                        y_offset as int,
                        bx as int,
                        x as int,
                        y as int,
                        (r, g, b),
                        params.opacity,
                    );
                }
                bx += 1;
            }
            proof {
                lemma_blocks_phase(
                    pre,
                    *canvas,
                    *layout,
                    *params,
                    i as int,
                    0,
                    y_offset as int,
                    params.bar_width as int,
                    i as int,
                    0,
                    y_offset as int + 1,
                    0,
                );
            }
            y_offset += 1;
        }
        // Fade band above the top edge.
        if bar_height < layout.bars_height {
            proof {
                lemma_blocks_phase(
                    pre,
                    *canvas,
                    *layout,
                    *params,
                    i as int,
                    0,
                    bar_height as int,
                    0,
                    i as int,
                    1,
                    0,
                    0,
                );
            }
            let top_y: usize = layout.bars_y_start + layout.bars_height - 1 - bar_height;
            let intensity: u32 = milli_frac(bar_height, layout.bars_height);
            let (r, g, b) = params.color_scheme.get_color(position, intensity);
            let head_room: usize = top_y - layout.bars_y_start;
            let fade_rows: usize = if fade_height <= head_room {
                fade_height
            } else {
                head_room
            };
            let mut fy: usize = 0;
            while fy < fade_rows
                invariant
                    spec_style_pre(pre, *layout, *params),
                    spec_style_post(pre, *canvas, *layout),
                    pre == *old(canvas),
                    w == pre.width as int,
                    i < layout.displayable,
                    magnitude == layout.render_frequencies@[i as int],
                    bar_height == spec_bar_height(magnitude as int, layout.bars_height as int),
                    bar_height < layout.bars_height,
                    fade_height == spec_fade_height(params.bar_width as int),
                    fractional == spec_bar_fraction(magnitude as int, layout.bars_height as int),
                    fractional <= 1000,
                    fade_rows == spec_blocks_fade_rows(*layout, *params, i as int),
                    fade_rows <= head_room,
                    head_room == top_y - layout.bars_y_start,
                    top_y == layout.bars_y_start + layout.bars_height - 1 - bar_height,
                    layout.bars_y_start <= top_y < layout.bars_y_start + layout.bars_height,
                    fade_rows <= fade_height,
                    fade_height >= 2,
                    x_start == layout.start_x + i * layout.slot_width,
                    x_start + params.bar_width <= pre.width || params.bar_width == 0,
                    x_start <= pre.width,
                    (r, g, b) == crate::color::spec_get_color(
                        params.color_scheme,
                        (i as int) * 1000 / (layout.displayable as int),
                        (bar_height as int) * 1000 / (layout.bars_height as int),
                    ),
                    spec_blocks_inv(pre, *canvas, *layout, *params, i as int, 1, fy as int, 0),
                    fy <= fade_rows,
                decreases fade_rows - fy,
            {
                let y: usize = top_y - fy;
                let fade: u32 = milli_mul(fractional, 1000 - milli_frac(fy, fade_height));
                let op: u32 = milli_mul(params.opacity, fade);
                let mut bx: usize = 0;
                while bx < params.bar_width
                    invariant
                        spec_style_pre(pre, *layout, *params),
                        spec_style_post(pre, *canvas, *layout),
                        pre == *old(canvas),
                        w == pre.width as int,
                        i < layout.displayable,
                        magnitude == layout.render_frequencies@[i as int],
                        bar_height == spec_bar_height(magnitude as int, layout.bars_height as int),
                        bar_height < layout.bars_height,
                        fade_height == spec_fade_height(params.bar_width as int),
                        fractional == spec_bar_fraction(
                            magnitude as int,
                            layout.bars_height as int,
                        ),
                        fade_rows == spec_blocks_fade_rows(*layout, *params, i as int),
                        top_y == layout.bars_y_start + layout.bars_height - 1 - bar_height,
                        fy < fade_rows,
                        y == top_y - fy,
                        layout.bars_y_start <= y < layout.bars_y_start + layout.bars_height,
                        x_start == layout.start_x + i * layout.slot_width,
                        x_start + params.bar_width <= pre.width,
                        (r, g, b) == crate::color::spec_get_color(
                            params.color_scheme,
                            (i as int) * 1000 / (layout.displayable as int),
                            (bar_height as int) * 1000 / (layout.bars_height as int),
                        ),
                        op as int == (params.opacity as int) * ((fractional as int) * (1000 - (
                        fy as int) * 1000 / (fade_height as int)) / 1000) / 1000,
                        op <= 1000,
                        spec_blocks_inv(
                            pre,
                            *canvas,
                            *layout,
                            *params,
                            i as int,
                            1,
                            fy as int,
                            bx as int,
                        ),
                        bx <= params.bar_width,
                    decreases params.bar_width - bx,
                {
                    let x: usize = x_start + bx;
                    proof {
                        lemma_bar_column(
                            layout.start_x as int,
                            layout.slot_width as int,
                            layout.displayable as int,
                            i as int,
                            bx as int,
                        );
                    }
                    let ghost before_put = *canvas;
                    put_band_pixel(
                        canvas,
                        x,
                        y,
                        (r, g, b),
                        op,
                        layout.bars_y_start,
                        layout.bars_height,
                        Ghost(pre),
                    );
                    proof {
                        assert forall|px: int, py: int|
                            0 <= px < pre.width && 0 <= py < pre.height
                                && #[trigger] spec_blocks_done(
                                *layout,
                                *params,
                                px,
                                py,
                                i as int,
                                1,
                                fy as int,
                                bx as int + 1,
                            ) && !(px == x as int && py == y as int) implies spec_blocks_done(
                            *layout,
                            *params,
                            px,
                            py,
                            i as int,
                            1,
                            fy as int,
                            bx as int,
                        ) by {
                            if !spec_blocks_done(
                                *layout,
                                *params,
                                px,
                                py,
                                i as int,
                                1,
                                fy as int,
                                bx as int,
                            ) {
                                lemma_bar_at_range(
                                    px - layout.start_x,
                                    layout.slot_width as int,
                                    layout.displayable as int,
                                );
                                assert(false);
                            }
                        }
                        lemma_blocks_put_step(
                            pre,
                            before_put,
                            *canvas,
                            *layout,
                            *params,
                            i as int,
                            1,
                            fy as int,
                            bx as int,
                            x as int,
                            y as int,
                            (r, g, b),
                            op,
                        );
                    }
                    bx += 1;
                }
                proof {
                    lemma_blocks_phase(
                        pre,
                        *canvas,
                        *layout,
                        *params,
                        i as int,
                        1,
                        fy as int,
                        params.bar_width as int,
                        i as int,
                        1,
                        fy as int + 1,
                        0,
                    );
                }
                fy += 1;
            }
            proof {
                lemma_blocks_phase(
                    pre,
                    *canvas,
                    *layout,
                    *params,
                    i as int,
                    1,
                    fade_rows as int,
                    0,
                    i as int + 1,
                    0,
                    0,
                    0,
                );
            }
        } else {
            proof {
                lemma_blocks_phase(
                    pre,
                    *canvas,
                    *layout,
                    *params,
                    i as int,
                    0,
                    bar_height as int,
                    0,
                    i as int + 1,
                    0,
                    0,
                    0,
                );
            }
        }
        i += 1;
    }
    proof {
        assert forall|x: int, y: int|
            0 <= x < pre.width && 0 <= y < pre.height && #[trigger] spec_blocks_covers(
                *layout,
                *params,
                x,
                y,
            ) implies spec_blocks_done(
            *layout,
            *params,
            x,
            y,
            layout.displayable as int,
            0,
            0,
            0,
        ) by {
            lemma_bar_at_range(
                x - layout.start_x,
                layout.slot_width as int,
                layout.displayable as int,
            );
        }
        assert forall|x: int, y: int|
            0 <= x < pre.width && 0 <= y < pre.height && !#[trigger] spec_blocks_covers(
                *layout,
                *params,
                x,
                y,
            ) implies spec_pixel_kept(pre, *canvas, x, y) by {
            assert(!spec_blocks_done(
                *layout,
                *params,
                x,
                y,
                layout.displayable as int,
                0,
                0,
                0,
            ));
        }
    }
}

/// The oscilloscope's line thickness for a configured bar width: a
/// quarter of it, at least 1.
pub open spec fn spec_osc_thickness(bar_width: int) -> int {
    if bar_width / 4 >= 1 {
        bar_width / 4
    } else {
        1
    }
}

/// The waveform sample shown in column `x` of a canvas `w` wide.
pub open spec fn spec_osc_sample(params: RenderParams, w: int, x: int) -> int {
    let n = params.waveform.len() as int;
    let fi = if x * n / w < n - 1 {
        x * n / w
    } else {
        n - 1
    };
    params.waveform@[fi] as int
}

/// The trace row for column `x`: the center row displaced by the sample's
/// amplitude, clamped into the band.
pub open spec fn spec_osc_y(layout: BarLayout, params: RenderParams, w: int, x: int) -> int {
    let s = spec_osc_sample(params, w, x);
    let hb = layout.bars_height as int;
    let c = spec_band_center(layout);
    let ys = layout.bars_y_start as int;
    if s >= 0 {
        let dy = s * hb / 2000;
        if c - ys >= dy {
            c - dy
        } else {
            ys
        }
    } else {
        let dy = (-s) * hb / 2000;
        if c + dy < ys + hb {
            c + dy
        } else {
            ys + hb - 1
        }
    }
}

/// The rows joined in column `x`: its own trace row, together with the
/// previous column's, so consecutive columns leave no gap.
pub open spec fn spec_osc_span(layout: BarLayout, params: RenderParams, w: int, x: int) -> (
    int,
    int,
) {
    let y = spec_osc_y(layout, params, w, x);
    if x == 0 {
        (y, y)
    } else {
        let py = spec_osc_y(layout, params, w, x - 1);
        (
            if py <= y {
                py
            } else {
                y
            },
            if py <= y {
                y
            } else {
                py
            },
        )
    }
}

/// Whether the oscilloscope paints pixel `(x, y)`: within the column's
/// span, thickened downward, clipped to the band.
pub open spec fn spec_osc_covers(layout: BarLayout, params: RenderParams, w: int, x: int, y: int) -> bool {
    let span = spec_osc_span(layout, params, w, x);
    let hi = span.1 + spec_osc_thickness(params.bar_width as int) - 1;
    let bend = layout.bars_y_start + layout.bars_height;
    &&& params.waveform.len() >= 1
    &&& 0 <= x < w
    &&& span.0 <= y
    &&& y <= hi
    &&& y < bend
}

/// The color the oscilloscope paints in column `x`: the scheme color at
/// the column's position and the sample's amplitude, floored at 0.3.
pub open spec fn spec_osc_color(layout: BarLayout, params: RenderParams, w: int, x: int) -> (
    u8,
    u8,
    u8,
) {
    let s = spec_osc_sample(params, w, x);
    let mag = if s >= 0 {
        s
    } else {
        -s
    };
    crate::color::spec_get_color(
        params.color_scheme,
        x * 1000 / w,
        if mag >= 300 {
            mag
        } else {
            300
        },
    )
}

/// The oscilloscope's progress: all columns below `x_prog`, and in column
/// `x_prog` the rows below `upto`.
pub open spec fn spec_osc_done(
    layout: BarLayout,
    params: RenderParams,
    w: int,
    x: int,
    y: int,
    x_prog: int,
    upto: int,
) -> bool {
    &&& spec_osc_covers(layout, params, w, x, y)
    &&& (x < x_prog || (x == x_prog && y < upto))
}

/// The oscilloscope's loop invariant.
pub open spec fn spec_osc_inv(
    pre: Canvas,
    cur: Canvas,
    layout: BarLayout,
    params: RenderParams,
    x_prog: int,
    upto: int,
) -> bool {
    &&& forall|x: int, y: int|
        0 <= x < pre.width && 0 <= y < pre.height && #[trigger] spec_osc_done(
            layout,
            params,
            pre.width as int,
            x,
            y,
            x_prog,
            upto,
        ) ==> spec_pixel_is(
            cur,
            x,
            y,
            spec_osc_color(layout, params, pre.width as int, x),
            params.opacity,
        )
    &&& forall|x: int, y: int|
        0 <= x < pre.width && 0 <= y < pre.height && !#[trigger] spec_osc_done(
            layout,
            params,
            pre.width as int,
            x,
            y,
            x_prog,
            upto,
        ) ==> spec_pixel_kept(pre, cur, x, y)
}

/// One write of the oscilloscope either repaints an already painted pixel
/// of the current column with its value, or extends the column's painted
/// prefix by exactly one row.
#[verifier::rlimit(90)]
proof fn lemma_osc_put_step(
    pre: Canvas,
    before: Canvas,
    after: Canvas,
    layout: BarLayout,
    params: RenderParams,
    x0: int,
    y0: int,
    upto: int,
    new_upto: int,
    col: (u8, u8, u8),
)
    requires
        spec_style_pre(pre, layout, params),
        spec_same_frame(pre, before),
        spec_same_frame(pre, after),
        spec_osc_inv(pre, before, layout, params, x0, upto),
        0 <= x0 < pre.width,
        0 <= y0 < pre.height,
        spec_osc_covers(layout, params, pre.width as int, x0, y0),
        y0 <= upto,
        new_upto == if y0 == upto {
            upto + 1
        } else {
            upto
        },
        col == spec_osc_color(layout, params, pre.width as int, x0),
        after.data@ == before.data@.update(
            (y0 * pre.width + x0) * 4,
            crate::canvas::spec_premul(col.0, params.opacity),
        ).update((y0 * pre.width + x0) * 4 + 1, crate::canvas::spec_premul(col.1, params.opacity))
            .update(
            (y0 * pre.width + x0) * 4 + 2,
            crate::canvas::spec_premul(col.2, params.opacity),
        ).update((y0 * pre.width + x0) * 4 + 3, crate::canvas::spec_alpha(params.opacity)),
    ensures
        spec_osc_inv(pre, after, layout, params, x0, new_upto),
{
    let w = pre.width as int;
    let h = pre.height as int;
    let j0 = (y0 * w + x0) * 4;
    let s0 = before.data@;
    let s1 = s0.update(j0, crate::canvas::spec_premul(col.0, params.opacity));
    let s2 = s1.update(j0 + 1, crate::canvas::spec_premul(col.1, params.opacity));
    let s3 = s2.update(j0 + 2, crate::canvas::spec_premul(col.2, params.opacity));
    let s4 = s3.update(j0 + 3, crate::canvas::spec_alpha(params.opacity));
    assert(after.data@ == s4);
    assert(0 <= j0 && j0 + 3 < w * h * 4) by (nonlinear_arith)
        requires
            0 <= x0 < w && 0 <= y0 < h && j0 == (y0 * w + x0) * 4,
    ;
    assert(j0 + 3 < s0.len());
    assert forall|x: int, y: int|
        0 <= x < pre.width && 0 <= y < pre.height && #[trigger] spec_osc_done(
            layout,
            params,
            w,
            x,
            y,
            x0,
            new_upto,
        ) implies spec_pixel_is(
        after,
        x,
        y,
        spec_osc_color(layout, params, w, x),
        params.opacity,
    ) by {
        if x == x0 && y == y0 {
            assert(s4[j0] == crate::canvas::spec_premul(col.0, params.opacity));
            assert(s4[j0 + 1] == crate::canvas::spec_premul(col.1, params.opacity));
            assert(s4[j0 + 2] == crate::canvas::spec_premul(col.2, params.opacity));
            assert(s4[j0 + 3] == crate::canvas::spec_alpha(params.opacity));
        } else {
            lemma_pixel_index_distinct(x, y, x0, y0, w);
            let p = (y * w + x) * 4;
            assert(0 <= p && p + 3 < w * h * 4) by (nonlinear_arith)
                requires
                    0 <= x < w && 0 <= y < h && p == (y * w + x) * 4,
            ;
            assert(p + 3 < s0.len());
            assert(y * w + x != y0 * w + x0);
            assert(s4[p] == s3[p] && s4[p + 1] == s3[p + 1] && s4[p + 2] == s3[p + 2] && s4[p + 3]
                == s3[p + 3]);
            assert(s3[p] == s2[p] && s3[p + 1] == s2[p + 1] && s3[p + 2] == s2[p + 2] && s3[p + 3]
                == s2[p + 3]);
            assert(s2[p] == s1[p] && s2[p + 1] == s1[p + 1] && s2[p + 2] == s1[p + 2] && s2[p + 3]
                == s1[p + 3]);
            assert(s1[p] == s0[p] && s1[p + 1] == s0[p + 1] && s1[p + 2] == s0[p + 2] && s1[p + 3]
                == s0[p + 3]);
            assert(spec_osc_done(layout, params, w, x, y, x0, upto));
        }
    }
    assert forall|x: int, y: int|
        0 <= x < pre.width && 0 <= y < pre.height && !#[trigger] spec_osc_done(
            layout,
            params,
            w,
            x,
            y,
            x0,
            new_upto,
        ) implies spec_pixel_kept(pre, after, x, y) by {
        assert(!spec_osc_done(layout, params, w, x, y, x0, upto));
        assert(!(x == x0 && y == y0));
        lemma_pixel_index_distinct(x, y, x0, y0, w);
        let p = (y * w + x) * 4;
        assert(0 <= p && p + 3 < w * h * 4) by (nonlinear_arith)
            requires
                0 <= x < w && 0 <= y < h && p == (y * w + x) * 4,
        ;
        assert(p + 3 < s0.len());
        assert(y * w + x != y0 * w + x0);
        assert(s4[p] == s3[p] && s4[p + 1] == s3[p + 1] && s4[p + 2] == s3[p + 2] && s4[p + 3]
            == s3[p + 3]);
        assert(s3[p] == s2[p] && s3[p + 1] == s2[p + 1] && s3[p + 2] == s2[p + 2] && s3[p + 3]
            == s2[p + 3]);
        assert(s2[p] == s1[p] && s2[p + 1] == s1[p + 1] && s2[p + 2] == s1[p + 2] && s2[p + 3]
            == s1[p + 3]);
        assert(s1[p] == s0[p] && s1[p + 1] == s0[p + 1] && s1[p + 2] == s0[p + 2] && s1[p + 3]
            == s0[p + 3]);
    }
}

/// Equal progress sets carry the oscilloscope's invariant across loop
/// boundaries.
proof fn lemma_osc_phase(
    pre: Canvas,
    cur: Canvas,
    layout: BarLayout,
    params: RenderParams,
    x_prog: int,
    upto: int,
    x2: int,
    upto2: int,
)
    requires
        spec_style_pre(pre, layout, params),
        spec_osc_inv(pre, cur, layout, params, x_prog, upto),
        forall|x: int, y: int|
            0 <= x < pre.width && 0 <= y < pre.height ==> #[trigger] spec_osc_done(
                layout,
                params,
                pre.width as int,
                x,
                y,
                x2,
                upto2,
            ) == spec_osc_done(layout, params, pre.width as int, x, y, x_prog, upto),
    ensures
        spec_osc_inv(pre, cur, layout, params, x2, upto2),
{
    let w = pre.width as int;
    assert forall|x: int, y: int|
        0 <= x < pre.width && 0 <= y < pre.height && #[trigger] spec_osc_done(
            layout,
            params,
            w,
            x,
            y,
            x2,
            upto2,
        ) implies spec_pixel_is(
        cur,
        x,
        y,
        spec_osc_color(layout, params, w, x),
        params.opacity,
    ) by {
        assert(spec_osc_done(layout, params, w, x, y, x_prog, upto));
    }
    assert forall|x: int, y: int|
        0 <= x < pre.width && 0 <= y < pre.height && !#[trigger] spec_osc_done(
            layout,
            params,
            w,
            x,
            y,
            x2,
            upto2,
        ) implies spec_pixel_kept(pre, cur, x, y) by {
        assert(!spec_osc_done(layout, params, w, x, y, x_prog, upto));
    }
}

/// Style 5: oscilloscope — the raw waveform as a continuous line, one
/// sample column per canvas column, with consecutive columns joined by a
/// filled, downward-thickened vertical span. The contract gives the full
/// picture: a pixel inside a column's span holds the column's sample
/// color; every other pixel is untouched.
#[verifier::rlimit(90)]
fn render_bars_oscilloscope(canvas: &mut Canvas, layout: &BarLayout, params: &RenderParams)
    requires
        spec_style_pre(*old(canvas), *layout, *params),
    ensures
        spec_style_post(*old(canvas), *final(canvas), *layout),
        forall|x: int, y: int|
            0 <= x < old(canvas).width && 0 <= y < old(canvas).height && #[trigger] spec_osc_covers(
                *layout,
                *params,
                old(canvas).width as int,
                x,
                y,
            ) ==> spec_pixel_is(
                *final(canvas),
                x,
                y,
                spec_osc_color(*layout, *params, old(canvas).width as int, x),
                params.opacity,
            ),
        forall|x: int, y: int|
            0 <= x < old(canvas).width && 0 <= y < old(canvas).height && !#[trigger] spec_osc_covers(
                *layout,
                *params,
                old(canvas).width as int,
                x,
                y,
            ) ==> spec_pixel_kept(*old(canvas), *final(canvas), x, y),
{
    let ghost pre = *canvas;
    let ghost w = pre.width as int;
    if params.waveform.len() == 0 {
        return ;
    }
    proof {
        lemma_slot_extent(0, layout.displayable as int, layout.slot_width as int);
        assert(pre.width * 4 <= pre.width * pre.height * 4) by (nonlinear_arith)
            requires
                pre.height >= 1 && pre.width >= 0,
        ;
        assert(pre.height * 4 <= pre.width * pre.height * 4) by (nonlinear_arith)
            requires
                pre.width >= 1 && pre.height >= 0,
        ;
    }
    let num_samples: usize = params.waveform.len();
    let center_y: usize = layout.bars_y_start + layout.bars_height / 2;
    let band_end: usize = layout.bars_y_start + layout.bars_height;
    let thickness: usize = {
        let v = params.bar_width / 4;
        if v >= 1 {
            v
        } else {
            1
        }
    };
    let mut prev_y: usize = 0;
    let mut x: usize = 0;
    while x < canvas.width
        invariant
            spec_style_pre(pre, *layout, *params),
            spec_style_post(pre, *canvas, *layout),
            pre == *old(canvas),
            w == pre.width as int,
            num_samples == params.waveform.len() >= 1,
            center_y == spec_band_center(*layout),
            band_end == layout.bars_y_start + layout.bars_height,
            4 * pre.width <= usize::MAX,
            4 * pre.height <= usize::MAX,
            thickness == spec_osc_thickness(params.bar_width as int),
            thickness <= pre.width + 1,
            x >= 1 ==> prev_y == spec_osc_y(*layout, *params, w, x as int - 1),
            spec_osc_inv(pre, *canvas, *layout, *params, x as int, 0),
            x <= pre.width,
        decreases pre.width - x,
    {
        let sample_idx: usize = resample_index(x, canvas.width, num_samples);
        let sample: i32 = params.waveform[sample_idx];
        let dy: usize = {
            let mag: u32 = if sample >= 0 {
                sample as u32
            } else {
                (-sample) as u32
            };
            proof {
                assert((mag as int) * (layout.bars_height as int) <= 1000 * (
                layout.bars_height as int) && (mag as int) * (layout.bars_height as int) / 2000 <= (
                layout.bars_height as int) / 2 && 0 <= (mag as int) * (layout.bars_height as int))
                    by (nonlinear_arith)
                    requires
                        0 <= mag <= 1000 && layout.bars_height >= 0,
                ;
            }
            (((mag as u128) * (layout.bars_height as u128)) / 2000) as usize
        };
        let y: usize = if sample >= 0 {
            // Positive samples rise above the center.
            if center_y - layout.bars_y_start >= dy {
                center_y - dy
            } else {
                layout.bars_y_start
            }
        } else {
            if center_y + dy < band_end {
                center_y + dy
            } else {
                band_end - 1
            }
        };
        proof {
            assert(y as int == spec_osc_y(*layout, *params, w, x as int));
        }
        let position: u32 = milli_frac(x, canvas.width);
        let intensity: u32 = {
            let mag: u32 = if sample >= 0 {
                sample as u32
            } else {
                (-sample) as u32
            };
            if mag >= 300 {
                mag
            } else {
                300
            }
        };
        let (r, g, b) = params.color_scheme.get_color(position, intensity);
        let (y_min, y_max): (usize, usize) = if x >= 1 {
            if prev_y <= y {
                (prev_y, y)
            } else {
                (y, prev_y)
            }
        } else {
            (y, y)
        };
        proof {
            assert((y_min as int, y_max as int) == spec_osc_span(*layout, *params, w, x as int));
            lemma_osc_phase(pre, *canvas, *layout, *params, x as int, 0, x as int, y_min as int);
        }
        let ghost upto: int = y_min as int;
        let mut fill_y: usize = y_min;
        while fill_y <= y_max
            invariant
                spec_style_pre(pre, *layout, *params),
                spec_style_post(pre, *canvas, *layout),
                pre == *old(canvas),
                w == pre.width as int,
                band_end == layout.bars_y_start + layout.bars_height,
                4 * pre.width <= usize::MAX,
                4 * pre.height <= usize::MAX,
                thickness == spec_osc_thickness(params.bar_width as int),
                thickness >= 1,
                thickness <= pre.width + 1,
                x < pre.width,
                (y_min as int, y_max as int) == spec_osc_span(*layout, *params, w, x as int),
                layout.bars_y_start <= y_min <= y_max < band_end,
                (r, g, b) == spec_osc_color(*layout, *params, w, x as int),
                num_samples == params.waveform.len() >= 1,
                y_min <= fill_y,
                fill_y <= y_max + 1,
                upto == ({
                    let u: int = if fill_y == y_min {
                        y_min as int
                    } else {
                        fill_y - 1 + thickness
                    };
                    if u <= band_end as int {
                        u
                    } else {
                        band_end as int
                    }
                }),
                spec_osc_inv(pre, *canvas, *layout, *params, x as int, upto),
            decreases y_max + 1 - fill_y,
        {
            let mut t: usize = 0;
            while t < thickness
                invariant
                    spec_style_pre(pre, *layout, *params),
                    spec_style_post(pre, *canvas, *layout),
                    pre == *old(canvas),
                    w == pre.width as int,
                    band_end == layout.bars_y_start + layout.bars_height,
                    4 * pre.width <= usize::MAX,
                    4 * pre.height <= usize::MAX,
                    thickness == spec_osc_thickness(params.bar_width as int),
                    thickness >= 1,
                    thickness <= pre.width + 1,
                    x < pre.width,
                    (y_min as int, y_max as int) == spec_osc_span(*layout, *params, w, x as int),
                    layout.bars_y_start <= y_min <= fill_y <= y_max < band_end,
                    (r, g, b) == spec_osc_color(*layout, *params, w, x as int),
                    num_samples == params.waveform.len() >= 1,
                    t <= thickness,
                    upto == ({
                        let u: int = if fill_y == y_min {
                            y_min + t
                        } else {
                            if fill_y - 1 + thickness >= fill_y + t {
                                fill_y - 1 + thickness
                            } else {
                                fill_y + t
                            }
                        };
                        if u <= band_end as int {
                            u
                        } else {
                            band_end as int
                        }
                    }),
                    spec_osc_inv(pre, *canvas, *layout, *params, x as int, upto),
                decreases thickness - t,
            {
                let py: usize = if fill_y + t < band_end {
                    fill_y + t
                } else {
                    band_end - 1
                };
                let ghost before_put = *canvas;
                put_band_pixel(
                    canvas,
                    x,
                    py,
                    (r, g, b),
                    params.opacity,
                    layout.bars_y_start,
                    layout.bars_height,
                    Ghost(pre),
                );
                proof {
                    let new_upto: int = if py as int == upto {
                        upto + 1
                    } else {
                        upto
                    };
                    lemma_osc_put_step(
                        pre,
                        before_put,
                        *canvas,
                        *layout,
                        *params,
                        x as int,
                        py as int,
                        upto,
                        new_upto,
                        (r, g, b),
                    );
                    upto = new_upto;
                }
                t += 1;
            }
            fill_y += 1;
        }
        proof {
            lemma_osc_phase(pre, *canvas, *layout, *params, x as int, upto, x as int + 1, 0);
        }
        prev_y = y;
        x += 1;
    }
    proof {
        assert forall|px: int, py: int|
            0 <= px < pre.width && 0 <= py < pre.height && #[trigger] spec_osc_covers(
                *layout,
                *params,
                w,
                px,
                py,
            ) implies spec_osc_done(*layout, *params, w, px, py, pre.width as int, 0) by {}
        assert forall|px: int, py: int|
            0 <= px < pre.width && 0 <= py < pre.height && !#[trigger] spec_osc_covers(
                *layout,
                *params,
                w,
                px,
                py,
            ) implies spec_pixel_kept(pre, *canvas, px, py) by {
            assert(!spec_osc_done(*layout, *params, w, px, py, pre.width as int, 0));
        }
    }
}

/// How many history rows the spectrogram shows in a band of `hb` rows.
pub open spec fn spec_spect_rows(params: RenderParams, hb: int) -> int {
    if params.spectrogram_history.len() <= hb {
        params.spectrogram_history.len() as int
    } else {
        hb
    }
}

/// The history snapshot drawn on band row `r` (0 is the bottom row of the
/// band): snapshots are drawn newest first from the bottom.
pub open spec fn spec_spect_slice(params: RenderParams, r: int) -> Seq<u32> {
    params.spectrogram_history@[params.spectrogram_history.len() - 1 - r]@
}

/// Whether the spectrogram paints pixel `(x, y)` on a canvas `w` wide:
/// `y` lies on one of the shown rows and that row's snapshot is not empty.
pub open spec fn spec_spect_covers(
    layout: BarLayout,
    params: RenderParams,
    w: int,
    x: int,
    y: int,
) -> bool {
    let r = layout.bars_y_start + layout.bars_height - 1 - y;
    &&& 0 <= x < w
    &&& layout.bars_y_start <= y < layout.bars_y_start + layout.bars_height
    &&& r < spec_spect_rows(params, layout.bars_height as int)
    &&& spec_spect_slice(params, r).len() >= 1
}

/// The magnitude driving pixel `(x, y)`: its row's snapshot re-sampled at
/// the pixel's column.
pub open spec fn spec_spect_mag(layout: BarLayout, params: RenderParams, w: int, x: int, y: int) -> int {
    let r = layout.bars_y_start + layout.bars_height - 1 - y;
    let slice = spec_spect_slice(params, r);
    let nf = slice.len() as int;
    let fi = if x * nf / w < nf - 1 {
        x * nf / w
    } else {
        nf - 1
    };
    slice[fi] as int
}

/// The color the spectrogram paints at `(x, y)`.
pub open spec fn spec_spect_color(
    layout: BarLayout,
    params: RenderParams,
    w: int,
    x: int,
    y: int,
) -> (u8, u8, u8) {
    crate::color::spec_get_color(
        params.color_scheme,
        x * 1000 / w,
        spec_spect_mag(layout, params, w, x, y),
    )
}

/// The opacity the spectrogram paints at `(x, y)`: the configured opacity
/// scaled by the magnitude, floored at 0.05.
pub open spec fn spec_spect_op(layout: BarLayout, params: RenderParams, w: int, x: int, y: int) -> u32 {
    let m = spec_spect_mag(layout, params, w, x, y);
    let fm = if m >= 50 {
        m
    } else {
        50
    };
    ((params.opacity as int) * fm / 1000) as u32
}

/// The spectrogram's progress: pixel `(x, y)` is painted once the loops
/// have finished every row below `r_prog` and the first `x_prog` columns
/// of row `r_prog`.
pub open spec fn spec_spect_done(
    layout: BarLayout,
    params: RenderParams,
    w: int,
    x: int,
    y: int,
    r_prog: int,
    x_prog: int,
) -> bool {
    let r = layout.bars_y_start + layout.bars_height - 1 - y;
    &&& spec_spect_covers(layout, params, w, x, y)
    &&& (r < r_prog || (r == r_prog && x < x_prog))
}

/// The spectrogram's loop invariant: pixels inside the progress set carry
/// their color and opacity, all others are untouched.
pub open spec fn spec_spect_inv(
    pre: Canvas,
    cur: Canvas,
    layout: BarLayout,
    params: RenderParams,
    r_prog: int,
    x_prog: int,
) -> bool {
    &&& forall|x: int, y: int|
        0 <= x < pre.width && 0 <= y < pre.height && #[trigger] spec_spect_done(
            layout,
            params,
            pre.width as int,
            x,
            y,
            r_prog,
            x_prog,
        ) ==> spec_pixel_is(
            cur,
            x,
            y,
            spec_spect_color(layout, params, pre.width as int, x, y),
            spec_spect_op(layout, params, pre.width as int, x, y),
        )
    &&& forall|x: int, y: int|
        0 <= x < pre.width && 0 <= y < pre.height && !#[trigger] spec_spect_done(
            layout,
            params,
            pre.width as int,
            x,
            y,
            r_prog,
            x_prog,
        ) ==> spec_pixel_kept(pre, cur, x, y)
}

/// One write of the spectrogram extends the progress set by exactly the
/// pixel `(x0, y0)`.
#[verifier::rlimit(90)]
proof fn lemma_spect_put_step(
    pre: Canvas,
    before: Canvas,
    after: Canvas,
    layout: BarLayout,
    params: RenderParams,
    r: int,
    x0: int,
    y0: int,
    col: (u8, u8, u8),
    op: u32,
)
    requires
        spec_style_pre(pre, layout, params),
        spec_same_frame(pre, before),
        spec_same_frame(pre, after),
        spec_spect_inv(pre, before, layout, params, r, x0),
        0 <= r < spec_spect_rows(params, layout.bars_height as int),
        spec_spect_slice(params, r).len() >= 1,
        0 <= x0 < pre.width,
        y0 == layout.bars_y_start + layout.bars_height - 1 - r,
        col == spec_spect_color(layout, params, pre.width as int, x0, y0),
        op == spec_spect_op(layout, params, pre.width as int, x0, y0),
        after.data@ == before.data@.update(
            (y0 * pre.width + x0) * 4,
            crate::canvas::spec_premul(col.0, op),
        ).update((y0 * pre.width + x0) * 4 + 1, crate::canvas::spec_premul(col.1, op)).update(
            (y0 * pre.width + x0) * 4 + 2,
            crate::canvas::spec_premul(col.2, op),
        ).update((y0 * pre.width + x0) * 4 + 3, crate::canvas::spec_alpha(op)),
    ensures
        spec_spect_inv(pre, after, layout, params, r, x0 + 1),
{
    let w = pre.width as int;
    let h = pre.height as int;
    let j0 = (y0 * w + x0) * 4;
    let s0 = before.data@;
    let s1 = s0.update(j0, crate::canvas::spec_premul(col.0, op));
    let s2 = s1.update(j0 + 1, crate::canvas::spec_premul(col.1, op));
    let s3 = s2.update(j0 + 2, crate::canvas::spec_premul(col.2, op));
    let s4 = s3.update(j0 + 3, crate::canvas::spec_alpha(op));
    assert(after.data@ == s4);
    assert(spec_spect_covers(layout, params, w, x0, y0));
    assert(0 <= j0 && j0 + 3 < w * h * 4) by (nonlinear_arith)
        requires
            0 <= x0 < w && 0 <= y0 < h && j0 == (y0 * w + x0) * 4,
    ;
    assert(j0 + 3 < s0.len());
    assert forall|x: int, y: int|
        0 <= x < pre.width && 0 <= y < pre.height && #[trigger] spec_spect_done(
            layout,
            params,
            w,
            x,
            y,
            r,
            x0 + 1,
        ) implies spec_pixel_is(
        after,
        x,
        y,
        spec_spect_color(layout, params, w, x, y),
        spec_spect_op(layout, params, w, x, y),
    ) by {
        if x == x0 && y == y0 {
            assert(s4[j0] == crate::canvas::spec_premul(col.0, op));
            assert(s4[j0 + 1] == crate::canvas::spec_premul(col.1, op));
            assert(s4[j0 + 2] == crate::canvas::spec_premul(col.2, op));
            assert(s4[j0 + 3] == crate::canvas::spec_alpha(op));
        } else {
            lemma_pixel_index_distinct(x, y, x0, y0, w);
            let p = (y * w + x) * 4;
            assert(0 <= p && p + 3 < w * h * 4) by (nonlinear_arith)
                requires
                    0 <= x < w && 0 <= y < h && p == (y * w + x) * 4,
            ;
            assert(p + 3 < s0.len());
            assert(y * w + x != y0 * w + x0);
            assert(s4[p] == s3[p] && s4[p + 1] == s3[p + 1] && s4[p + 2] == s3[p + 2] && s4[p + 3]
                == s3[p + 3]);
            assert(s3[p] == s2[p] && s3[p + 1] == s2[p + 1] && s3[p + 2] == s2[p + 2] && s3[p + 3]
                == s2[p + 3]);
            assert(s2[p] == s1[p] && s2[p + 1] == s1[p + 1] && s2[p + 2] == s1[p + 2] && s2[p + 3]
                == s1[p + 3]);
            assert(s1[p] == s0[p] && s1[p + 1] == s0[p + 1] && s1[p + 2] == s0[p + 2] && s1[p + 3]
                == s0[p + 3]);
            if !spec_spect_done(layout, params, w, x, y, r, x0) {
                assert(false);
            }
        }
    }
    assert forall|x: int, y: int|
        0 <= x < pre.width && 0 <= y < pre.height && !#[trigger] spec_spect_done(
            layout,
            params,
            w,
            x,
            y,
            r,
            x0 + 1,
        ) implies spec_pixel_kept(pre, after, x, y) by {
        assert(!spec_spect_done(layout, params, w, x, y, r, x0));
        assert(!(x == x0 && y == y0));
        lemma_pixel_index_distinct(x, y, x0, y0, w);
        let p = (y * w + x) * 4;
        assert(0 <= p && p + 3 < w * h * 4) by (nonlinear_arith)
            requires
                0 <= x < w && 0 <= y < h && p == (y * w + x) * 4,
        ;
        assert(p + 3 < s0.len());
        assert(y * w + x != y0 * w + x0);
        assert(s4[p] == s3[p] && s4[p + 1] == s3[p + 1] && s4[p + 2] == s3[p + 2] && s4[p + 3]
            == s3[p + 3]);
        assert(s3[p] == s2[p] && s3[p + 1] == s2[p + 1] && s3[p + 2] == s2[p + 2] && s3[p + 3]
            == s2[p + 3]);
        assert(s2[p] == s1[p] && s2[p + 1] == s1[p + 1] && s2[p + 2] == s1[p + 2] && s2[p + 3]
            == s1[p + 3]);
        assert(s1[p] == s0[p] && s1[p + 1] == s0[p + 1] && s1[p + 2] == s0[p + 2] && s1[p + 3]
            == s0[p + 3]);
    }
}

/// Finishing one spectrogram row (or skipping an empty one) is the same
/// progress as starting the next.
proof fn lemma_spect_row_done(
    pre: Canvas,
    cur: Canvas,
    layout: BarLayout,
    params: RenderParams,
    r: int,
    x_prog: int,
)
    requires
        spec_style_pre(pre, layout, params),
        spec_spect_inv(pre, cur, layout, params, r, x_prog),
        x_prog >= pre.width || spec_spect_slice(params, r).len() == 0 || r
            >= spec_spect_rows(params, layout.bars_height as int),
    ensures
        spec_spect_inv(pre, cur, layout, params, r + 1, 0),
{
    let w = pre.width as int;
    assert forall|x: int, y: int|
        0 <= x < pre.width && 0 <= y < pre.height implies #[trigger] spec_spect_done(
        layout,
        params,
        w,
        x,
        y,
        r + 1,
        0,
    ) == spec_spect_done(layout, params, w, x, y, r, x_prog) by {}
    assert forall|x: int, y: int|
        0 <= x < pre.width && 0 <= y < pre.height && #[trigger] spec_spect_done(
            layout,
            params,
            w,
            x,
            y,
            r + 1,
            0,
        ) implies spec_pixel_is(
        cur,
        x,
        y,
        spec_spect_color(layout, params, w, x, y),
        spec_spect_op(layout, params, w, x, y),
    ) by {
        assert(spec_spect_done(layout, params, w, x, y, r, x_prog));
    }
    assert forall|x: int, y: int|
        0 <= x < pre.width && 0 <= y < pre.height && !#[trigger] spec_spect_done(
            layout,
            params,
            w,
            x,
            y,
            r + 1,
            0,
        ) implies spec_pixel_kept(pre, cur, x, y) by {
        assert(!spec_spect_done(layout, params, w, x, y, r, x_prog));
    }
}

/// Style 6: spectrogram — the rolling history painted as horizontal
/// strips, newest row at the bottom of the band, magnitude driving both
/// color and opacity. The contract gives the full picture: a pixel on a
/// shown row holds exactly the re-sampled snapshot's color at the
/// magnitude-scaled opacity, and every other pixel is untouched.
fn render_bars_spectrogram(canvas: &mut Canvas, layout: &BarLayout, params: &RenderParams)
    requires
        spec_style_pre(*old(canvas), *layout, *params),
    ensures
        spec_style_post(*old(canvas), *final(canvas), *layout),
        forall|x: int, y: int|
            0 <= x < old(canvas).width && 0 <= y < old(canvas).height && #[trigger] spec_spect_covers(
                *layout,
                *params,
                old(canvas).width as int,
                x,
                y,
            ) ==> spec_pixel_is(
                *final(canvas),
                x,
                y,
                spec_spect_color(*layout, *params, old(canvas).width as int, x, y),
                spec_spect_op(*layout, *params, old(canvas).width as int, x, y),
            ),
        forall|x: int, y: int|
            0 <= x < old(canvas).width && 0 <= y < old(canvas).height
                && !#[trigger] spec_spect_covers(
                *layout,
                *params,
                old(canvas).width as int,
                x,
                y,
            ) ==> spec_pixel_kept(*old(canvas), *final(canvas), x, y),
{
    let ghost pre = *canvas;
    let ghost w = pre.width as int;
    let hist_len: usize = params.spectrogram_history.len();
    let num_rows: usize = if hist_len <= layout.bars_height {
        hist_len
    } else {
        layout.bars_height
    };
    let mut row_idx: usize = 0;
    while row_idx < num_rows
        invariant
            spec_style_pre(pre, *layout, *params),
            spec_style_post(pre, *canvas, *layout),
            pre == *old(canvas),
            w == pre.width as int,
            hist_len == params.spectrogram_history.len(),
            num_rows == spec_spect_rows(*params, layout.bars_height as int),
            num_rows <= layout.bars_height,
            num_rows <= hist_len,
            spec_spect_inv(pre, *canvas, *layout, *params, row_idx as int, 0),
            row_idx <= num_rows,
        decreases num_rows - row_idx,
    {
        let y: usize = layout.bars_y_start + layout.bars_height - 1 - row_idx;
        let slice: &Vec<u32> = &params.spectrogram_history[hist_len - 1 - row_idx];
        proof {
            assert(slice@ == spec_spect_slice(*params, row_idx as int));
            assert forall|j: int| 0 <= j < slice.len() implies #[trigger] slice@[j] <= 1000 by {
                assert(params.spectrogram_history@[hist_len - 1 - row_idx as int]@[j] <= 1000);
            }
        }
        let num_freqs: usize = slice.len();
        if num_freqs > 0 {
            let mut x: usize = 0;
            while x < canvas.width
                invariant
                    spec_style_pre(pre, *layout, *params),
                    spec_style_post(pre, *canvas, *layout),
                    pre == *old(canvas),
                    w == pre.width as int,
                    hist_len == params.spectrogram_history.len(),
                    num_rows == spec_spect_rows(*params, layout.bars_height as int),
                    row_idx < num_rows,
                    num_rows <= layout.bars_height,
                    slice@ == spec_spect_slice(*params, row_idx as int),
                    num_freqs == slice.len() >= 1,
                    forall|j: int| 0 <= j < slice.len() ==> #[trigger] slice@[j] <= 1000,
                    y == layout.bars_y_start + layout.bars_height - 1 - row_idx,
                    layout.bars_y_start <= y < layout.bars_y_start + layout.bars_height,
                    spec_spect_inv(pre, *canvas, *layout, *params, row_idx as int, x as int),
                    x <= pre.width,
                decreases pre.width - x,
            {
                let freq_idx: usize = resample_index(x, canvas.width, num_freqs);
                let magnitude: u32 = slice[freq_idx];
                let position: u32 = milli_frac(x, canvas.width);
                let (r, g, b) = params.color_scheme.get_color(position, magnitude);
                let floor_mag: u32 = if magnitude >= 50 {
                    magnitude
                } else {
                    50
                };
                let op: u32 = milli_mul(params.opacity, floor_mag);
                proof {
                    assert(spec_spect_mag(*layout, *params, w, x as int, y as int)
                        == magnitude as int);
                    assert((r, g, b) == spec_spect_color(*layout, *params, w, x as int, y as int));
                    assert(op == spec_spect_op(*layout, *params, w, x as int, y as int));
                }
                let ghost before_put = *canvas;
                put_band_pixel(
                    canvas,
                    x,
                    y,
                    (r, g, b),
                    op,
                    layout.bars_y_start,
                    layout.bars_height,
                    Ghost(pre),
                );
                proof {
                    lemma_spect_put_step(
                        pre,
                        before_put,
                        *canvas,
                        *layout,
                        *params,
                        row_idx as int,
                        x as int,
                        y as int,
                        (r, g, b),
                        op,
                    );
                }
                x += 1;
            }
            proof {
                lemma_spect_row_done(
                    pre,
                    *canvas,
                    *layout,
                    *params,
                    row_idx as int,
                    pre.width as int,
                );
            }
        } else {
            proof {
                lemma_spect_row_done(pre, *canvas, *layout, *params, row_idx as int, 0);
            }
        }
        row_idx += 1;
    }
    proof {
        assert forall|x: int, y: int|
            0 <= x < pre.width && 0 <= y < pre.height && #[trigger] spec_spect_covers(
                *layout,
                *params,
                w,
                x,
                y,
            ) implies spec_spect_done(*layout, *params, w, x, y, num_rows as int, 0) by {}
        assert forall|x: int, y: int|
            0 <= x < pre.width && 0 <= y < pre.height && !#[trigger] spec_spect_covers(
                *layout,
                *params,
                w,
                x,
                y,
            ) implies spec_pixel_kept(pre, *canvas, x, y) by {
            assert(!spec_spect_done(*layout, *params, w, x, y, num_rows as int, 0));
        }
    }
}

/// Style 7: radial — magnitudes mapped to angles clockwise from 12
/// o'clock, drawn as spokes from a faint base circle outward.
fn render_bars_radial(canvas: &mut Canvas, layout: &BarLayout, params: &RenderParams)
    requires
        spec_style_pre(*old(canvas), *layout, *params),
    ensures
        spec_style_post(*old(canvas), *final(canvas), *layout),
{
    let ghost pre = *canvas;
    let cx: usize = canvas.width / 2;
    let cy: usize = layout.bars_y_start + layout.bars_height / 2;
    let band_end: usize = layout.bars_y_start + layout.bars_height;
    let half_dim: usize = {
        let m = if canvas.width <= layout.bars_height {
            canvas.width
        } else {
            layout.bars_height
        };
        m / 2
    };
    proof {
        lemma_slot_extent(0, layout.displayable as int, layout.slot_width as int);
        assert(pre.width * 4 <= pre.width * pre.height * 4) by (nonlinear_arith)
            requires
                pre.height >= 1 && pre.width >= 0,
        ;
    }
    let base_radius: usize = scale_dim(350, half_dim);
    let max_radius: usize = scale_dim(950, half_dim);
    proof {
        assert(350 * (half_dim as int) <= 950 * (half_dim as int)) by (nonlinear_arith)
            requires
                half_dim >= 0,
        ;
        vstd::arithmetic::div_mod::lemma_div_is_ordered(
            350 * (half_dim as int),
            950 * (half_dim as int),
            1000,
        );
    }
    let thickness: usize = {
        let v = params.bar_width / 3;
        if v >= 2 {
            v
        } else {
            2
        }
    };
    // Faint base circle.
    let circle_steps: usize = {
        proof {
            assert((base_radius as int) * 6283 / 1000 + 1 <= usize::MAX && 0 <= (
            base_radius as int) * 6283) by (nonlinear_arith)
                requires
                    0 <= base_radius && 8 * base_radius <= usize::MAX,
            ;
        }
        ((base_radius as u128) * 6283 / 1000 + 1) as usize
    };
    let op_circle: u32 = params.opacity / 2;
    let mut step: usize = 0;
    while step < circle_steps
        invariant
            spec_style_pre(pre, *layout, *params),
            spec_style_post(pre, *canvas, *layout),
            pre == *old(canvas),
            cx == pre.width / 2,
            cy == layout.bars_y_start + layout.bars_height / 2,
            band_end == layout.bars_y_start + layout.bars_height,
            base_radius <= half_dim,
            half_dim <= pre.width / 2,
            half_dim <= layout.bars_height / 2,
            circle_steps >= 1,
            op_circle <= 1000,
            step <= circle_steps,
        decreases circle_steps - step,
    {
        proof {
            assert((step as int) * 360 <= u128::MAX && (step as int) * 360 / (circle_steps as int)
                >= 0) by (nonlinear_arith)
                requires
                    0 <= step <= usize::MAX && circle_steps >= 1,
            ;
        }
        let angle_deg: u32 = (((step as u128) * 360 / (circle_steps as u128)) % 360) as u32;
        let cos_v: i32 = crate::trig::cos_deg(angle_deg);
        let sin_v: i32 = crate::trig::sin_deg(angle_deg);
        let off_x: usize = scale_dim(if cos_v >= 0 { cos_v as u32 } else { (-cos_v) as u32 }, base_radius);
        let off_y: usize = scale_dim(if sin_v >= 0 { sin_v as u32 } else { (-sin_v) as u32 }, base_radius);
        let px: i128 = if cos_v >= 0 {
            cx as i128 + off_x as i128
        } else {
            cx as i128 - off_x as i128
        };
        let py: i128 = if sin_v >= 0 {
            cy as i128 + off_y as i128
        } else {
            cy as i128 - off_y as i128
        };
        let position: u32 = ((angle_deg + 90) % 360) * 1000 / 360;
        let (r, g, b) = params.color_scheme.get_color(position, 300);
        let mut t: usize = 0;
        while t < thickness
            invariant
                spec_style_pre(pre, *layout, *params),
                spec_style_post(pre, *canvas, *layout),
                pre == *old(canvas),
                band_end == layout.bars_y_start + layout.bars_height,
                -(pre.width as i128) <= px <= 2 * pre.width as i128,
                op_circle <= 1000,
                t <= thickness,
            decreases thickness - t,
        {
            let tx: i128 = px + t as i128;
            if 0 <= tx && tx < canvas.width as i128 && layout.bars_y_start as i128 <= py && py
                < band_end as i128 {
                put_band_pixel(
                    canvas,
                    tx as usize,
                    py as usize,
                    (r, g, b),
                    op_circle,
                    layout.bars_y_start,
                    layout.bars_height,
                    Ghost(pre),
                );
            }
            t += 1;
        }
        step += 1;
    }
    // Radial spokes, one per drawn bar.
    let bar_count: usize = layout.displayable;
    let mut i: usize = 0;
    while i < bar_count
        invariant
            spec_style_pre(pre, *layout, *params),
            spec_style_post(pre, *canvas, *layout),
            pre == *old(canvas),
            bar_count == layout.displayable,
            cx == pre.width / 2,
            cy == layout.bars_y_start + layout.bars_height / 2,
            band_end == layout.bars_y_start + layout.bars_height,
            base_radius <= max_radius,
            max_radius <= half_dim,
            half_dim <= pre.width / 2,
            half_dim <= layout.bars_height / 2,
            i <= bar_count,
        decreases bar_count - i,
    {
        let magnitude: u32 = layout.render_frequencies[i];
        if magnitude >= 10 {
            let angle_deg: u32 = {
                proof {
                    assert(0 <= (i as int) * 360 <= u128::MAX && (i as int) * 360 / (
                    bar_count as int) <= 360) by (nonlinear_arith)
                        requires
                            0 <= i < bar_count && bar_count <= usize::MAX,
                    ;
                }
                ((270 + (i as u128) * 360 / (bar_count as u128)) % 360) as u32
            };
            let bar_length: usize = scale_dim(magnitude, max_radius - base_radius);
            let steps: usize = if bar_length >= 1 {
                bar_length
            } else {
                1
            };
            let position: u32 = milli_frac(i, bar_count);
            let cos_a: i32 = crate::trig::cos_deg(angle_deg);
            let sin_a: i32 = crate::trig::sin_deg(angle_deg);
            let cos_mag: u32 = if cos_a >= 0 {
                cos_a as u32
            } else {
                (-cos_a) as u32
            };
            let sin_mag: u32 = if sin_a >= 0 {
                sin_a as u32
            } else {
                (-sin_a) as u32
            };
            let half_th: usize = thickness / 2;
            let t_side: usize = 2 * half_th + 1;
            let mut s: usize = 0;
            while s <= steps
                invariant
                    spec_style_pre(pre, *layout, *params),
                    spec_style_post(pre, *canvas, *layout),
                    pre == *old(canvas),
                    cx == pre.width / 2,
                    cy == layout.bars_y_start + layout.bars_height / 2,
                    band_end == layout.bars_y_start + layout.bars_height,
                    base_radius <= max_radius,
                    max_radius <= half_dim,
                    half_dim <= pre.width / 2,
                    half_dim <= layout.bars_height / 2,
                    bar_length <= max_radius - base_radius,
                    1 <= steps <= bar_length + 1,
                    position <= 1000,
                    magnitude <= 1000,
                    cos_mag <= 1000,
                    sin_mag <= 1000,
                    t_side == 2 * half_th + 1,
                    s <= steps + 1,
                decreases steps + 1 - s,
            {
                proof {
                    assert(0 <= (s as int) * (bar_length as int) && (s as int) * (
                    bar_length as int) <= (steps as int) * (bar_length as int) && (s as int) * (
                    bar_length as int) / (steps as int) <= bar_length && (steps as int) * (
                    bar_length as int) <= u128::MAX) by (nonlinear_arith)
                        requires
                            0 <= s <= steps && 1 <= steps && 0 <= bar_length && steps <= u64::MAX
                                && bar_length <= u64::MAX,
                    ;
                }
                let r_dist: usize = base_radius + (((s as u128) * (bar_length as u128)) / (
                steps as u128)) as usize;
                let intensity: u32 = if max_radius > base_radius {
                    milli_frac(r_dist - base_radius, max_radius - base_radius)
                } else {
                    0
                };
                let mix: u32 = magnitude / 2 + intensity / 2;
                let (r, g, b) = params.color_scheme.get_color(position, mix);
                let off_rx: usize = scale_dim(cos_mag, r_dist);
                let off_ry: usize = scale_dim(sin_mag, r_dist);
                let px: i128 = if cos_a >= 0 {
                    cx as i128 + off_rx as i128
                } else {
                    cx as i128 - off_rx as i128
                };
                let py: i128 = if sin_a >= 0 {
                    cy as i128 + off_ry as i128
                } else {
                    cy as i128 - off_ry as i128
                };
                let mut tk: usize = 0;
                while tk < t_side
                    invariant
                        spec_style_pre(pre, *layout, *params),
                        spec_style_post(pre, *canvas, *layout),
                        pre == *old(canvas),
                        band_end == layout.bars_y_start + layout.bars_height,
                        t_side == 2 * half_th + 1,
                        cos_mag <= 1000,
                        sin_mag <= 1000,
                        -(2 * pre.width as i128) <= px <= 2 * pre.width as i128,
                        -(2 * pre.height as i128) <= py <= 2 * pre.height as i128,
                        tk <= t_side,
                    decreases t_side - tk,
                {
                    let t_mag: usize = if tk >= half_th {
                        tk - half_th
                    } else {
                        half_th - tk
                    };
                    let t_nonneg: bool = tk >= half_th;
                    let off_tx: usize = scale_dim(sin_mag, t_mag);
                    let off_ty: usize = scale_dim(cos_mag, t_mag);
                    // The spoke is thickened perpendicular to its direction:
                    // the x offset runs against the sine, the y offset with
                    // the cosine.
                    let tx: i128 = if (sin_a >= 0) == t_nonneg {
                        px - off_tx as i128
                    } else {
                        px + off_tx as i128
                    };
                    let ty: i128 = if (cos_a >= 0) == t_nonneg {
                        py + off_ty as i128
                    } else {
                        py - off_ty as i128
                    };
                    if 0 <= tx && tx < canvas.width as i128 && layout.bars_y_start as i128 <= ty
                        && ty < band_end as i128 {
                        put_band_pixel(
                            canvas,
                            tx as usize,
                            ty as usize,
                            (r, g, b),
                            params.opacity,
                            layout.bars_y_start,
                            layout.bars_height,
                            Ghost(pre),
                        );
                    }
                    tk += 1;
                }
                s += 1;
            }
        }
        i += 1;
    }
}

} // verus!
