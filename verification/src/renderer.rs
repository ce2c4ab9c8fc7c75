//! Frame data and render parameters, and the per-frame entry point.
//!
//! A frame is rendered by clearing the canvas, drawing the selected bar
//! style, and overlaying the track text. Magnitudes, intensities and
//! opacities are milli units; waveform samples are milli units in
//! -1000..=1000; time is milliseconds.

use vstd::prelude::*;

use crate::canvas::Canvas;
use crate::color::ColorScheme;
use crate::config::TextConfig;
use crate::layout;
use crate::styles;
use crate::text;

verus! {

/// Per-frame data handed to the renderer.
pub struct FrameData {
    /// Milli-unit magnitudes, one per bar.
    pub frequencies: Vec<u32>,
    /// Overall intensity in milli units.
    pub intensity: u32,
    pub track_title: Option<String>,
    pub track_artist: Option<String>,
    /// Elapsed time in milliseconds.
    pub time_ms: u32,
}

impl FrameData {
    /// All magnitudes and the intensity are within the milli-unit range.
    pub open spec fn wf(&self) -> bool {
        &&& forall|i: int| 0 <= i < self.frequencies.len() ==> #[trigger] self.frequencies@[i]
            <= 1000
        &&& self.intensity <= 1000
    }
}

/// Parameters controlling how a frame is rendered.
pub struct RenderParams {
    /// Style selector, 0..=7.
    pub style: usize,
    pub bar_width: usize,
    pub bar_spacing: usize,
    pub mirror: bool,
    pub reverse_mirror: bool,
    /// Opacity in milli units.
    pub opacity: u32,
    pub color_scheme: ColorScheme,
    /// Raw samples in milli units, -1000..=1000, for the oscilloscope style.
    pub waveform: Vec<i32>,
    /// Past frequency snapshots, oldest first, for the spectrogram style.
    pub spectrogram_history: Vec<Vec<u32>>,
    pub text_config: TextConfig,
}

impl RenderParams {
    /// Geometry fits the machine, and every normalized quantity is within
    /// its milli-unit range.
    pub open spec fn wf(&self) -> bool {
        &&& self.bar_width + self.bar_spacing <= usize::MAX
        &&& self.opacity <= 1000
        &&& forall|i: int|
            0 <= i < self.waveform.len() ==> -1000 <= #[trigger] self.waveform@[i] <= 1000
        &&& forall|i: int, j: int|
            0 <= i < self.spectrogram_history.len() && 0 <= j
                < self.spectrogram_history@[i].len() ==> #[trigger] self.spectrogram_history@[i]@[j]
                <= 1000
    }
}

/// Render a complete frame: clear the canvas, draw the selected bar style,
/// then overlay the track text. The canvas is cleared first, so nothing of
/// the previous frame survives outside what this call draws. With no text
/// shown the result is pinned: degenerate geometry leaves the whole frame
/// transparent black, and otherwise the frame holds exactly what the
/// selected style paints over transparent black (fully, for the six
/// styles whose renderers carry per-pixel contracts); every pixel outside
/// the bar band is transparent black in either case, whatever the canvas
/// held before.
pub fn render_frame(canvas: &mut Canvas, frame: &FrameData, params: &RenderParams)
    requires
        old(canvas).inv(),
        frame.wf(),
        params.wf(),
    ensures
        final(canvas).inv(),
        final(canvas).width == old(canvas).width,
        final(canvas).height == old(canvas).height,
        final(canvas).data.len() == old(canvas).data.len(),
        !params.text_config.show_title && !params.text_config.show_artist ==> ({
            let band = layout::spec_bars_band(params.text_config, old(canvas).height as int);
            let w = old(canvas).width as int;
            forall|j: int|
                0 <= j < old(canvas).width * old(canvas).height * 4 && !(band.0 * w * 4 <= j < (
                band.0 + band.1) * w * 4) ==> #[trigger] final(canvas).data@[j] == 0
        }),
        !params.text_config.show_title && !params.text_config.show_artist
            && !styles::spec_layout_exists(
            old(canvas).width as int,
            old(canvas).height as int,
            frame.frequencies@,
            *params,
        ) ==> forall|j: int|
            0 <= j < old(canvas).width * old(canvas).height * 4
                ==> #[trigger] final(canvas).data@[j] == 0,
        !params.text_config.show_title && !params.text_config.show_artist
            && styles::spec_layout_exists(
            old(canvas).width as int,
            old(canvas).height as int,
            frame.frequencies@,
            *params,
        ) ==> exists|l: crate::layout::BarLayout|
            #[trigger] styles::spec_layout_matches(
                l,
                old(canvas).width as int,
                old(canvas).height as int,
                frame.frequencies@,
                *params,
            ) && styles::spec_frame_content(*final(canvas), l, *params),
{
    canvas.clear();
    let ghost cleared = *canvas;
    styles::render_bars(canvas, &frame.frequencies, params);
    let ghost after_bars = *canvas;
    text::render_text(canvas, frame, params);
    proof {
        if !params.text_config.show_title && !params.text_config.show_artist {
            let band = layout::spec_bars_band(params.text_config, old(canvas).height as int);
            let w = old(canvas).width as int;
            let h = old(canvas).height as int;
            assert(canvas.data@ == after_bars.data@);
            assert forall|j: int|
                0 <= j < old(canvas).width * old(canvas).height * 4 && !(band.0 * w * 4 <= j < (
                band.0 + band.1) * w * 4) implies #[trigger] final(canvas).data@[j] == 0 by {
                assert(after_bars.data@[j] == cleared.data@[j]);
                assert(cleared.data@[j] == 0);
            }
            if !styles::spec_layout_exists(w, h, frame.frequencies@, *params) {
                assert(after_bars.data@ == cleared.data@);
                assert forall|j: int|
                    0 <= j < old(canvas).width * old(canvas).height * 4
                        implies #[trigger] final(canvas).data@[j] == 0 by {
                    assert(cleared.data@[j] == 0);
                }
            } else {
                let l = choose|l: crate::layout::BarLayout|
                    #[trigger] styles::spec_layout_matches(l, w, h, frame.frequencies@, *params)
                        && styles::spec_style_result(cleared, after_bars, l, *params);
                styles::lemma_result_on_clear(cleared, after_bars, l, *params);
                assert(styles::spec_frame_content(*final(canvas), l, *params));
            }
        }
    }
}

} // verus!
