//! Bar layout computation shared by all styles.
//!
//! Pure geometry: which vertical band the bars occupy, how many bars fit,
//! where they start, and which (possibly re-ordered) magnitude each drawn
//! bar shows.

use vstd::prelude::*;

use crate::config::{TextConfig, TextPosition};
use crate::renderer::RenderParams;

verus! {

/// Pre-computed bar layout used by every style renderer.
pub struct BarLayout {
    /// First row of the band the bars may draw into.
    pub bars_y_start: usize,
    /// Height of that band.
    pub bars_height: usize,
    /// Leftmost column of the first bar slot.
    pub start_x: usize,
    /// Width of one bar slot (bar plus spacing).
    pub slot_width: usize,
    /// How many bars actually fit.
    pub displayable: usize,
    /// One milli-unit magnitude per drawn bar, re-ordered per the mirror
    /// flags.
    pub render_frequencies: Vec<u32>,
}

/// Height of the vertical band reserved for text: zero when no text is
/// shown, else a fixed 60 rows plus the configured vertical margins.
pub open spec fn spec_text_band_height(tc: TextConfig) -> int {
    if tc.show_title || tc.show_artist {
        60 + tc.margin_top + tc.margin_bottom
    } else {
        0
    }
}

/// The band the bars occupy: text at the top pushes the bars down, text at
/// the bottom shortens them, and centered or coordinate text overlays the
/// bars without reserving a band.
pub open spec fn spec_bars_band(tc: TextConfig, height: int) -> (int, int) {
    let th = spec_text_band_height(tc);
    match tc.position {
        TextPosition::Top => (th, if height >= th {
            height - th
        } else {
            0
        }),
        TextPosition::Bottom => (0, if height >= th {
            height - th
        } else {
            0
        }),
        TextPosition::Center => (0, height),
        TextPosition::Coordinates { .. } => (0, height),
    }
}

/// Largest index not above `n - 1`.
pub open spec fn spec_cap_index(idx: int, n: int) -> int {
    if idx < n - 1 {
        idx
    } else {
        n - 1
    }
}

/// Which source magnitude (out of `n`) the drawn bar `i` (out of
/// `displayable`) shows, for the four mirror settings.
///
/// Without mirroring the bars re-sample the sources left to right (or right
/// to left when reversed). With mirroring, the left half re-samples them so
/// the first source sits at the left edge, and the right half so the first
/// source sits at the right edge; with `reverse` as well, both runs flip,
/// so the first source meets in the middle instead.
pub open spec fn spec_source_index(
    i: int,
    displayable: int,
    n: int,
    mirror: bool,
    reverse: bool,
) -> int {
    let half = displayable / 2;
    let rest = displayable - half;
    if mirror {
        if reverse {
            if i < half {
                spec_cap_index((half - 1 - i) * n / (if half >= 1 {
                    half
                } else {
                    1
                }), n)
            } else {
                spec_cap_index((i - half) * n / (if rest >= 1 {
                    rest
                } else {
                    1
                }), n)
            }
        } else {
            if i < half {
                spec_cap_index(i * n / (if half >= 1 {
                    half
                } else {
                    1
                }), n)
            } else {
                spec_cap_index((rest - 1 - (i - half)) * n / (if rest >= 1 {
                    rest
                } else {
                    1
                }), n)
            }
        }
    } else {
        if reverse {
            spec_cap_index((displayable - 1 - i) * n / (if displayable >= 1 {
                displayable
            } else {
                1
            }), n)
        } else {
            spec_cap_index(i * n / (if displayable >= 1 {
                displayable
            } else {
                1
            }), n)
        }
    }
}

/// Under `(mirror, not reverse)` the outermost drawn bars on both edges
/// show the same source magnitude, and it is the first (lowest-frequency)
/// one: the re-ordering puts the bass on both outer edges.
pub proof fn lemma_mirror_outer_edges(displayable: int, n: int)
    requires
        1 <= displayable,
        1 <= n,
    ensures
        spec_source_index(0, displayable, n, true, false) == spec_source_index(
            displayable - 1,
            displayable,
            n,
            true,
            false,
        ),
        spec_source_index(0, displayable, n, true, false) == 0,
{
    let half = displayable / 2;
    let rest = displayable - half;
    assert(rest >= 1);
    if half >= 1 {
        assert(0 * n / half == 0) by (nonlinear_arith)
            requires
                half >= 1 && n >= 1,
        ;
    } else {
        assert((rest - 1 - (0 - half)) * n == (displayable - 1) * n);
        assert(displayable == 1);
        assert((rest - 1) * n / rest == 0);
    }
    assert((rest - 1 - (displayable - 1 - half)) * n / rest == 0 * n / rest);
    assert(0 * n / rest == 0) by (nonlinear_arith)
        requires
            rest >= 1,
    ;
}

/// Re-sampling one drawn bar from the sources: the quotient stays below `n`
/// when the numerator's factor stays below the divisor.
proof fn lemma_resample_bound(a: int, n: int, d: int)
    by (nonlinear_arith)
    requires
        0 <= a < d,
        0 <= n,
    ensures
        0 <= a * n,
        a * n / d <= n,
        a * n <= d * n,
{
}

/// Index arithmetic for one drawn bar, widened so no product can overflow.
fn source_index(i: usize, displayable: usize, n: usize, mirror: bool, reverse: bool) -> (r: usize)
    requires
        i < displayable,
        1 <= n,
    ensures
        r == spec_source_index(i as int, displayable as int, n as int, mirror, reverse),
        r < n,
{
    let half: usize = displayable / 2;
    let rest: usize = displayable - half;
    let (num, den): (usize, usize) = if mirror {
        if reverse {
            if i < half {
                (half - 1 - i, half)
            } else {
                (i - half, rest)
            }
        } else {
            if i < half {
                (i, half)
            } else {
                (rest - 1 - (i - half), rest)
            }
        }
    } else {
        if reverse {
            (displayable - 1 - i, displayable)
        } else {
            (i, displayable)
        }
    };
    proof {
        lemma_resample_bound(num as int, n as int, den as int);
        assert((num as int) * (n as int) <= u128::MAX) by (nonlinear_arith)
            requires
                0 <= num <= usize::MAX && 0 <= n <= usize::MAX,
        ;
    }
    let wide: u128 = (num as u128) * (n as u128) / (den as u128);
    if wide < (n - 1) as u128 {
        wide as usize
    } else {
        n - 1
    }
}

impl BarLayout {
    /// What every style renderer relies on: the band fits the canvas, every
    /// drawn bar fits the width, and there is a milli-unit magnitude for
    /// each drawn bar.
    pub open spec fn wf(&self, width: int, height: int) -> bool {
        &&& self.bars_y_start + self.bars_height <= height
        &&& 1 <= self.bars_height
        &&& 1 <= self.slot_width
        &&& 1 <= self.displayable
        &&& self.start_x + self.displayable * self.slot_width <= width
        &&& self.render_frequencies.len() == self.displayable
        &&& forall|i: int|
            0 <= i < self.displayable ==> #[trigger] self.render_frequencies@[i] <= 1000
    }
}

/// Compute the bar layout for a canvas of `width` by `height`: `None` when
/// there are no magnitudes, no vertical room, the slot width is zero, or no
/// bar fits; otherwise the band, the centered horizontal extent, and the
/// re-ordered magnitudes, one per drawn bar.
pub fn compute_bar_layout(
    width: usize,
    height: usize,
    frequencies: &Vec<u32>,
    params: &RenderParams,
) -> (r: Option<BarLayout>)
    requires
        params.wf(),
        forall|i: int| 0 <= i < frequencies.len() ==> #[trigger] frequencies@[i] <= 1000,
        width * height * 4 <= usize::MAX,
    ensures
        ({
            let n = frequencies.len() as int;
            let bar_count = if n <= width {
                n
            } else {
                width as int
            };
            let band = spec_bars_band(params.text_config, height as int);
            let slot = (params.bar_width + params.bar_spacing) as int;
            let slot1 = if slot >= 1 {
                slot
            } else {
                1
            };
            let displayable = if width as int / slot1 <= bar_count {
                width as int / slot1
            } else {
                bar_count
            };
            if n == 0 || band.1 == 0 || slot == 0 || displayable == 0 {
                r is None
            } else {
                r matches Some(l) && {
                    &&& l.bars_y_start == band.0
                    &&& l.bars_height == band.1
                    &&& l.slot_width == slot
                    &&& l.displayable == displayable
                    &&& l.start_x == (if width >= displayable * slot {
                        (width - displayable * slot) / 2
                    } else {
                        0
                    })
                    &&& l.render_frequencies.len() == displayable
                    &&& forall|i: int|
                        0 <= i < displayable ==> #[trigger] l.render_frequencies@[i]
                            == frequencies@[spec_source_index(
                            i,
                            displayable,
                            n,
                            params.mirror,
                            params.reverse_mirror,
                        )]
                    &&& l.wf(width as int, height as int)
                }
            }
        }),
{
    if frequencies.len() == 0 {
        return None;
    }
    let n: usize = frequencies.len();
    let bar_count: usize = if n <= width {
        n
    } else {
        width
    };
    let text_height: usize = if params.text_config.show_title || params.text_config.show_artist {
        60 + params.text_config.margin_top as usize + params.text_config.margin_bottom as usize
    } else {
        0
    };
    let (bars_y_start, bars_height): (usize, usize) = match params.text_config.position {
        TextPosition::Top => (
            text_height,
            if height >= text_height {
                height - text_height
            } else {
                0
            },
        ),
        TextPosition::Bottom => (
            0,
            if height >= text_height {
                height - text_height
            } else {
                0
            },
        ),
        TextPosition::Center => (0, height),
        TextPosition::Coordinates { .. } => (0, height),
    };
    if bars_height == 0 {
        return None;
    }
    let slot_width: usize = params.bar_width + params.bar_spacing;
    if slot_width == 0 {
        return None;
    }
    let max_bars: usize = width / slot_width;
    let displayable: usize = if max_bars <= bar_count {
        max_bars
    } else {
        bar_count
    };
    if displayable == 0 {
        return None;
    }
    proof {
        assert(displayable * slot_width <= width) by (nonlinear_arith)
            requires
                displayable <= width as int / slot_width as int && slot_width >= 1 && width >= 0
                    && displayable >= 0,
        ;
    }
    let total_width: usize = displayable * slot_width;
    let start_x: usize = (width - total_width) / 2;
    let mut render_frequencies: Vec<u32> = Vec::new();
    let mut i: usize = 0;
    while i < displayable
        invariant
            i <= displayable,
            1 <= displayable <= n,
            1 <= n == frequencies.len(),
            forall|k: int| 0 <= k < frequencies.len() ==> #[trigger] frequencies@[k] <= 1000,
            render_frequencies.len() == i,
            forall|k: int|
                0 <= k < i ==> #[trigger] render_frequencies@[k] == frequencies@[spec_source_index(
                    k,
                    displayable as int,
                    n as int,
                    params.mirror,
                    params.reverse_mirror,
                )],
        decreases displayable - i,
    {
        let idx = source_index(i, displayable, n, params.mirror, params.reverse_mirror);
        render_frequencies.push(frequencies[idx]);
        i += 1;
    }
    Some(
        BarLayout {
            bars_y_start,
            bars_height,
            start_x,
            slot_width,
            displayable,
            render_frequencies,
        },
    )
}

} // verus!
