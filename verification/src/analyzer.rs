//! Spectral analyzer: frequency-domain magnitudes in, smoothed bar values
//! out.
//!
//! The caller hands in the magnitudes of the lower half of a 2048-point
//! spectrum (one value per bin, in milli units). The analyzer groups bins
//! into perceptual bars along a geometric (log-frequency) axis, scales and
//! clamps them, mirrors them so the bass sits on both outer edges, and
//! smooths them exponentially against the previous frame.

use vstd::prelude::*;

verus! {

/// The transform size the analyzer is built around; it expects the lower
/// half of the spectrum, `FFT_SIZE / 2` bins.
pub const FFT_SIZE: usize = 2048;

/// Fixed-point scale of the per-bar geometric ratio.
pub const RATIO_ONE: u64 = 65536;

/// Largest admitted bin magnitude (milli units), so sums cannot overflow.
pub const MAX_BIN_MAGNITUDE: u64 = 1000000000;

/// Largest admitted sensitivity (milli units; 100 times normal).
pub const MAX_SENSITIVITY: u32 = 100000;

/// Largest admitted bar count, so milli-unit sums over the bars cannot
/// overflow.
pub const MAX_BARS: usize = 16777216;

/// One frame of analysis output. All values are milli units in 0..=1000;
/// waveform samples are milli units in -1000..=1000.
#[derive(Debug, Clone)]
pub struct AudioData {
    /// One smoothed magnitude per configured bar.
    pub frequencies: Vec<u32>,
    /// Mean of all bars.
    pub intensity: u32,
    /// Mean of the lowest third of the bars.
    pub bass: u32,
    /// Raw samples for the oscilloscope style; the capture side fills it.
    pub waveform: Vec<i32>,
}

impl Default for AudioData {
    /// Silence: 64 zero bars, no intensity, no waveform.
    fn default() -> (r: AudioData)
        ensures
            r.frequencies.len() == 64,
            forall|i: int| 0 <= i < 64 ==> #[trigger] r.frequencies@[i] == 0,
            r.intensity == 0,
            r.bass == 0,
            r.waveform.len() == 0,
    {
        AudioData { frequencies: vec![0u32; 64], intensity: 0, bass: 0, waveform: Vec::new() }
    }
}

/// The `i`-th geometric frequency boundary: it starts at `min_f` and grows
/// by the fixed-point factor `ratio` per bar, capped at `max_f`.
pub open spec fn spec_boundary(i: nat, ratio: int, min_f: int, max_f: int) -> int
    decreases i,
{
    if i == 0 {
        min_f
    } else {
        let prev = spec_boundary((i - 1) as nat, ratio, min_f, max_f);
        let next = prev * ratio / (RATIO_ONE as int);
        if next <= max_f {
            next
        } else {
            max_f
        }
    }
}

/// Boundaries stay within `[min_f, max_f]` and never decrease from one bar
/// to the next.
pub proof fn lemma_boundary_monotonic(i: nat, ratio: int, min_f: int, max_f: int)
    requires
        ratio >= RATIO_ONE,
        0 <= min_f <= max_f,
    ensures
        min_f <= spec_boundary(i, ratio, min_f, max_f) <= max_f,
        spec_boundary(i, ratio, min_f, max_f) <= spec_boundary(i + 1, ratio, min_f, max_f),
    decreases i,
{
    if i == 0 {
        let next = min_f * ratio / (RATIO_ONE as int);
        assert(min_f * (RATIO_ONE as int) <= min_f * ratio) by (nonlinear_arith)
            requires
                0 <= min_f && RATIO_ONE <= ratio,
        ;
        vstd::arithmetic::div_mod::lemma_div_is_ordered(
            min_f * (RATIO_ONE as int),
            min_f * ratio,
            RATIO_ONE as int,
        );
        assert(min_f * (RATIO_ONE as int) / (RATIO_ONE as int) == min_f)
            by (nonlinear_arith)
            requires
                RATIO_ONE >= 1,
        ;
    } else {
        lemma_boundary_monotonic((i - 1) as nat, ratio, min_f, max_f);
        let b = spec_boundary(i, ratio, min_f, max_f);
        assert(b * (RATIO_ONE as int) <= b * ratio) by (nonlinear_arith)
            requires
                0 <= b && RATIO_ONE <= ratio,
        ;
        vstd::arithmetic::div_mod::lemma_div_is_ordered(
            b * (RATIO_ONE as int),
            b * ratio,
            RATIO_ONE as int,
        );
        assert(b * (RATIO_ONE as int) / (RATIO_ONE as int) == b) by (nonlinear_arith)
            requires
                RATIO_ONE >= 1,
        ;
    }
}

/// The first spectrum bin of bar `i`: its lower frequency boundary mapped
/// to a bin index, kept below the usable half of the spectrum.
pub open spec fn spec_bin_start(
    i: nat,
    ratio: int,
    min_f: int,
    max_f: int,
    sample_rate: int,
) -> int {
    let useful = FFT_SIZE as int / 2;
    let raw = spec_boundary(i, ratio, min_f, max_f) * (FFT_SIZE as int) / sample_rate;
    if raw <= useful - 1 {
        raw
    } else {
        useful - 1
    }
}

/// One past the last spectrum bin of bar `i`: its upper boundary mapped to
/// a bin index (rounded up), kept within the usable half and always at
/// least one bin past the start.
pub open spec fn spec_bin_end(i: nat, ratio: int, min_f: int, max_f: int, sample_rate: int) -> int {
    let useful = FFT_SIZE as int / 2;
    let raw = (spec_boundary(i + 1, ratio, min_f, max_f) * (FFT_SIZE as int) + sample_rate - 1)
        / sample_rate;
    let capped = if raw <= useful {
        raw
    } else {
        useful
    };
    let lo = spec_bin_start(i, ratio, min_f, max_f, sample_rate) + 1;
    if capped >= lo {
        capped
    } else {
        lo
    }
}

/// The log-frequency bin mapping is monotonic: both ends of bar `i`'s bin
/// range never decrease as `i` grows, and every bar covers at least one
/// bin.
pub proof fn lemma_bin_mapping_monotonic(
    i: nat,
    ratio: int,
    min_f: int,
    max_f: int,
    sample_rate: int,
)
    requires
        ratio >= RATIO_ONE,
        0 <= min_f <= max_f,
        1 <= sample_rate,
    ensures
        spec_bin_start(i, ratio, min_f, max_f, sample_rate) <= spec_bin_start(
            i + 1,
            ratio,
            min_f,
            max_f,
            sample_rate,
        ),
        spec_bin_end(i, ratio, min_f, max_f, sample_rate) <= spec_bin_end(
            i + 1,
            ratio,
            min_f,
            max_f,
            sample_rate,
        ),
        spec_bin_start(i, ratio, min_f, max_f, sample_rate) < spec_bin_end(
            i,
            ratio,
            min_f,
            max_f,
            sample_rate,
        ),
{
    lemma_boundary_monotonic(i, ratio, min_f, max_f);
    lemma_boundary_monotonic(i + 1, ratio, min_f, max_f);
    lemma_boundary_monotonic(i + 2, ratio, min_f, max_f);
    let b_i = spec_boundary(i, ratio, min_f, max_f);
    let b_i1 = spec_boundary(i + 1, ratio, min_f, max_f);
    let b_i2 = spec_boundary(i + 2, ratio, min_f, max_f);
    assert(b_i * (FFT_SIZE as int) <= b_i1 * (FFT_SIZE as int)) by (nonlinear_arith)
        requires
            b_i <= b_i1,
    ;
    assert(b_i1 * (FFT_SIZE as int) <= b_i2 * (FFT_SIZE as int)) by (nonlinear_arith)
        requires
            b_i1 <= b_i2,
    ;
    vstd::arithmetic::div_mod::lemma_div_is_ordered(
        b_i * (FFT_SIZE as int),
        b_i1 * (FFT_SIZE as int),
        sample_rate,
    );
    vstd::arithmetic::div_mod::lemma_div_is_ordered(
        b_i1 * (FFT_SIZE as int) + sample_rate - 1,
        b_i2 * (FFT_SIZE as int) + sample_rate - 1,
        sample_rate,
    );
}

/// Sum of the bin magnitudes in `[s, e)`.
pub open spec fn spec_sum_range(bins: Seq<u64>, s: int, e: int) -> int
    decreases e - s,
{
    if s >= e {
        0
    } else {
        spec_sum_range(bins, s, e - 1) + (if 0 <= e - 1 < bins.len() {
            bins[e - 1] as int
        } else {
            0
        })
    }
}

proof fn lemma_sum_range_bound(bins: Seq<u64>, s: int, e: int, cap: int)
    requires
        forall|k: int| 0 <= k < bins.len() ==> #[trigger] bins[k] <= cap,
        0 <= cap,
        s <= e,
    ensures
        0 <= spec_sum_range(bins, s, e) <= (e - s) * cap,
    decreases e - s,
{
    if s >= e {
    } else {
        lemma_sum_range_bound(bins, s, e - 1, cap);
        assert((e - 1 - s) * cap + cap == (e - s) * cap) by (nonlinear_arith);
    }
}

/// The raw (pre-smoothing) value of half-bar `i`: the mean magnitude over
/// its bin range, scaled by the sensitivity, clamped to 1000.
pub open spec fn spec_half_bar(
    bins: Seq<u64>,
    i: nat,
    ratio: int,
    min_f: int,
    max_f: int,
    sample_rate: int,
    sensitivity: int,
) -> int {
    let s = spec_bin_start(i, ratio, min_f, max_f, sample_rate);
    let e = spec_bin_end(i, ratio, min_f, max_f, sample_rate);
    let avg = spec_sum_range(bins, s, e) / (e - s);
    let scaled = avg * sensitivity / 50000;
    if scaled <= 1000 {
        scaled
    } else {
        1000
    }
}

/// The raw value of displayed bar `p` of `num_bars`: the half-bars mirrored
/// so the lowest frequencies sit at both outer edges and the highest meet
/// in the middle. With an odd bar count the middle bar stays zero.
pub open spec fn spec_raw_bar(
    bins: Seq<u64>,
    p: nat,
    num_bars: nat,
    ratio: int,
    min_f: int,
    max_f: int,
    sample_rate: int,
    sensitivity: int,
) -> int {
    let half = num_bars / 2;
    if p < half {
        spec_half_bar(bins, p, ratio, min_f, max_f, sample_rate, sensitivity)
    } else if p < 2 * half {
        spec_half_bar(
            bins,
            (2 * half - 1 - p) as nat,
            ratio,
            min_f,
            max_f,
            sample_rate,
            sensitivity,
        )
    } else {
        0
    }
}

/// One step of exponential smoothing, in milli units:
/// `previous * s + raw * (1 - s)`.
pub open spec fn spec_smooth(prev: int, raw: int, smoothing: int) -> int {
    (prev * smoothing + raw * (1000 - smoothing)) / 1000
}

/// Sum of the first `e` bar values.
pub open spec fn spec_sum_bars(vals: Seq<u32>, e: int) -> int
    decreases e,
{
    if e <= 0 {
        0
    } else {
        spec_sum_bars(vals, e - 1) + (if e - 1 < vals.len() {
            vals[e - 1] as int
        } else {
            0
        })
    }
}

proof fn lemma_sum_bars_bound(vals: Seq<u32>, e: int)
    requires
        forall|k: int| 0 <= k < vals.len() ==> #[trigger] vals[k] <= 1000,
        0 <= e,
    ensures
        0 <= spec_sum_bars(vals, e) <= e * 1000,
    decreases e,
{
    if e <= 0 {
    } else {
        lemma_sum_bars_bound(vals, e - 1);
        assert((e - 1) * 1000 + 1000 == e * 1000) by (nonlinear_arith);
    }
}

/// Converts blocks of spectrum magnitudes into smoothed, mirrored,
/// log-spaced bar values.
pub struct FrequencyAnalyzer {
    /// Configured number of displayed bars.
    pub num_bars: usize,
    /// Sample rate in Hz.
    pub sample_rate: u32,
    /// Exponential smoothing factor, milli units in 0..=1000.
    pub smoothing: u32,
    /// Sensitivity multiplier, milli units.
    pub sensitivity: u32,
    /// Per-bar geometric frequency ratio, 16.16 fixed point.
    pub ratio: u64,
    /// Lower frequency bound in Hz.
    pub min_freq: u32,
    /// Upper frequency bound in Hz.
    pub max_freq: u32,
    /// Previous frame's output, for smoothing.
    pub previous_magnitudes: Vec<u32>,
}

/// Whether `r^n` reaches `target`, with all values in 16.16 fixed point;
/// the power is computed with a saturating cap so it cannot overflow.
fn pow_reaches(r: u64, n: usize, target: u64) -> (b: bool)
    requires
        r <= 67108864,
{
    let mut v: u64 = RATIO_ONE;
    let mut k: usize = 0;
    let cap: u64 = 0x0001000000000000;
    while k < n
        invariant
            cap == 0x0001000000000000,
            v <= 0x0001000000000000,
            r <= 67108864,
        decreases n - k,
    {
        proof {
            assert((v as int) * (r as int) <= 0x0001000000000000 * 67108864) by (nonlinear_arith)
                requires
                    v <= 0x0001000000000000 && r <= 67108864,
            ;
        }
        let w: u128 = (v as u128) * (r as u128) / (RATIO_ONE as u128);
        v = if w >= cap as u128 {
            cap
        } else {
            w as u64
        };
        k += 1;
    }
    v >= target
}

/// The per-bar geometric ratio: the smallest fixed-point factor (found by
/// bisection) whose `half`-th power reaches `target`, between 1 and 1024.
fn geometric_ratio(target: u64, half: usize) -> (r: u64)
    ensures
        RATIO_ONE <= r <= 1024 * RATIO_ONE,
{
    let mut lo: u64 = RATIO_ONE;
    let mut hi: u64 = 1024 * RATIO_ONE;
    if pow_reaches(lo, half, target) {
        return lo;
    }
    while hi - lo > 1
        invariant
            RATIO_ONE <= lo <= hi <= 1024 * RATIO_ONE,
        decreases hi - lo,
    {
        let mid: u64 = lo + (hi - lo) / 2;
        if pow_reaches(mid, half, target) {
            hi = mid;
        } else {
            lo = mid;
        }
    }
    hi
}

impl FrequencyAnalyzer {
    /// The previous frame matches the configuration.
    pub open spec fn wf(&self) -> bool {
        &&& self.previous_magnitudes.len() == self.num_bars
        &&& self.num_bars <= MAX_BARS
        &&& forall|i: int|
            0 <= i < self.num_bars ==> #[trigger] self.previous_magnitudes@[i] <= 1000
        &&& self.smoothing <= 1000
        &&& self.sensitivity <= MAX_SENSITIVITY
        &&& RATIO_ONE <= self.ratio <= 1024 * RATIO_ONE
        &&& 1 <= self.sample_rate
        &&& 1 <= self.min_freq <= self.max_freq
    }

    /// Create an analyzer: `num_bars` displayed bars, exponential smoothing
    /// `smoothing` (milli units, clamped to 1000), sensitivity multiplier
    /// `sensitivity` (milli units, clamped to [`MAX_SENSITIVITY`]). The
    /// frequency axis runs from 50 Hz to 10 kHz, capped at half the sample
    /// rate and never below 50 Hz.
    pub fn new(num_bars: usize, sample_rate: u32, smoothing: u32, sensitivity: u32) -> (a:
        FrequencyAnalyzer)
        requires
            num_bars <= MAX_BARS,
        ensures
            a.wf(),
            a.num_bars == num_bars,
            a.sample_rate == if sample_rate >= 1 {
                sample_rate
            } else {
                1u32
            },
            a.smoothing == if smoothing <= 1000 {
                smoothing
            } else {
                1000u32
            },
            a.sensitivity == if sensitivity <= MAX_SENSITIVITY {
                sensitivity
            } else {
                MAX_SENSITIVITY
            },
            a.min_freq == 50,
            a.max_freq == ({
                let nyquist = (if sample_rate >= 1 {
                    sample_rate
                } else {
                    1u32
                }) / 2;
                let hi: u32 = if nyquist <= 10000 {
                    nyquist
                } else {
                    10000
                };
                if hi >= 50 {
                    hi
                } else {
                    50u32
                }
            }),
            forall|i: int| 0 <= i < num_bars ==> #[trigger] a.previous_magnitudes@[i] == 0,
    {
        let rate: u32 = if sample_rate >= 1 {
            sample_rate
        } else {
            1
        };
        let nyquist: u32 = rate / 2;
        let hi: u32 = if nyquist <= 10000 {
            nyquist
        } else {
            10000
        };
        let max_freq: u32 = if hi >= 50 {
            hi
        } else {
            50
        };
        let min_freq: u32 = 50;
        let half: usize = num_bars / 2;
        let target: u64 = (max_freq as u64) * RATIO_ONE / (min_freq as u64);
        let ratio: u64 = geometric_ratio(target, half);
        FrequencyAnalyzer {
            num_bars,
            sample_rate: rate,
            smoothing: if smoothing <= 1000 {
                smoothing
            } else {
                1000
            },
            sensitivity: if sensitivity <= MAX_SENSITIVITY {
                sensitivity
            } else {
                MAX_SENSITIVITY
            },
            ratio,
            min_freq,
            max_freq,
            previous_magnitudes: vec![0u32; num_bars],
        }
    }

    /// Analyze one block. `bins` holds the milli-unit magnitudes of the
    /// lower half of a 2048-point spectrum, or is empty when there was no
    /// input. With no bars configured or no input the result is all zero.
    /// Otherwise bar `p` is the exponentially smoothed value
    /// `previous * s + raw * (1 - s)` of the mirrored, log-spaced,
    /// sensitivity-scaled raw bar; the result is persisted for the next
    /// call; `intensity` is the mean of all bars and `bass` the mean of the
    /// lowest third.
    pub fn process(&mut self, bins: &Vec<u64>) -> (out: AudioData)
        requires
            old(self).wf(),
            forall|i: int| 0 <= i < bins.len() ==> #[trigger] bins@[i] <= MAX_BIN_MAGNITUDE,
            bins.len() == 0 || bins.len() == FFT_SIZE / 2,
        ensures
            final(self).wf(),
            final(self).num_bars == old(self).num_bars,
            final(self).sample_rate == old(self).sample_rate,
            final(self).smoothing == old(self).smoothing,
            final(self).sensitivity == old(self).sensitivity,
            final(self).ratio == old(self).ratio,
            final(self).min_freq == old(self).min_freq,
            final(self).max_freq == old(self).max_freq,
            out.frequencies.len() == old(self).num_bars,
            forall|p: int| 0 <= p < out.frequencies.len() ==> #[trigger] out.frequencies@[p]
                <= 1000,
            final(self).previous_magnitudes@ == out.frequencies@,
            old(self).num_bars == 0 || bins.len() == 0 ==> {
                &&& forall|p: int|
                    0 <= p < out.frequencies.len() ==> #[trigger] out.frequencies@[p] == 0
                &&& out.intensity == 0
                &&& out.bass == 0
            },
            old(self).num_bars >= 1 && bins.len() >= 1 ==> {
                &&& forall|p: int|
                    0 <= p < out.frequencies.len() ==> #[trigger] out.frequencies@[p] as int
                        == spec_smooth(
                        old(self).previous_magnitudes@[p] as int,
                        spec_raw_bar(
                            bins@,
                            p as nat,
                            old(self).num_bars as nat,
                            old(self).ratio as int,
                            old(self).min_freq as int,
                            old(self).max_freq as int,
                            old(self).sample_rate as int,
                            old(self).sensitivity as int,
                        ),
                        old(self).smoothing as int,
                    )
                &&& out.intensity as int == spec_sum_bars(
                    out.frequencies@,
                    old(self).num_bars as int,
                ) / (old(self).num_bars as int)
                &&& out.bass as int == (if old(self).num_bars as int / 3 >= 1 {
                    spec_sum_bars(out.frequencies@, old(self).num_bars as int / 3) / (old(
                        self,
                    ).num_bars as int / 3)
                } else {
                    0
                })
            },
    {
        let num_bars: usize = self.num_bars;
        if num_bars == 0 || bins.len() == 0 {
            let zeros: Vec<u32> = vec![0u32; num_bars];
            let zeros2: Vec<u32> = vec![0u32; num_bars];
            self.previous_magnitudes = zeros2;
            proof {
                assert(final(self).previous_magnitudes@ =~= zeros@);
            }
            return AudioData { frequencies: zeros, intensity: 0, bass: 0, waveform: Vec::new() };
        }
        let half: usize = num_bars / 2;
        let useful: usize = FFT_SIZE / 2;
        // Raw value of each half-bar along the geometric frequency axis.
        let mut half_magnitudes: Vec<u32> = Vec::new();
        let mut fb: u64 = self.min_freq as u64;
        let mut i: usize = 0;
        while i < half
            invariant
                self == old(self),
                self.wf(),
                num_bars == self.num_bars,
                half == num_bars / 2,
                useful == FFT_SIZE / 2,
                bins.len() == FFT_SIZE / 2,
                forall|k: int| 0 <= k < bins.len() ==> #[trigger] bins@[k] <= MAX_BIN_MAGNITUDE,
                i <= half,
                fb == spec_boundary(
                    i as nat,
                    self.ratio as int,
                    self.min_freq as int,
                    self.max_freq as int,
                ),
                self.min_freq <= fb <= self.max_freq,
                half_magnitudes.len() == i,
                forall|k: int|
                    0 <= k < i ==> #[trigger] half_magnitudes@[k] as int == spec_half_bar(
                        bins@,
                        k as nat,
                        self.ratio as int,
                        self.min_freq as int,
                        self.max_freq as int,
                        self.sample_rate as int,
                        self.sensitivity as int,
                    ) && half_magnitudes@[k] <= 1000,
            decreases half - i,
        {
            proof {
                lemma_boundary_monotonic(
                    i as nat,
                    self.ratio as int,
                    self.min_freq as int,
                    self.max_freq as int,
                );
                assert((fb as int) * (self.ratio as int) <= 10000000000 * 67108864)
                    by (nonlinear_arith)
                    requires
                        fb <= 10000000000 && self.ratio <= 67108864,
                ;
            }
            let stepped: u64 = fb * self.ratio / RATIO_ONE;
            let next_fb: u64 = if stepped <= self.max_freq as u64 {
                stepped
            } else {
                self.max_freq as u64
            };
            proof {
                assert(next_fb == spec_boundary(
                    (i + 1) as nat,
                    self.ratio as int,
                    self.min_freq as int,
                    self.max_freq as int,
                ));
                lemma_boundary_monotonic(
                    (i + 1) as nat,
                    self.ratio as int,
                    self.min_freq as int,
                    self.max_freq as int,
                );
            }
            proof {
                assert(0 <= (fb as int) * (FFT_SIZE as int) <= 4294967295 * 2048
                    && 0 <= (next_fb as int) * (FFT_SIZE as int) <= 4294967295 * 2048)
                    by (nonlinear_arith)
                    requires
                        0 <= fb <= 4294967295 && 0 <= next_fb <= 4294967295,
                ;
            }
            let raw_start: u64 = fb * (FFT_SIZE as u64) / (self.sample_rate as u64);
            let bin_start: usize = if raw_start <= (useful - 1) as u64 {
                raw_start as usize
            } else {
                useful - 1
            };
            let raw_end: u64 = (next_fb * (FFT_SIZE as u64) + (self.sample_rate as u64) - 1) / (
            self.sample_rate as u64);
            let capped_end: usize = if raw_end <= useful as u64 {
                raw_end as usize
            } else {
                useful
            };
            let bin_end: usize = if capped_end >= bin_start + 1 {
                capped_end
            } else {
                bin_start + 1
            };
            proof {
                assert(bin_start as int == spec_bin_start(
                    i as nat,
                    self.ratio as int,
                    self.min_freq as int,
                    self.max_freq as int,
                    self.sample_rate as int,
                ));
                assert(bin_end as int == spec_bin_end(
                    i as nat,
                    self.ratio as int,
                    self.min_freq as int,
                    self.max_freq as int,
                    self.sample_rate as int,
                ));
            }
            // Mean magnitude across the bar's bin range.
            let mut sum: u64 = 0;
            let mut b: usize = bin_start;
            while b < bin_end
                invariant
                    bin_start <= b <= bin_end,
                    bin_end <= 1024,
                    forall|k: int| 0 <= k < bins.len() ==> #[trigger] bins@[k] <= MAX_BIN_MAGNITUDE,
                    sum == spec_sum_range(bins@, bin_start as int, b as int),
                    sum <= (b - bin_start) * (MAX_BIN_MAGNITUDE as int),
                decreases bin_end - b,
            {
                proof {
                    lemma_sum_range_bound(
                        bins@,
                        bin_start as int,
                        b as int,
                        MAX_BIN_MAGNITUDE as int,
                    );
                    assert((b - bin_start) * (MAX_BIN_MAGNITUDE as int) + (MAX_BIN_MAGNITUDE as int)
                        == (b + 1 - bin_start) * (MAX_BIN_MAGNITUDE as int)) by (nonlinear_arith);
                }
                let v: u64 = if b < bins.len() {
                    bins[b]
                } else {
                    0
                };
                sum = sum + v;
                b += 1;
            }
            let count: u64 = (bin_end - bin_start) as u64;
            let avg: u64 = sum / count;
            proof {
                lemma_sum_range_bound(
                    bins@,
                    bin_start as int,
                    bin_end as int,
                    MAX_BIN_MAGNITUDE as int,
                );
                assert(sum as int / (count as int) <= MAX_BIN_MAGNITUDE) by (nonlinear_arith)
                    requires
                        0 <= sum <= (count as int) * (MAX_BIN_MAGNITUDE as int) && count >= 1,
                ;
                assert((avg as int) * (self.sensitivity as int) <= (MAX_BIN_MAGNITUDE as int) * (
                MAX_SENSITIVITY as int)) by (nonlinear_arith)
                    requires
                        0 <= avg <= MAX_BIN_MAGNITUDE && 0 <= self.sensitivity <= MAX_SENSITIVITY,
                ;
            }
            let scaled: u64 = avg * (self.sensitivity as u64) / 50000;
            let value: u32 = if scaled <= 1000 {
                scaled as u32
            } else {
                1000
            };
            half_magnitudes.push(value);
            fb = next_fb;
            i += 1;
        }
        // Mirror the half-bars so the bass sits on both outer edges, then
        // smooth against the previous frame.
        let ghost prev_seq = self.previous_magnitudes@;
        let mut frequencies: Vec<u32> = Vec::new();
        let mut previous: Vec<u32> = Vec::new();
        let mut p: usize = 0;
        while p < num_bars
            invariant
                self == old(self),
                self.wf(),
                num_bars == self.num_bars,
                half == num_bars / 2,
                bins.len() == FFT_SIZE / 2,
                prev_seq == self.previous_magnitudes@,
                half_magnitudes.len() == half,
                forall|k: int|
                    0 <= k < half ==> #[trigger] half_magnitudes@[k] as int == spec_half_bar(
                        bins@,
                        k as nat,
                        self.ratio as int,
                        self.min_freq as int,
                        self.max_freq as int,
                        self.sample_rate as int,
                        self.sensitivity as int,
                    ) && half_magnitudes@[k] <= 1000,
                p <= num_bars,
                frequencies.len() == p,
                previous@ == frequencies@,
                forall|k: int|
                    0 <= k < p ==> #[trigger] frequencies@[k] as int == spec_smooth(
                        prev_seq[k] as int,
                        spec_raw_bar(
                            bins@,
                            k as nat,
                            num_bars as nat,
                            self.ratio as int,
                            self.min_freq as int,
                            self.max_freq as int,
                            self.sample_rate as int,
                            self.sensitivity as int,
                        ),
                        self.smoothing as int,
                    ) && frequencies@[k] <= 1000,
            decreases num_bars - p,
        {
            let raw: u32 = if p < half {
                half_magnitudes[p]
            } else if p < 2 * half {
                half_magnitudes[2 * half - 1 - p]
            } else {
                0
            };
            let prev: u32 = self.previous_magnitudes[p];
            proof {
                assert((prev as int) * (self.smoothing as int) + (raw as int) * (1000
                    - self.smoothing as int) <= 1000 * 1000 && 0 <= (prev as int) * (
                self.smoothing as int) + (raw as int) * (1000 - self.smoothing as int))
                    by (nonlinear_arith)
                    requires
                        0 <= prev <= 1000 && 0 <= raw <= 1000 && 0 <= self.smoothing <= 1000,
                ;
            }
            let sm: u32 = (prev * self.smoothing + raw * (1000 - self.smoothing)) / 1000;
            frequencies.push(sm);
            previous.push(sm);
            proof {
                assert(previous@ =~= frequencies@);
            }
            p += 1;
        }
        self.previous_magnitudes = previous;
        // Scalar summaries: overall intensity and the bass level.
        let mut sum_all: u64 = 0;
        let mut q: usize = 0;
        while q < num_bars
            invariant
                num_bars == frequencies.len(),
                num_bars <= MAX_BARS,
                forall|k: int| 0 <= k < frequencies.len() ==> #[trigger] frequencies@[k] <= 1000,
                q <= num_bars,
                sum_all == spec_sum_bars(frequencies@, q as int),
                sum_all <= (q as int) * 1000,
            decreases num_bars - q,
        {
            proof {
                assert((q as int) * 1000 + 1000 == (q + 1) as int * 1000) by (nonlinear_arith);
            }
            sum_all = sum_all + frequencies[q] as u64;
            q += 1;
        }
        proof {
            assert((sum_all as int) / (num_bars as int) <= 1000) by (nonlinear_arith)
                requires
                    0 <= sum_all <= (num_bars as int) * 1000 && num_bars >= 1,
            ;
        }
        let intensity: u32 = (sum_all / (num_bars as u64)) as u32;
        let third: usize = num_bars / 3;
        let mut sum_bass: u64 = 0;
        let mut t: usize = 0;
        while t < third
            invariant
                num_bars == frequencies.len(),
                num_bars <= MAX_BARS,
                third == num_bars / 3,
                forall|k: int| 0 <= k < frequencies.len() ==> #[trigger] frequencies@[k] <= 1000,
                t <= third,
                sum_bass == spec_sum_bars(frequencies@, t as int),
                sum_bass <= (t as int) * 1000,
            decreases third - t,
        {
            proof {
                assert((t as int) * 1000 + 1000 == (t + 1) as int * 1000) by (nonlinear_arith);
            }
            sum_bass = sum_bass + frequencies[t] as u64;
            t += 1;
        }
        let bass: u32 = if third >= 1 {
            proof {
                assert((sum_bass as int) / (third as int) <= 1000) by (nonlinear_arith)
                    requires
                        0 <= sum_bass <= (third as int) * 1000 && third >= 1,
                ;
            }
            (sum_bass / (third as u64)) as u32
        } else {
            0
        };
        AudioData { frequencies, intensity, bass, waveform: Vec::new() }
    }
}

} // verus!
