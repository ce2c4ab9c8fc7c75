//! Color schemes: pure maps from (position, intensity) to RGB.
//!
//! Each scheme picks a hue/saturation/lightness triple and converts it to
//! RGB. Hues are milli-degrees (0..360_000), saturation and lightness are
//! milli units, positions and intensities are milli units.

use vstd::prelude::*;
use vstd::string::StringSliceAdditionalSpecFns;

use crate::trig::{sin_deg, spec_sin_deg};

verus! {

/// Named gradient families.
#[derive(Debug, Clone, Copy, PartialEq, Eq, Structural)]
pub enum ColorScheme {
    Spectrum,
    Rainbow,
    Fire,
    Ocean,
    Forest,
    Purple,
    Monochrome,
}

/// Absolute value.
pub open spec fn iabs(v: int) -> int {
    if v >= 0 {
        v
    } else {
        -v
    }
}

/// The hue (milli-degrees), saturation and lightness (milli units) a scheme
/// assigns to a position and intensity, both milli units.
pub open spec fn spec_scheme_hsl(scheme: ColorScheme, pos: int, it: int) -> (int, int, int) {
    match scheme {
        ColorScheme::Spectrum => (270000 - pos * 270, 900, 400 + it * 300 / 1000),
        ColorScheme::Rainbow => (pos * 360, 850, 500 + it * 200 / 1000),
        ColorScheme::Fire => (pos * 60, 950, 300 + it * 400 / 1000),
        ColorScheme::Ocean => (180000 + pos * 60, 800, 300 + it * 350 / 1000),
        ColorScheme::Forest => (80000 + pos * 60, 750, 250 + it * 350 / 1000),
        ColorScheme::Purple => (270000 + pos * 60, 800, 350 + it * 300 / 1000),
        ColorScheme::Monochrome => (0, 0, it * 800 / 1000),
    }
}

/// Standard HSL-to-RGB conversion in integer arithmetic. `h` is
/// milli-degrees (taken modulo one turn), `s` and `l` milli units; channels
/// come out in 0..=255.
pub open spec fn spec_hsl_to_rgb(h: int, s: int, l: int) -> (u8, u8, u8) {
    let hn = h % 360000;
    let c = (1000 - iabs(2 * l - 1000)) * s / 1000;
    let v = (hn % 120000) / 60;
    let x = c * (1000 - iabs(v - 1000)) / 1000;
    let m = l - c / 2;
    let rgb1: (int, int, int) = if hn < 60000 {
        (c, x, 0)
    } else if hn < 120000 {
        (x, c, 0)
    } else if hn < 180000 {
        (0, c, x)
    } else if hn < 240000 {
        (0, x, c)
    } else if hn < 300000 {
        (x, 0, c)
    } else {
        (c, 0, x)
    };
    (
        (((rgb1.0 + m) * 255 / 1000) as u8),
        (((rgb1.1 + m) * 255 / 1000) as u8),
        (((rgb1.2 + m) * 255 / 1000) as u8),
    )
}

/// The color a scheme assigns to a position and intensity.
pub open spec fn spec_get_color(scheme: ColorScheme, pos: int, it: int) -> (u8, u8, u8) {
    let hsl = spec_scheme_hsl(scheme, pos, it);
    spec_hsl_to_rgb(hsl.0, hsl.1, hsl.2)
}

proof fn lemma_chroma_bounds(s: int, l: int)
    by (nonlinear_arith)
    requires
        0 <= s <= 1000,
        0 <= l <= 1000,
    ensures
        0 <= (1000 - iabs(2 * l - 1000)) * s / 1000 <= 1000,
        (1000 - iabs(2 * l - 1000)) * s / 1000 <= 2 * l,
        (1000 - iabs(2 * l - 1000)) * s / 1000 <= 2000 - 2 * l,
        l + ((1000 - iabs(2 * l - 1000)) * s / 1000) / 2 <= 1000,
{
    let d = 1000 - iabs(2 * l - 1000);
    assert(0 <= d <= 1000);
    assert(d <= 2 * l);
    assert(d <= 2000 - 2 * l);
    assert(d * s <= d * 1000);
    assert(0 <= d * s);
    assert(d * s / 1000 <= d);
}

proof fn lemma_channel_bound(c: int, l: int)
    by (nonlinear_arith)
    requires
        0 <= c,
        c <= 2 * l,
        c <= 2000 - 2 * l,
    ensures
        c + (l - c / 2) <= 1000,
        c / 2 <= l,
{
    assert(c - c / 2 <= (c + 1) / 2);
}

/// Convert HSL (milli-degrees hue, milli-unit saturation and lightness) to
/// RGB bytes.
fn hsl_to_rgb(h: u32, s: u32, l: u32) -> (rgb: (u8, u8, u8))
    requires
        s <= 1000,
        l <= 1000,
    ensures
        rgb == spec_hsl_to_rgb(h as int, s as int, l as int),
{
    let hn: u32 = h % 360000;
    let d: u32 = if 2 * l >= 1000 {
        1000 - (2 * l - 1000)
    } else {
        1000 - (1000 - 2 * l)
    };
    proof {
        assert(d == 1000 - iabs(2 * (l as int) - 1000));
        lemma_chroma_bounds(s as int, l as int);
    }
    let c: u32 = d * s / 1000;
    let v: u32 = (hn % 120000) / 60;
    let xf: u32 = if v >= 1000 {
        1000 - (v - 1000)
    } else {
        1000 - (1000 - v)
    };
    proof {
        assert(xf == 1000 - iabs(v as int - 1000));
        assert(c * xf <= 1000 * 1000) by (nonlinear_arith)
            requires
                c <= 1000 && xf <= 1000,
        ;
        assert(c * (xf as int) / 1000 <= c) by (nonlinear_arith)
            requires
                c <= 1000 && xf <= 1000,
        ;
    }
    let x: u32 = c * xf / 1000;
    proof {
        lemma_channel_bound(c as int, l as int);
    }
    let m: u32 = l - c / 2;
    let (r1, g1, b1): (u32, u32, u32) = if hn < 60000 {
        (c, x, 0)
    } else if hn < 120000 {
        (x, c, 0)
    } else if hn < 180000 {
        (0, c, x)
    } else if hn < 240000 {
        (0, x, c)
    } else if hn < 300000 {
        (x, 0, c)
    } else {
        (c, 0, x)
    };
    proof {
        assert(x <= c);
        assert(r1 + m <= 1000 && g1 + m <= 1000 && b1 + m <= 1000);
    }
    (
        (((r1 + m) * 255) / 1000) as u8,
        (((g1 + m) * 255) / 1000) as u8,
        (((b1 + m) * 255) / 1000) as u8,
    )
}

impl ColorScheme {
    /// The color for a position and an intensity, both milli units in
    /// 0..=1000.
    pub fn get_color(&self, position: u32, intensity: u32) -> (rgb: (u8, u8, u8))
        requires
            position <= 1000,
            intensity <= 1000,
        ensures
            rgb == spec_get_color(*self, position as int, intensity as int),
    {
        match self {
            ColorScheme::Spectrum => hsl_to_rgb(
                270000 - position * 270,
                900,
                400 + intensity * 300 / 1000,
            ),
            ColorScheme::Rainbow => hsl_to_rgb(position * 360, 850, 500 + intensity * 200 / 1000),
            ColorScheme::Fire => hsl_to_rgb(position * 60, 950, 300 + intensity * 400 / 1000),
            ColorScheme::Ocean => hsl_to_rgb(
                180000 + position * 60,
                800,
                300 + intensity * 350 / 1000,
            ),
            ColorScheme::Forest => hsl_to_rgb(
                80000 + position * 60,
                750,
                250 + intensity * 350 / 1000,
            ),
            ColorScheme::Purple => hsl_to_rgb(
                270000 + position * 60,
                800,
                350 + intensity * 300 / 1000,
            ),
            ColorScheme::Monochrome => hsl_to_rgb(0, 0, intensity * 800 / 1000),
        }
    }

    /// The intensity shifted by a milli-unit offset `s` scaled by
    /// `scale_pct` percent, clamped to 0..=1000.
    pub open spec fn spec_shifted_intensity(intensity: int, s: int, scale_pct: int) -> int {
        if s >= 0 {
            let a = intensity + s * scale_pct / 100;
            if a > 1000 {
                1000
            } else {
                a
            }
        } else {
            let d = (-s) * scale_pct / 100;
            if intensity >= d {
                intensity - d
            } else {
                0
            }
        }
    }

    /// The phase, in whole degrees, of the time-based shimmer at `time_ms`
    /// milliseconds: two radians per second, about 115 degrees every
    /// second.
    pub open spec fn spec_shimmer_deg(time_ms: int) -> int {
        (time_ms * 115 / 1000) % 360
    }

    /// A pulsing text color: the intensity is shifted by a small time-based
    /// shimmer (a tenth of a sine of the elapsed time) and clamped to
    /// 0..=1000 before the scheme is applied. `time_ms` is elapsed time in
    /// milliseconds.
    pub fn get_text_color(&self, base_position: u32, intensity: u32, time_ms: u32) -> (rgb: (
        u8,
        u8,
        u8,
    ))
        requires
            base_position <= 1000,
            intensity <= 1000,
        ensures
            rgb == spec_get_color(
                *self,
                base_position as int,
                Self::spec_shifted_intensity(
                    intensity as int,
                    spec_sin_deg(Self::spec_shimmer_deg(time_ms as int)),
                    10,
                ),
            ),
    {
        let deg: u32 = ((time_ms as u64) * 115 / 1000 % 360) as u32;
        let s: i32 = sin_deg(deg);
        let adjusted: u32 = if s >= 0 {
            let a = intensity + (s as u32) * 10 / 100;
            if a > 1000 {
                1000
            } else {
                a
            }
        } else {
            let d = ((-s) as u32) * 10 / 100;
            if intensity >= d {
                intensity - d
            } else {
                0
            }
        };
        self.get_color(base_position, adjusted)
    }

    /// The phase, in whole degrees, of the gradient wave for the character
    /// at milli-unit position `pos` at `time_ms` milliseconds: one turn
    /// across the text, advancing by one radian (about 57 degrees) every
    /// second.
    pub open spec fn spec_wave_deg(pos: int, time_ms: int) -> int {
        (pos * 360 / 1000 + (time_ms * 57 / 1000) % 360) % 360
    }

    /// The gradient color of character `i` of `text_len`: its position is
    /// `i / text_len` in milli units, and the intensity is shifted by a wave
    /// (0.15 of a sine) that moves across the text over time.
    pub open spec fn spec_gradient_color(
        scheme: ColorScheme,
        i: int,
        text_len: int,
        intensity: int,
        time_ms: int,
    ) -> (u8, u8, u8) {
        let n = if text_len >= 1 {
            text_len
        } else {
            1
        };
        let pos = i * 1000 / n;
        spec_get_color(
            scheme,
            pos,
            Self::spec_shifted_intensity(
                intensity,
                spec_sin_deg(Self::spec_wave_deg(pos, time_ms)),
                15,
            ),
        )
    }

    /// Per-character gradient colors for a text of `text_len` characters.
    pub fn get_text_gradient(&self, text_len: usize, intensity: u32, time_ms: u32) -> (colors: Vec<
        (u8, u8, u8),
    >)
        requires
            intensity <= 1000,
            text_len * 1000 <= usize::MAX,
        ensures
            colors.len() == text_len,
            forall|i: int|
                0 <= i < text_len ==> #[trigger] colors@[i] == Self::spec_gradient_color(
                    *self,
                    i,
                    text_len as int,
                    intensity as int,
                    time_ms as int,
                ),
    {
        let mut colors: Vec<(u8, u8, u8)> = Vec::new();
        let n: usize = if text_len >= 1 {
            text_len
        } else {
            1
        };
        let tdeg: u32 = ((time_ms as u64) * 57 / 1000 % 360) as u32;
        let mut i: usize = 0;
        while i < text_len
            invariant
                i <= text_len,
                text_len * 1000 <= usize::MAX,
                n == if text_len >= 1 {
                    text_len as int
                } else {
                    1
                },
                intensity <= 1000,
                tdeg == ((time_ms as int) * 57 / 1000) % 360,
                colors.len() == i,
                forall|k: int|
                    0 <= k < i ==> #[trigger] colors@[k] == Self::spec_gradient_color(
                        *self,
                        k,
                        text_len as int,
                        intensity as int,
                        time_ms as int,
                    ),
            decreases text_len - i,
        {
            proof {
                assert(i * 1000 <= n * 1000 && i * 1000 / (n as int) <= 1000) by (nonlinear_arith)
                    requires
                        0 <= i <= n && 1 <= n,
                ;
            }
            let pos: u32 = ((i * 1000) / n) as u32;
            let wdeg: u32 = (pos * 360 / 1000 + tdeg) % 360;
            let s: i32 = sin_deg(wdeg);
            let adjusted: u32 = if s >= 0 {
                let a = intensity + (s as u32) * 15 / 100;
                if a > 1000 {
                    1000
                } else {
                    a
                }
            } else {
                let d = ((-s) as u32) * 15 / 100;
                if intensity >= d {
                    intensity - d
                } else {
                    0
                }
            };
            let rgb = self.get_color(pos, adjusted);
            colors.push(rgb);
            i += 1;
        }
        colors
    }

    /// Every scheme, in cycling order.
    pub fn all() -> (v: Vec<ColorScheme>)
        ensures
            v.len() == 7,
            v@[0] == ColorScheme::Spectrum,
            v@[1] == ColorScheme::Rainbow,
            v@[2] == ColorScheme::Fire,
            v@[3] == ColorScheme::Ocean,
            v@[4] == ColorScheme::Forest,
            v@[5] == ColorScheme::Purple,
            v@[6] == ColorScheme::Monochrome,
    {
        let mut v: Vec<ColorScheme> = Vec::new();
        v.push(ColorScheme::Spectrum);
        v.push(ColorScheme::Rainbow);
        v.push(ColorScheme::Fire);
        v.push(ColorScheme::Ocean);
        v.push(ColorScheme::Forest);
        v.push(ColorScheme::Purple);
        v.push(ColorScheme::Monochrome);
        v
    }

    /// The next scheme in cycling order, wrapping around after the last.
    pub fn next(&self) -> (n: ColorScheme)
        ensures
            n == match *self {
                ColorScheme::Spectrum => ColorScheme::Rainbow,
                ColorScheme::Rainbow => ColorScheme::Fire,
                ColorScheme::Fire => ColorScheme::Ocean,
                ColorScheme::Ocean => ColorScheme::Forest,
                ColorScheme::Forest => ColorScheme::Purple,
                ColorScheme::Purple => ColorScheme::Monochrome,
                ColorScheme::Monochrome => ColorScheme::Spectrum,
            },
    {
        match self {
            ColorScheme::Spectrum => ColorScheme::Rainbow,
            ColorScheme::Rainbow => ColorScheme::Fire,
            ColorScheme::Fire => ColorScheme::Ocean,
            ColorScheme::Ocean => ColorScheme::Forest,
            ColorScheme::Forest => ColorScheme::Purple,
            ColorScheme::Purple => ColorScheme::Monochrome,
            ColorScheme::Monochrome => ColorScheme::Spectrum,
        }
    }
}

/// Monochrome is a neutral gray: all three channels are equal, and the gray
/// level never decreases as the intensity grows.
pub proof fn lemma_monochrome_gray(pos1: int, pos2: int, it1: int, it2: int)
    requires
        0 <= it1 <= it2 <= 1000,
    ensures
        ({
            let c = spec_get_color(ColorScheme::Monochrome, pos1, it1);
            c.0 == c.1 && c.1 == c.2
        }),
        spec_get_color(ColorScheme::Monochrome, pos1, it1).0 <= spec_get_color(
            ColorScheme::Monochrome,
            pos2,
            it2,
        ).0,
{
    let l1 = it1 * 800 / 1000;
    let l2 = it2 * 800 / 1000;
    assert(it1 * 800 <= it2 * 800 && 0 <= it1 * 800 && it2 * 800 <= 800000) by (nonlinear_arith)
        requires
            0 <= it1 <= it2 <= 1000,
    ;
    vstd::arithmetic::div_mod::lemma_div_is_ordered(it1 * 800, it2 * 800, 1000);
    assert(l1 <= l2 && 0 <= l1 && l2 <= 800);
    assert(l1 * 255 <= l2 * 255 && 0 <= l1 * 255 && l2 * 255 <= 800 * 255) by (nonlinear_arith)
        requires
            0 <= l1 <= l2 <= 800,
    ;
    vstd::arithmetic::div_mod::lemma_div_is_ordered(l1 * 255, l2 * 255, 1000);
    assert(iabs(2 * l1 - 1000) <= 1000);
    assert((1000 - iabs(2 * l1 - 1000)) * 0 == 0) by (nonlinear_arith);
    assert((1000 - iabs(2 * l2 - 1000)) * 0 == 0) by (nonlinear_arith);
    let c1 = spec_hsl_to_rgb(0, 0, l1);
    let c2 = spec_hsl_to_rgb(0, 0, l2);
    assert(0int % 360000 == 0 && (0int % 120000) / 60 == 0);
    assert(0 * (1000 - iabs(0 - 1000)) == 0) by (nonlinear_arith);
    assert(c1.0 == (l1 * 255 / 1000) as u8 && c1.1 == (l1 * 255 / 1000) as u8 && c1.2 == (l1 * 255
        / 1000) as u8);
    assert(c2.0 == (l2 * 255 / 1000) as u8);
    assert(spec_get_color(ColorScheme::Monochrome, pos1, it1) == c1);
    assert(spec_get_color(ColorScheme::Monochrome, pos2, it2) == c2);
}

/// One channel of [`lerp_color`]: `a` moved toward `b` by the milli-unit
/// fraction `t`.
pub open spec fn spec_lerp_channel(a: u8, b: u8, t: int) -> u8 {
    if b >= a {
        (a + (b - a) * t / 1000) as u8
    } else {
        (a - (a - b) * t / 1000) as u8
    }
}

/// Interpolate between two colors; `t` is a milli-unit blend factor, values
/// above 1000 clamp to the second color.
pub fn lerp_color(a: (u8, u8, u8), b: (u8, u8, u8), t: u32) -> (r: (u8, u8, u8))
    ensures
        ({
            let tc: int = if t > 1000 {
                1000
            } else {
                t as int
            };
            &&& r.0 == spec_lerp_channel(a.0, b.0, tc)
            &&& r.1 == spec_lerp_channel(a.1, b.1, tc)
            &&& r.2 == spec_lerp_channel(a.2, b.2, tc)
        }),
{
    let tc: u32 = if t > 1000 {
        1000
    } else {
        t
    };
    let lr = lerp_channel(a.0, b.0, tc);
    let lg = lerp_channel(a.1, b.1, tc);
    let lb = lerp_channel(a.2, b.2, tc);
    (lr, lg, lb)
}

fn lerp_channel(a: u8, b: u8, tc: u32) -> (r: u8)
    requires
        tc <= 1000,
    ensures
        r == spec_lerp_channel(a, b, tc as int),
{
    if b >= a {
        let d: u32 = (b - a) as u32;
        proof {
            assert(d * tc <= 255 * 1000 && d * tc / 1000 <= d) by (nonlinear_arith)
                requires
                    d <= 255 && tc <= 1000,
            ;
        }
        a + (d * tc / 1000) as u8
    } else {
        let d: u32 = (a - b) as u32;
        proof {
            assert(d * tc <= 255 * 1000 && d * tc / 1000 <= d) by (nonlinear_arith)
                requires
                    d <= 255 && tc <= 1000,
            ;
        }
        a - (d * tc / 1000) as u8
    }
}


/// An ASCII byte folded to lower case.
pub open spec fn spec_lower_byte(b: u8) -> u8 {
    if 0x41 <= b <= 0x5a {
        (b + 32) as u8
    } else {
        b
    }
}

/// Fold an ASCII byte to lower case.
pub fn lower_byte(b: u8) -> (r: u8)
    ensures
        r == spec_lower_byte(b),
{
    if 0x41 <= b && b <= 0x5a {
        b + 32
    } else {
        b
    }
}

/// The scheme a name denotes, matched case-insensitively.
pub open spec fn spec_scheme_from_name(s: Seq<u8>) -> Option<ColorScheme> {
    if false {
        Option::None
    } else if s.len() == 8 && spec_lower_byte(s[0]) == 0x73 && spec_lower_byte(s[1]) == 0x70 && spec_lower_byte(s[2]) == 0x65 && spec_lower_byte(s[3]) == 0x63 && spec_lower_byte(s[4]) == 0x74 && spec_lower_byte(s[5]) == 0x72 && spec_lower_byte(s[6]) == 0x75 && spec_lower_byte(s[7]) == 0x6d {
        Some(ColorScheme::Spectrum)
    } else if s.len() == 7 && spec_lower_byte(s[0]) == 0x72 && spec_lower_byte(s[1]) == 0x61 && spec_lower_byte(s[2]) == 0x69 && spec_lower_byte(s[3]) == 0x6e && spec_lower_byte(s[4]) == 0x62 && spec_lower_byte(s[5]) == 0x6f && spec_lower_byte(s[6]) == 0x77 {
        Some(ColorScheme::Rainbow)
    } else if s.len() == 4 && spec_lower_byte(s[0]) == 0x66 && spec_lower_byte(s[1]) == 0x69 && spec_lower_byte(s[2]) == 0x72 && spec_lower_byte(s[3]) == 0x65 {
        Some(ColorScheme::Fire)
    } else if s.len() == 5 && spec_lower_byte(s[0]) == 0x6f && spec_lower_byte(s[1]) == 0x63 && spec_lower_byte(s[2]) == 0x65 && spec_lower_byte(s[3]) == 0x61 && spec_lower_byte(s[4]) == 0x6e {
        Some(ColorScheme::Ocean)
    } else if s.len() == 6 && spec_lower_byte(s[0]) == 0x66 && spec_lower_byte(s[1]) == 0x6f && spec_lower_byte(s[2]) == 0x72 && spec_lower_byte(s[3]) == 0x65 && spec_lower_byte(s[4]) == 0x73 && spec_lower_byte(s[5]) == 0x74 {
        Some(ColorScheme::Forest)
    } else if s.len() == 6 && spec_lower_byte(s[0]) == 0x70 && spec_lower_byte(s[1]) == 0x75 && spec_lower_byte(s[2]) == 0x72 && spec_lower_byte(s[3]) == 0x70 && spec_lower_byte(s[4]) == 0x6c && spec_lower_byte(s[5]) == 0x65 {
        Some(ColorScheme::Purple)
    } else if s.len() == 4 && spec_lower_byte(s[0]) == 0x6d && spec_lower_byte(s[1]) == 0x6f && spec_lower_byte(s[2]) == 0x6e && spec_lower_byte(s[3]) == 0x6f {
        Some(ColorScheme::Monochrome)
    } else if s.len() == 10 && spec_lower_byte(s[0]) == 0x6d && spec_lower_byte(s[1]) == 0x6f && spec_lower_byte(s[2]) == 0x6e && spec_lower_byte(s[3]) == 0x6f && spec_lower_byte(s[4]) == 0x63 && spec_lower_byte(s[5]) == 0x68 && spec_lower_byte(s[6]) == 0x72 && spec_lower_byte(s[7]) == 0x6f && spec_lower_byte(s[8]) == 0x6d && spec_lower_byte(s[9]) == 0x65 {
        Some(ColorScheme::Monochrome)
    } else {
        Option::None
    }
}

impl ColorScheme {
    /// Look a scheme up by name, case-insensitively; short and long forms
    /// of the monochrome name are both accepted.
    pub fn from_name(s: &str) -> (r: Option<ColorScheme>)
        ensures
            r == spec_scheme_from_name(s.spec_bytes()),
    {
        let b = s.as_bytes();
        if false {
            Option::None
    } else if b.len() == 8 && lower_byte(b[0]) == 0x73 && lower_byte(b[1]) == 0x70 && lower_byte(b[2]) == 0x65 && lower_byte(b[3]) == 0x63 && lower_byte(b[4]) == 0x74 && lower_byte(b[5]) == 0x72 && lower_byte(b[6]) == 0x75 && lower_byte(b[7]) == 0x6d {
        Some(ColorScheme::Spectrum)
    } else if b.len() == 7 && lower_byte(b[0]) == 0x72 && lower_byte(b[1]) == 0x61 && lower_byte(b[2]) == 0x69 && lower_byte(b[3]) == 0x6e && lower_byte(b[4]) == 0x62 && lower_byte(b[5]) == 0x6f && lower_byte(b[6]) == 0x77 {
        Some(ColorScheme::Rainbow)
    } else if b.len() == 4 && lower_byte(b[0]) == 0x66 && lower_byte(b[1]) == 0x69 && lower_byte(b[2]) == 0x72 && lower_byte(b[3]) == 0x65 {
        Some(ColorScheme::Fire)
    } else if b.len() == 5 && lower_byte(b[0]) == 0x6f && lower_byte(b[1]) == 0x63 && lower_byte(b[2]) == 0x65 && lower_byte(b[3]) == 0x61 && lower_byte(b[4]) == 0x6e {
        Some(ColorScheme::Ocean)
    } else if b.len() == 6 && lower_byte(b[0]) == 0x66 && lower_byte(b[1]) == 0x6f && lower_byte(b[2]) == 0x72 && lower_byte(b[3]) == 0x65 && lower_byte(b[4]) == 0x73 && lower_byte(b[5]) == 0x74 {
        Some(ColorScheme::Forest)
    } else if b.len() == 6 && lower_byte(b[0]) == 0x70 && lower_byte(b[1]) == 0x75 && lower_byte(b[2]) == 0x72 && lower_byte(b[3]) == 0x70 && lower_byte(b[4]) == 0x6c && lower_byte(b[5]) == 0x65 {
        Some(ColorScheme::Purple)
    } else if b.len() == 4 && lower_byte(b[0]) == 0x6d && lower_byte(b[1]) == 0x6f && lower_byte(b[2]) == 0x6e && lower_byte(b[3]) == 0x6f {
        Some(ColorScheme::Monochrome)
    } else if b.len() == 10 && lower_byte(b[0]) == 0x6d && lower_byte(b[1]) == 0x6f && lower_byte(b[2]) == 0x6e && lower_byte(b[3]) == 0x6f && lower_byte(b[4]) == 0x63 && lower_byte(b[5]) == 0x68 && lower_byte(b[6]) == 0x72 && lower_byte(b[7]) == 0x6f && lower_byte(b[8]) == 0x6d && lower_byte(b[9]) == 0x65 {
        Some(ColorScheme::Monochrome)
        } else {
            Option::None
        }
    }
}

} // verus!
