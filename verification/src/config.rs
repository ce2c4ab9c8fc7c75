//! Configuration data model for the visualizer core.
//!
//! Normalized settings (opacity, smoothing, sensitivity, animation speed,
//! pulse intensity) are milli units: 1000 stands for 1.0. Percentages in
//! coordinates and sizes are whole percent values.

use vstd::prelude::*;
use vstd::string::StringSliceAdditionalSpecFns;

use crate::color::ColorScheme;

verus! {

/// How the visualization is presented.
#[derive(Debug, Clone, Copy, PartialEq, Eq, Structural)]
pub enum DisplayMode {
    Terminal,
    Wallpaper,
}

/// Multi-monitor display mode.
#[derive(Debug, Clone, Copy, PartialEq, Eq, Structural)]
pub enum MultiMonitorMode {
    /// Same visualization on all monitors.
    Clone,
    /// Per-monitor overrides allowed.
    Independent,
}

/// Per-monitor configuration overrides.
#[derive(Debug, Clone)]
pub struct MonitorConfig {
    /// Output name, e.g. "DP-1".
    pub output: String,
    pub enabled: bool,
    pub color_scheme: Option<ColorScheme>,
    /// Style name.
    pub style: Option<String>,
    /// Opacity override in milli units.
    pub opacity: Option<u32>,
}

/// The default of a flag that is on unless switched off.
pub fn default_true() -> (b: bool)
    ensures
        b,
{
    true
}

/// Display-related settings.
#[derive(Debug, Clone)]
pub struct DisplayConfig {
    pub mode: DisplayMode,
    pub rotate_styles: bool,
    pub rotation_interval_secs: u64,
}

/// Audio capture and analysis settings.
#[derive(Debug, Clone)]
pub struct AudioConfig {
    pub device: Option<String>,
    pub sample_rate: u32,
    pub buffer_size: usize,
    /// Exponential smoothing factor in milli units (0..=1000).
    pub smoothing: u32,
    /// Sensitivity multiplier in milli units (1000 = 1.0).
    pub sensitivity: u32,
}

/// Bar rendering settings.
#[derive(Debug, Clone)]
pub struct VisualizerConfig {
    pub bars: usize,
    pub color_scheme: ColorScheme,
    pub bar_width: u16,
    pub bar_spacing: u16,
    pub mirror: bool,
    /// When true with mirror, reverses the pattern: lows meet in the middle,
    /// highs sit on the outside.
    pub reverse_mirror: bool,
    /// Opacity in milli units (0..=1000).
    pub opacity: u32,
}

/// A coordinate that is either absolute pixels or a percentage of the
/// total dimension.
#[derive(Debug, Clone, Copy, PartialEq, Eq, Structural)]
pub enum CoordValue {
    Pixels(i32),
    Percent(u32),
}

impl CoordValue {
    /// Resolve to an absolute pixel position within `total`.
    pub fn resolve(&self, total: usize) -> (r: usize)
        requires
            self is Percent ==> total * self->Percent_0 <= usize::MAX,
        ensures
            self is Pixels ==> r == if self->Pixels_0 >= 0 {
                self->Pixels_0 as int
            } else {
                0int
            },
            self is Percent ==> r == total * self->Percent_0 / 100,
    {
        match self {
            CoordValue::Pixels(px) => if *px >= 0 {
                *px as usize
            } else {
                0
            },
            CoordValue::Percent(pct) => {
                proof {
                    assert(total * (*pct as int) / 100 <= total * (*pct as int));
                }
                (total * (*pct as usize)) / 100
            },
        }
    }
}

/// Where the text overlay sits.
#[derive(Debug, Clone, Copy, PartialEq, Eq, Structural)]
pub enum TextPosition {
    Top,
    Bottom,
    Center,
    Coordinates { x: CoordValue, y: CoordValue },
}

/// Font style of the text overlay.
#[derive(Debug, Clone, Copy, PartialEq, Eq, Structural)]
pub enum FontStyle {
    Normal,
    Bold,
    Ascii,
    Figlet,
}

/// Horizontal alignment of the text overlay.
#[derive(Debug, Clone, Copy, PartialEq, Eq, Structural)]
pub enum TextAlignment {
    Left,
    Center,
    Right,
}

/// Animation applied to the text overlay. `Still` applies none.
#[derive(Debug, Clone, Copy, PartialEq, Eq, Structural)]
pub enum TextAnimation {
    Scroll,
    Pulse,
    Fade,
    Wave,
    Still,
}

/// Text overlay settings.
#[derive(Debug, Clone)]
pub struct TextConfig {
    pub show_title: bool,
    pub show_artist: bool,
    /// Animation speed multiplier in milli units (1000 = 1.0).
    pub animation_speed: u32,
    /// Pulse intensity in milli units (0..=1000).
    pub pulse_intensity: u32,
    pub position: TextPosition,
    pub font_style: FontStyle,
    pub alignment: TextAlignment,
    pub animation_style: TextAnimation,
    pub margin_top: u16,
    pub margin_bottom: u16,
    pub margin_horizontal: u16,
    pub title_color: Option<RgbColor>,
    pub artist_color: Option<RgbColor>,
    pub background_color: Option<RgbColor>,
    pub use_color_scheme: bool,
}

/// An RGB color as configured.
#[derive(Debug, Clone, Copy, PartialEq, Eq, Structural)]
pub struct RgbColor {
    pub r: u8,
    pub g: u8,
    pub b: u8,
}

/// The value of one hex digit, or none for other characters.
pub open spec fn spec_hex_digit(c: u8) -> Option<u8> {
    if 0x30 <= c <= 0x39 {
        Some((c - 0x30) as u8)
    } else if 0x41 <= c <= 0x46 {
        Some((c - 0x41 + 10) as u8)
    } else if 0x61 <= c <= 0x66 {
        Some((c - 0x61 + 10) as u8)
    } else {
        None
    }
}

/// Parse one hexadecimal digit.
fn hex_digit(c: u8) -> (r: Option<u8>)
    ensures
        r == spec_hex_digit(c),
        r is Some ==> r->0 < 16,
{
    if 0x30 <= c && c <= 0x39 {
        Some(c - 0x30)
    } else if 0x41 <= c && c <= 0x46 {
        Some(c - 0x41 + 10)
    } else if 0x61 <= c && c <= 0x66 {
        Some(c - 0x61 + 10)
    } else {
        None
    }
}

/// The byte encoded by two hex digits, when both are digits.
pub open spec fn spec_hex_byte(hi: u8, lo: u8) -> Option<u8> {
    match (spec_hex_digit(hi), spec_hex_digit(lo)) {
        (Some(h), Some(l)) => Some((h * 16 + l) as u8),
        _ => None,
    }
}

/// The byte string with every leading `#` removed.
pub open spec fn spec_skip_hashes(s: Seq<u8>) -> Seq<u8>
    decreases s.len(),
{
    if s.len() > 0 && s[0] == 0x23 {
        spec_skip_hashes(s.skip(1))
    } else {
        s
    }
}

impl RgbColor {
    /// Whether `s`, after any number of leading `#` characters, is exactly
    /// six hex digits encoding this color.
    pub open spec fn spec_from_hex(s: Seq<u8>) -> Option<RgbColor> {
        let t = spec_skip_hashes(s);
        if t.len() != 6 {
            None
        } else {
            match (spec_hex_byte(t[0], t[1]), spec_hex_byte(t[2], t[3]), spec_hex_byte(
                t[4],
                t[5],
            )) {
                (Some(r), Some(g), Some(b)) => Some(RgbColor { r, g, b }),
                _ => None,
            }
        }
    }

    /// Parse a color from a hex string like `#FF0000` or `FF0000`:
    /// `Some` exactly when the string's UTF-8 bytes, after any number of
    /// leading `#` characters, are six hexadecimal digits.
    pub fn from_hex(hex: &str) -> (c: Option<RgbColor>)
        ensures
            c == Self::spec_from_hex(hex.spec_bytes()),
    {
        let bytes = hex.as_bytes();
        let ghost full = hex.spec_bytes();
        proof {
            assert(full.skip(0) =~= full);
        }
        let mut start: usize = 0;
        while start < bytes.len() && bytes[start] == 0x23
            invariant
                start <= bytes.len(),
                bytes@ == full,
                spec_skip_hashes(full) == spec_skip_hashes(full.skip(start as int)),
            decreases bytes.len() - start,
        {
            proof {
                assert(full.skip(start as int).skip(1) =~= full.skip(start as int + 1));
            }
            start += 1;
        }
        proof {
            let t = spec_skip_hashes(full);
            assert(full.skip(start as int) =~= t) by {
                assert(spec_skip_hashes(full.skip(start as int)) == full.skip(start as int));
            }
            assert(t.len() == full.len() - start);
            assert(forall|i: int| 0 <= i < t.len() ==> t[i] == full[i + start]);
        }
        if bytes.len() - start != 6 {
            return None;
        }
        let d0 = hex_digit(bytes[start]);
        let d1 = hex_digit(bytes[start + 1]);
        let d2 = hex_digit(bytes[start + 2]);
        let d3 = hex_digit(bytes[start + 3]);
        let d4 = hex_digit(bytes[start + 4]);
        let d5 = hex_digit(bytes[start + 5]);
        match (d0, d1, d2, d3, d4, d5) {
            (Some(h0), Some(h1), Some(h2), Some(h3), Some(h4), Some(h5)) => Some(
                RgbColor { r: h0 * 16 + h1, g: h2 * 16 + h3, b: h4 * 16 + h5 },
            ),
            _ => None,
        }
    }
}

/// Whether every byte of `s` is a decimal digit.
pub open spec fn spec_all_digits(s: Seq<u8>) -> bool {
    forall|i: int| 0 <= i < s.len() ==> 0x30 <= #[trigger] s[i] <= 0x39
}

/// The decimal value of a digit string.
pub open spec fn spec_digits_value(s: Seq<u8>) -> int
    decreases s.len(),
{
    if s.len() == 0 {
        0
    } else {
        spec_digits_value(s.drop_last()) * 10 + (s.last() - 0x30)
    }
}

/// A digit string's value never shrinks as digits are appended.
proof fn lemma_digits_value_prefix(s: Seq<u8>, k: int)
    requires
        spec_all_digits(s),
        0 <= k <= s.len(),
    ensures
        0 <= spec_digits_value(s.take(k)) <= spec_digits_value(s),
    decreases s.len() - k,
{
    if k == s.len() {
        assert(s.take(k) =~= s);
        lemma_digits_value_nonneg(s);
    } else {
        lemma_digits_value_prefix(s, k + 1);
        let t = s.take(k + 1);
        assert(t.drop_last() =~= s.take(k));
        assert(spec_all_digits(s.take(k))) by {
            assert(forall|i: int| 0 <= i < k ==> s.take(k)[i] == s[i]);
        }
        lemma_digits_value_nonneg(s.take(k));
        assert(spec_digits_value(t) == spec_digits_value(s.take(k)) * 10 + (t.last() - 0x30));
        assert(spec_digits_value(s.take(k)) * 10 >= spec_digits_value(s.take(k)))
            by (nonlinear_arith)
            requires
                spec_digits_value(s.take(k)) >= 0,
        ;
    }
}

proof fn lemma_digits_value_nonneg(s: Seq<u8>)
    requires
        spec_all_digits(s),
    ensures
        spec_digits_value(s) >= 0,
    decreases s.len(),
{
    if s.len() > 0 {
        assert(spec_all_digits(s.drop_last())) by {
            assert(forall|i: int| 0 <= i < s.len() - 1 ==> s.drop_last()[i] == s[i]);
        }
        lemma_digits_value_nonneg(s.drop_last());
        assert(spec_digits_value(s.drop_last()) * 10 >= 0) by (nonlinear_arith)
            requires
                spec_digits_value(s.drop_last()) >= 0,
        ;
    }
}

/// Parse an unsigned decimal number: the value exactly when the slice is
/// one or more digits and the value fits, `None` otherwise.
pub fn parse_u32_digits(b: &[u8]) -> (r: Option<u32>)
    ensures
        r matches Some(v) ==> spec_all_digits(b@) && b@.len() >= 1 && v == spec_digits_value(b@),
        r is None ==> b@.len() == 0 || !spec_all_digits(b@) || spec_digits_value(b@) > u32::MAX,
{
    if b.len() == 0 {
        return None;
    }
    let mut acc: u32 = 0;
    let mut i: usize = 0;
    while i < b.len()
        invariant
            i <= b.len(),
            spec_all_digits(b@.take(i as int)),
            acc == spec_digits_value(b@.take(i as int)),
        decreases b.len() - i,
    {
        let c: u8 = b[i];
        if c < 0x30 || c > 0x39 {
            proof {
                assert(!spec_all_digits(b@));
            }
            return None;
        }
        let d: u32 = (c - 0x30) as u32;
        if acc > (u32::MAX - d) / 10 {
            proof {
                let t = b@.take(i as int + 1);
                assert(t.drop_last() =~= b@.take(i as int));
                assert(t.last() == c);
                assert(spec_digits_value(t) == (acc as int) * 10 + d);
                assert((acc as int) * 10 + d > u32::MAX) by (nonlinear_arith)
                    requires
                        acc > ((u32::MAX - d) as int) / 10 && 0 <= d <= 9 && acc >= 0,
                ;
                if spec_all_digits(b@) {
                    lemma_digits_value_prefix(b@, i as int + 1);
                }
            }
            return None;
        }
        proof {
            let t = b@.take(i as int + 1);
            assert(t.drop_last() =~= b@.take(i as int));
            assert(t.last() == c);
            assert((acc as int) * 10 + d <= u32::MAX) by (nonlinear_arith)
                requires
                    acc <= ((u32::MAX - d) as int) / 10 && 0 <= d <= 9 && acc >= 0,
            ;
        }
        acc = acc * 10 + d;
        i += 1;
    }
    proof {
        assert(b@.take(b@.len() as int) =~= b@);
    }
    Some(acc)
}

/// The slice with ASCII whitespace removed from both ends.
pub open spec fn spec_trim(s: Seq<u8>) -> Seq<u8>
    decreases s.len(),
{
    if s.len() == 0 {
        s
    } else if s[0] == 0x20 || s[0] == 0x09 || s[0] == 0x0a || s[0] == 0x0d {
        spec_trim(s.skip(1))
    } else if s.last() == 0x20 || s.last() == 0x09 || s.last() == 0x0a || s.last() == 0x0d {
        spec_trim(s.drop_last())
    } else {
        s
    }
}

/// Trim ASCII whitespace from both ends of a byte slice.
pub fn trim_bytes(b: &[u8]) -> (r: &[u8])
    ensures
        r@ == spec_trim(b@),
    decreases b@.len(),
{
    if b.len() == 0 {
        return b;
    }
    let first = b[0];
    if first == 0x20 || first == 0x09 || first == 0x0a || first == 0x0d {
        let tail = &b[1..b.len()];
        proof {
            assert(tail@ =~= b@.skip(1));
        }
        return trim_bytes(tail);
    }
    let last = b[b.len() - 1];
    if last == 0x20 || last == 0x09 || last == 0x0a || last == 0x0d {
        let head = &b[0..b.len() - 1];
        proof {
            assert(head@ =~= b@.drop_last());
        }
        return trim_bytes(head);
    }
    b
}

/// Index of the only occurrence of `target` in `bytes`, when there is
/// exactly one.
pub fn find_unique(bytes: &[u8], target: u8) -> (r: Option<usize>)
    ensures
        r matches Some(i) ==> i < bytes.len() && bytes@[i as int] == target && (forall|j: int|
            0 <= j < bytes.len() && j != i ==> bytes@[j] != target),
        r is None ==> forall|i: int|
            0 <= i < bytes.len() && bytes@[i] == target ==> (exists|j: int|
                0 <= j < bytes.len() && j != i && bytes@[j] == target),
{
    let mut first: usize = 0;
    let mut second: usize = 0;
    let mut count: usize = 0;
    let mut i: usize = 0;
    while i < bytes.len()
        invariant
            i <= bytes.len(),
            count == 0 ==> forall|j: int| 0 <= j < i ==> bytes@[j] != target,
            count == 1 ==> first < i && bytes@[first as int] == target && (forall|j: int|
                0 <= j < i && j != first ==> bytes@[j] != target),
            count >= 2 ==> first < i && second < i && first != second && bytes@[first as int]
                == target && bytes@[second as int] == target,
        decreases bytes.len() - i,
    {
        if bytes[i] == target {
            if count == 0 {
                first = i;
            } else if count == 1 {
                second = i;
            }
            count = if count <= 2 {
                count + 1
            } else {
                count
            };
        }
        i += 1;
    }
    if count == 1 {
        Some(first)
    } else {
        None
    }
}

/// The dimension a trimmed byte string denotes: a percentage between 1 and
/// 100 when it ends in `%`, else an absolute pixel count of at least 1.
pub open spec fn spec_parse_dimension(s: Seq<u8>) -> Option<WallpaperDimension> {
    let t = spec_trim(s);
    if t.len() >= 1 && t.last() == 0x25 {
        let d = t.drop_last();
        if d.len() >= 1 && spec_all_digits(d) && 1 <= spec_digits_value(d) <= 100 {
            Some(WallpaperDimension::Percentage(spec_digits_value(d) as u32))
        } else {
            Option::None
        }
    } else {
        if t.len() >= 1 && spec_all_digits(t) && 1 <= spec_digits_value(t) <= u32::MAX {
            Some(WallpaperDimension::Pixels(spec_digits_value(t) as u32))
        } else {
            Option::None
        }
    }
}

/// The coordinate a trimmed byte string denotes: a percentage when it ends
/// in `%`, else a pixel offset with an optional leading minus.
pub open spec fn spec_parse_coord(s: Seq<u8>) -> Option<CoordValue> {
    let t = spec_trim(s);
    if t.len() >= 1 && t.last() == 0x25 {
        let d = t.drop_last();
        if d.len() >= 1 && spec_all_digits(d) && spec_digits_value(d) <= u32::MAX {
            Some(CoordValue::Percent(spec_digits_value(d) as u32))
        } else {
            Option::None
        }
    } else if t.len() >= 1 && t[0] == 0x2d {
        let d = t.skip(1);
        if d.len() >= 1 && spec_all_digits(d) && spec_digits_value(d) <= i32::MAX {
            Some(CoordValue::Pixels((-spec_digits_value(d)) as i32))
        } else {
            Option::None
        }
    } else {
        if t.len() >= 1 && spec_all_digits(t) && spec_digits_value(t) <= i32::MAX {
            Some(CoordValue::Pixels(spec_digits_value(t) as i32))
        } else {
            Option::None
        }
    }
}

/// Parse one coordinate, pixels or percent.
pub fn parse_coord_value(s: &str) -> (r: Option<CoordValue>)
    ensures
        r == spec_parse_coord(s.spec_bytes()),
{
    parse_coord_bytes(s.as_bytes())
}

fn parse_coord_bytes(bytes: &[u8]) -> (r: Option<CoordValue>)
    ensures
        r == spec_parse_coord(bytes@),
{
    let t = trim_bytes(bytes);
    if t.len() == 0 {
        return None;
    }
    if t[t.len() - 1] == 0x25 {
        let d = &t[0..t.len() - 1];
        proof {
            assert(d@ =~= spec_trim(bytes@).drop_last());
        }
        match parse_u32_digits(d) {
            Some(v) => Some(CoordValue::Percent(v)),
            _ => None,
        }
    } else if t[0] == 0x2d {
        let d = &t[1..t.len()];
        proof {
            assert(d@ =~= spec_trim(bytes@).skip(1));
        }
        match parse_u32_digits(d) {
            Some(v) => if v <= 0x7fffffff {
                Some(CoordValue::Pixels(-(v as i32)))
            } else {
                None
            },
            _ => None,
        }
    } else {
        match parse_u32_digits(t) {
            Some(v) => if v <= 0x7fffffff {
                Some(CoordValue::Pixels(v as i32))
            } else {
                None
            },
            _ => None,
        }
    }
}

/// Anchor position for the wallpaper surface (9-point grid plus fullscreen).
#[derive(Debug, Clone, Copy, PartialEq, Eq, Structural)]
pub enum WallpaperAnchor {
    TopLeft,
    Top,
    TopRight,
    Left,
    Center,
    Right,
    BottomLeft,
    Bottom,
    BottomRight,
    /// All edges anchored.
    Fullscreen,
}

/// A single wallpaper dimension: absolute pixels or a percentage of the
/// screen dimension.
#[derive(Debug, Clone, Copy, PartialEq, Eq, Structural)]
pub enum WallpaperDimension {
    Pixels(u32),
    Percentage(u32),
}

/// Requested wallpaper size.
#[derive(Debug, Clone, Copy, PartialEq, Eq, Structural)]
pub struct WallpaperSize {
    pub width: WallpaperDimension,
    pub height: WallpaperDimension,
}

/// One resolved wallpaper dimension: pixels pass through, a percentage is
/// taken of the screen dimension, floored, and kept at least 1.
pub open spec fn spec_resolve_dimension(d: WallpaperDimension, screen: u32) -> u32 {
    match d {
        WallpaperDimension::Pixels(px) => px,
        WallpaperDimension::Percentage(pct) => {
            let v = screen * pct / 100;
            if v >= 1 {
                v as u32
            } else {
                1u32
            }
        },
    }
}

impl WallpaperSize {
    /// Parse one dimension, pixels or percent.
    pub fn parse_dimension(s: &str) -> (r: Option<WallpaperDimension>)
        ensures
            r == spec_parse_dimension(s.spec_bytes()),
    {
        Self::parse_dimension_bytes(s.as_bytes())
    }

    fn parse_dimension_bytes(bytes: &[u8]) -> (r: Option<WallpaperDimension>)
        ensures
            r == spec_parse_dimension(bytes@),
    {
        let t = trim_bytes(bytes);
        if t.len() == 0 {
            return None;
        }
        if t[t.len() - 1] == 0x25 {
            let d = &t[0..t.len() - 1];
            proof {
                assert(d@ =~= spec_trim(bytes@).drop_last());
            }
            match parse_u32_digits(d) {
                Some(v) => if 1 <= v && v <= 100 {
                    Some(WallpaperDimension::Percentage(v))
                } else {
                    None
                },
                _ => None,
            }
        } else {
            match parse_u32_digits(t) {
                Some(v) => if v >= 1 {
                    Some(WallpaperDimension::Pixels(v))
                } else {
                    None
                },
                _ => None,
            }
        }
    }

    /// Parse a size like `400x300`, `50%x50%` or `400x50%`: the two
    /// dimensions around the single `x`, or nothing when either side (or
    /// the shape) is bad.
    pub fn parse(s: &str) -> (r: Option<WallpaperSize>)
        ensures
            forall|i: int|
                0 <= i < s.spec_bytes().len() && s.spec_bytes()[i] == 0x78 && (forall|j: int|
                    0 <= j < s.spec_bytes().len() && j != i ==> s.spec_bytes()[j] != 0x78) ==> r
                    == match (
                    spec_parse_dimension(s.spec_bytes().take(i)),
                    spec_parse_dimension(s.spec_bytes().skip(i + 1)),
                ) {
                    (Some(w), Some(h)) => Some(WallpaperSize { width: w, height: h }),
                    _ => Option::None,
                },
            r matches Some(sz) ==> exists|i: int|
                0 <= i < s.spec_bytes().len() && #[trigger] s.spec_bytes()[i] == 0x78
                    && spec_parse_dimension(s.spec_bytes().take(i)) == Some(sz.width)
                    && spec_parse_dimension(s.spec_bytes().skip(i + 1)) == Some(sz.height),
    {
        let bytes = s.as_bytes();
        let split: usize = match find_unique(bytes, 0x78) {
            Some(i) => i,
            _ => {
                return None;
            },
        };
        let left = &bytes[0..split];
        let right = &bytes[split + 1..bytes.len()];
        proof {
            assert(left@ =~= s.spec_bytes().take(split as int));
            assert(right@ =~= s.spec_bytes().skip(split as int + 1));
        }
        match (Self::parse_dimension_bytes(left), Self::parse_dimension_bytes(right)) {
            (Some(w), Some(h)) => Some(WallpaperSize { width: w, height: h }),
            _ => None,
        }
    }

    /// Resolve the size to pixels for the given screen dimensions.
    pub fn resolve(&self, screen_w: u32, screen_h: u32) -> (r: (u32, u32))
        requires
            self.width is Percentage ==> screen_w * self.width->Percentage_0 <= u32::MAX,
            self.height is Percentage ==> screen_h * self.height->Percentage_0 <= u32::MAX,
        ensures
            r.0 == spec_resolve_dimension(self.width, screen_w),
            r.1 == spec_resolve_dimension(self.height, screen_h),
    {
        let w = match self.width {
            WallpaperDimension::Pixels(px) => px,
            WallpaperDimension::Percentage(pct) => {
                proof {
                    assert(screen_w * pct / 100 <= screen_w * pct);
                }
                let v = (screen_w * pct) / 100;
                if v >= 1 {
                    v
                } else {
                    1
                }
            },
        };
        let h = match self.height {
            WallpaperDimension::Pixels(px) => px,
            WallpaperDimension::Percentage(pct) => {
                proof {
                    assert(screen_h * pct / 100 <= screen_h * pct);
                }
                let v = (screen_h * pct) / 100;
                if v >= 1 {
                    v
                } else {
                    1
                }
            },
        };
        (w, h)
    }
}

/// Wallpaper positioning and sizing.
#[derive(Debug, Clone)]
pub struct WallpaperConfig {
    pub anchor: WallpaperAnchor,
    pub width: Option<WallpaperDimension>,
    pub height: Option<WallpaperDimension>,
    /// Uniform margin applied to every edge that has no margin of its own.
    pub margin: i32,
    pub margin_top: i32,
    pub margin_right: i32,
    pub margin_bottom: i32,
    pub margin_left: i32,
    pub multi_monitor: MultiMonitorMode,
    /// Only show on these outputs, when set.
    pub outputs: Option<Vec<String>>,
    /// Per-monitor overrides.
    pub monitors: Vec<MonitorConfig>,
}

impl WallpaperConfig {
    /// Effective margins `(top, right, bottom, left)`: each individual margin
    /// when non-zero, else the uniform margin.
    pub fn effective_margins(&self) -> (r: (i32, i32, i32, i32))
        ensures
            r.0 == if self.margin_top != 0 {
                self.margin_top
            } else {
                self.margin
            },
            r.1 == if self.margin_right != 0 {
                self.margin_right
            } else {
                self.margin
            },
            r.2 == if self.margin_bottom != 0 {
                self.margin_bottom
            } else {
                self.margin
            },
            r.3 == if self.margin_left != 0 {
                self.margin_left
            } else {
                self.margin
            },
    {
        let top = if self.margin_top != 0 {
            self.margin_top
        } else {
            self.margin
        };
        let right = if self.margin_right != 0 {
            self.margin_right
        } else {
            self.margin
        };
        let bottom = if self.margin_bottom != 0 {
            self.margin_bottom
        } else {
            self.margin
        };
        let left = if self.margin_left != 0 {
            self.margin_left
        } else {
            self.margin
        };
        (top, right, bottom, left)
    }

    /// Resolve the configured size against the screen, if any was set:
    /// a missing width falls back to the full screen width, a missing height
    /// to the full screen height; with neither set there is no size.
    pub fn get_size(&self, screen_w: u32, screen_h: u32) -> (r: Option<(u32, u32)>)
        requires
            self.width matches Some(WallpaperDimension::Percentage(p)) ==> screen_w * p
                <= u32::MAX,
            self.height matches Some(WallpaperDimension::Percentage(p)) ==> screen_h * p
                <= u32::MAX,
        ensures
            self.width is None && self.height is None ==> r is None,
            !(self.width is None && self.height is None) ==> r == Some(
                (
                    match self.width {
                        Some(w) => spec_resolve_dimension(w, screen_w),
                        None => screen_w,
                    },
                    match self.height {
                        Some(h) => spec_resolve_dimension(h, screen_h),
                        None => screen_h,
                    },
                ),
            ),
    {
        match (&self.width, &self.height) {
            (None, None) => None,
            (w, h) => {
                let rw = match w {
                    Some(d) => {
                        let size = WallpaperSize { width: *d, height: WallpaperDimension::Pixels(0) };
                        size.resolve(screen_w, 0).0
                    },
                    None => screen_w,
                };
                let rh = match h {
                    Some(d) => {
                        let size = WallpaperSize { width: WallpaperDimension::Pixels(0), height: *d };
                        size.resolve(0, screen_h).1
                    },
                    None => screen_h,
                };
                Some((rw, rh))
            },
        }
    }
}

/// The whole configuration.
#[derive(Debug, Clone)]
pub struct Config {
    pub display: DisplayConfig,
    pub audio: AudioConfig,
    pub visualizer: VisualizerConfig,
    pub text: TextConfig,
    pub wallpaper: WallpaperConfig,
}


impl TextPosition {
    /// Parse a position: `top`, `bottom` or `center` (case-insensitive),
    /// or a coordinate pair `X,Y` around a single comma, each side pixels
    /// or a percentage.
    pub fn parse(s: &str) -> (r: Option<TextPosition>)
        ensures
            (spec_trim(s.spec_bytes()).len() == 3 && crate::color::spec_lower_byte(spec_trim(s.spec_bytes())[0]) == 0x74 && crate::color::spec_lower_byte(spec_trim(s.spec_bytes())[1]) == 0x6f && crate::color::spec_lower_byte(spec_trim(s.spec_bytes())[2]) == 0x70) ==> r == Some(TextPosition::Top),
            (spec_trim(s.spec_bytes()).len() == 6 && crate::color::spec_lower_byte(spec_trim(s.spec_bytes())[0]) == 0x62 && crate::color::spec_lower_byte(spec_trim(s.spec_bytes())[1]) == 0x6f && crate::color::spec_lower_byte(spec_trim(s.spec_bytes())[2]) == 0x74 && crate::color::spec_lower_byte(spec_trim(s.spec_bytes())[3]) == 0x74 && crate::color::spec_lower_byte(spec_trim(s.spec_bytes())[4]) == 0x6f && crate::color::spec_lower_byte(spec_trim(s.spec_bytes())[5]) == 0x6d) ==> r == Some(TextPosition::Bottom),
            (spec_trim(s.spec_bytes()).len() == 6 && crate::color::spec_lower_byte(spec_trim(s.spec_bytes())[0]) == 0x63 && crate::color::spec_lower_byte(spec_trim(s.spec_bytes())[1]) == 0x65 && crate::color::spec_lower_byte(spec_trim(s.spec_bytes())[2]) == 0x6e && crate::color::spec_lower_byte(spec_trim(s.spec_bytes())[3]) == 0x74 && crate::color::spec_lower_byte(spec_trim(s.spec_bytes())[4]) == 0x65 && crate::color::spec_lower_byte(spec_trim(s.spec_bytes())[5]) == 0x72) ==> r == Some(TextPosition::Center),
            forall|i: int|
                0 <= i < spec_trim(s.spec_bytes()).len() && #[trigger] spec_trim(
                    s.spec_bytes(),
                )[i] == 0x2c && (forall|j: int|
                    0 <= j < spec_trim(s.spec_bytes()).len() && j != i ==> spec_trim(
                        s.spec_bytes(),
                    )[j] != 0x2c) && !(spec_trim(s.spec_bytes()).len() == 3 && crate::color::spec_lower_byte(spec_trim(s.spec_bytes())[0]) == 0x74 && crate::color::spec_lower_byte(spec_trim(s.spec_bytes())[1]) == 0x6f && crate::color::spec_lower_byte(spec_trim(s.spec_bytes())[2]) == 0x70) && !(spec_trim(s.spec_bytes()).len() == 6 && crate::color::spec_lower_byte(spec_trim(s.spec_bytes())[0]) == 0x62 && crate::color::spec_lower_byte(spec_trim(s.spec_bytes())[1]) == 0x6f && crate::color::spec_lower_byte(spec_trim(s.spec_bytes())[2]) == 0x74 && crate::color::spec_lower_byte(spec_trim(s.spec_bytes())[3]) == 0x74 && crate::color::spec_lower_byte(spec_trim(s.spec_bytes())[4]) == 0x6f && crate::color::spec_lower_byte(spec_trim(s.spec_bytes())[5]) == 0x6d)
                    && !(spec_trim(s.spec_bytes()).len() == 6 && crate::color::spec_lower_byte(spec_trim(s.spec_bytes())[0]) == 0x63 && crate::color::spec_lower_byte(spec_trim(s.spec_bytes())[1]) == 0x65 && crate::color::spec_lower_byte(spec_trim(s.spec_bytes())[2]) == 0x6e && crate::color::spec_lower_byte(spec_trim(s.spec_bytes())[3]) == 0x74 && crate::color::spec_lower_byte(spec_trim(s.spec_bytes())[4]) == 0x65 && crate::color::spec_lower_byte(spec_trim(s.spec_bytes())[5]) == 0x72) ==> r == match (
                spec_parse_coord(spec_trim(s.spec_bytes()).take(i)),
                spec_parse_coord(spec_trim(s.spec_bytes()).skip(i + 1)),
            ) {
                (Some(x), Some(y)) => Some(TextPosition::Coordinates { x, y }),
                _ => Option::None,
            },
    {
        let t = trim_bytes(s.as_bytes());
        if t.len() == 3 && crate::color::lower_byte(t[0]) == 0x74 && crate::color::lower_byte(t[1]) == 0x6f && crate::color::lower_byte(t[2]) == 0x70 {
            return Some(TextPosition::Top);
        }
        if t.len() == 6 && crate::color::lower_byte(t[0]) == 0x62 && crate::color::lower_byte(t[1]) == 0x6f && crate::color::lower_byte(t[2]) == 0x74 && crate::color::lower_byte(t[3]) == 0x74 && crate::color::lower_byte(t[4]) == 0x6f && crate::color::lower_byte(t[5]) == 0x6d {
            return Some(TextPosition::Bottom);
        }
        if t.len() == 6 && crate::color::lower_byte(t[0]) == 0x63 && crate::color::lower_byte(t[1]) == 0x65 && crate::color::lower_byte(t[2]) == 0x6e && crate::color::lower_byte(t[3]) == 0x74 && crate::color::lower_byte(t[4]) == 0x65 && crate::color::lower_byte(t[5]) == 0x72 {
            return Some(TextPosition::Center);
        }
        let split: usize = match find_unique(t, 0x2c) {
            Some(i) => i,
            _ => {
                return None;
            },
        };
        let left = &t[0..split];
        let right = &t[split + 1..t.len()];
        proof {
            assert(left@ =~= spec_trim(s.spec_bytes()).take(split as int));
            assert(right@ =~= spec_trim(s.spec_bytes()).skip(split as int + 1));
        }
        match (parse_coord_bytes(left), parse_coord_bytes(right)) {
            (Some(x), Some(y)) => Some(TextPosition::Coordinates { x, y }),
            _ => None,
        }
    }
}


/// The default opacity: fully opaque.
pub fn default_opacity() -> (r: u32)
    ensures
        r == 1000,
{
    1000
}

impl Default for TextPosition {
    /// Text sits at the bottom by default.
    fn default() -> (r: TextPosition)
        ensures
            r == TextPosition::Bottom,
    {
        TextPosition::Bottom
    }
}

impl Default for DisplayMode {
    fn default() -> (r: DisplayMode)
        ensures
            r == DisplayMode::Terminal,
    {
        DisplayMode::Terminal
    }
}

impl Default for MultiMonitorMode {
    fn default() -> (r: MultiMonitorMode)
        ensures
            r == MultiMonitorMode::Clone,
    {
        MultiMonitorMode::Clone
    }
}

impl Default for FontStyle {
    fn default() -> (r: FontStyle)
        ensures
            r == FontStyle::Normal,
    {
        FontStyle::Normal
    }
}

impl Default for TextAlignment {
    fn default() -> (r: TextAlignment)
        ensures
            r == TextAlignment::Center,
    {
        TextAlignment::Center
    }
}

impl Default for TextAnimation {
    fn default() -> (r: TextAnimation)
        ensures
            r == TextAnimation::Scroll,
    {
        TextAnimation::Scroll
    }
}

impl Default for WallpaperAnchor {
    fn default() -> (r: WallpaperAnchor)
        ensures
            r == WallpaperAnchor::Fullscreen,
    {
        WallpaperAnchor::Fullscreen
    }
}

impl Default for WallpaperConfig {
    /// Fullscreen, no margins, no size, cloned to every monitor.
    fn default() -> (r: WallpaperConfig)
        ensures
            r.anchor == WallpaperAnchor::Fullscreen,
            r.width is None,
            r.height is None,
            r.margin == 0 && r.margin_top == 0 && r.margin_right == 0 && r.margin_bottom == 0
                && r.margin_left == 0,
            r.multi_monitor == MultiMonitorMode::Clone,
            r.outputs is None,
            r.monitors.len() == 0,
    {
        WallpaperConfig {
            anchor: WallpaperAnchor::Fullscreen,
            width: Option::None,
            height: Option::None,
            margin: 0,
            margin_top: 0,
            margin_right: 0,
            margin_bottom: 0,
            margin_left: 0,
            multi_monitor: MultiMonitorMode::Clone,
            outputs: Option::None,
            monitors: Vec::new(),
        }
    }
}

impl Default for TextConfig {
    /// Title and artist shown at the bottom center, scrolling, with the
    /// scheme gradient.
    fn default() -> (r: TextConfig)
        ensures
            r.show_title && r.show_artist,
            r.animation_speed == 1000,
            r.pulse_intensity == 800,
            r.position == TextPosition::Bottom,
            r.font_style == FontStyle::Normal,
            r.alignment == TextAlignment::Center,
            r.animation_style == TextAnimation::Scroll,
            r.margin_top == 0 && r.margin_bottom == 0 && r.margin_horizontal == 2,
            r.title_color is None && r.artist_color is None && r.background_color is None,
            r.use_color_scheme,
    {
        TextConfig {
            show_title: true,
            show_artist: true,
            animation_speed: 1000,
            pulse_intensity: 800,
            position: TextPosition::Bottom,
            font_style: FontStyle::Normal,
            alignment: TextAlignment::Center,
            animation_style: TextAnimation::Scroll,
            margin_top: 0,
            margin_bottom: 0,
            margin_horizontal: 2,
            title_color: Option::None,
            artist_color: Option::None,
            background_color: Option::None,
            use_color_scheme: true,
        }
    }
}

impl Default for Config {
    /// The stock configuration: terminal display, 44.1 kHz capture with
    /// 0.7 smoothing, 64 spectrum bars, default text and wallpaper
    /// settings.
    fn default() -> (r: Config)
        ensures
            r.display.mode == DisplayMode::Terminal,
            !r.display.rotate_styles,
            r.display.rotation_interval_secs == 30,
            r.audio.device is None,
            r.audio.sample_rate == 44100,
            r.audio.buffer_size == 1024,
            r.audio.smoothing == 700,
            r.audio.sensitivity == 1000,
            r.visualizer.bars == 64,
            r.visualizer.color_scheme == ColorScheme::Spectrum,
            r.visualizer.bar_width == 2,
            r.visualizer.bar_spacing == 1,
            !r.visualizer.mirror,
            !r.visualizer.reverse_mirror,
            r.visualizer.opacity == 1000,
            r.text.show_title,
            r.wallpaper.anchor == WallpaperAnchor::Fullscreen,
    {
        Config {
            display: DisplayConfig {
                mode: DisplayMode::Terminal,
                rotate_styles: false,
                rotation_interval_secs: 30,
            },
            audio: AudioConfig {
                device: Option::None,
                sample_rate: 44100,
                buffer_size: 1024,
                smoothing: 700,
                sensitivity: 1000,
            },
            visualizer: VisualizerConfig {
                bars: 64,
                color_scheme: ColorScheme::Spectrum,
                bar_width: 2,
                bar_spacing: 1,
                mirror: false,
                reverse_mirror: false,
                opacity: 1000,
            },
            text: TextConfig::default(),
            wallpaper: WallpaperConfig::default(),
        }
    }
}

} // verus!
