//! Placement geometry for terminal-cell output: where the render area
//! sits inside the terminal, and how bars distribute over columns.

use vstd::prelude::*;

use crate::config::{WallpaperAnchor, WallpaperConfig, WallpaperDimension};

verus! {

/// Evenly distributed column of bar `i` out of `count` over `width`
/// columns, in integer math so the distribution carries no rounding drift.
pub fn bar_x_position(i: usize, count: usize, width: u16) -> (r: u16)
    requires
        count == 0 || i <= count,
    ensures
        count == 0 ==> r == 0,
        count >= 1 ==> r == (i as int) * (width as int) / (count as int),
{
    if count == 0 {
        return 0;
    }
    proof {
        assert(0 <= (i as int) * (width as int) <= u128::MAX && (i as int) * (width as int) <= (
        count as int) * (width as int) && (i as int) * (width as int) / (count as int)
            <= width) by (nonlinear_arith)
            requires
                0 <= i <= count && 1 <= count && 0 <= width && i <= usize::MAX && width <= u16::MAX,
        ;
    }
    (((i as u128) * (width as u128)) / (count as u128)) as u16
}

/// The bar width that fills one slot of `slot_width` columns in the same
/// proportion as the configured bar width to its slot, rounded, at least 1
/// and at most the slot.
pub fn calculate_bar_dimensions(slot_width: u16, bar_width: u16, bar_spacing: u16) -> (r: u16)
    ensures
        slot_width == 0 ==> r == 0,
        slot_width >= 1 && bar_width + bar_spacing == 0 ==> r == 1,
        slot_width >= 1 && bar_width + bar_spacing >= 1 ==> ({
            let rounded = (2 * slot_width * bar_width + (bar_width + bar_spacing)) / (2 * (
            bar_width + bar_spacing));
            let floored = if rounded >= 1 {
                rounded
            } else {
                1
            };
            r == if floored <= slot_width {
                floored
            } else {
                slot_width as int
            }
        }),
{
    if slot_width == 0 {
        return 0;
    }
    let denom: u32 = bar_width as u32 + bar_spacing as u32;
    if denom == 0 {
        return 1;
    }
    proof {
        assert(0 <= 2 * (slot_width as int) * (bar_width as int) <= 2 * 65535 * 65535)
            by (nonlinear_arith)
            requires
                slot_width <= 65535 && bar_width <= 65535 && 0 <= slot_width && 0 <= bar_width,
        ;
    }
    let rounded: u64 = (2 * (slot_width as u64) * (bar_width as u64) + denom as u64) / (2
        * denom as u64);
    let floored: u64 = if rounded >= 1 {
        rounded
    } else {
        1
    };
    if floored <= slot_width as u64 {
        floored as u16
    } else {
        slot_width
    }
}

/// A margin from the configuration, clamped to the non-negative `u16`
/// range.
pub open spec fn spec_margin16(m: int) -> int {
    if m < 0 {
        0
    } else if m > 65535 {
        65535
    } else {
        m
    }
}

/// Clamp a configured margin into the non-negative `u16` range.
fn clamp_margin(m: i32) -> (r: u16)
    ensures
        r == spec_margin16(m as int),
{
    if m < 0 {
        0
    } else if m > 65535 {
        65535
    } else {
        m as u16
    }
}

/// Saturating subtraction.
pub open spec fn spec_sat_sub(a: int, b: int) -> int {
    if a >= b {
        a - b
    } else {
        0
    }
}

/// Where the render area sits inside a terminal of `tw` by `th` cells:
/// `(x, y, width, height)`. Margins carve out the available area, a
/// configured size shrinks it further, and the anchor places it; a
/// fullscreen anchor uses the whole terminal.
#[verifier::rlimit(30)]
pub fn calculate_render_area(config: &WallpaperConfig, term_width: u16, term_height: u16) -> (r: (
    u16,
    u16,
    u16,
    u16,
))
    requires
        config.width matches Some(WallpaperDimension::Percentage(p)) ==> p <= 60000,
        config.height matches Some(WallpaperDimension::Percentage(p)) ==> p <= 60000,
    ensures
        config.anchor == WallpaperAnchor::Fullscreen ==> r == (
            0u16,
            0u16,
            term_width,
            term_height,
        ),
        config.anchor != WallpaperAnchor::Fullscreen ==> ({
            let ml = spec_margin16(
                if config.margin_left != 0 {
                    config.margin_left as int
                } else {
                    config.margin as int
                },
            );
            let mr = spec_margin16(
                if config.margin_right != 0 {
                    config.margin_right as int
                } else {
                    config.margin as int
                },
            );
            let mt = spec_margin16(
                if config.margin_top != 0 {
                    config.margin_top as int
                } else {
                    config.margin as int
                },
            );
            let mb = spec_margin16(
                if config.margin_bottom != 0 {
                    config.margin_bottom as int
                } else {
                    config.margin as int
                },
            );
            let avail_w = spec_sat_sub(term_width as int, ml + mr);
            let avail_h = spec_sat_sub(term_height as int, mt + mb);
            &&& r.2 <= avail_w
            &&& r.3 <= avail_h
            &&& r.0 >= ml || avail_w == 0
            &&& r.1 >= mt || avail_h == 0
            &&& r.0 + r.2 <= ml + avail_w
            &&& r.1 + r.3 <= mt + avail_h
        }),
{
    let (m_top, m_right, m_bottom, m_left) = config.effective_margins();
    let margin_top: u16 = clamp_margin(m_top);
    let margin_right: u16 = clamp_margin(m_right);
    let margin_bottom: u16 = clamp_margin(m_bottom);
    let margin_left: u16 = clamp_margin(m_left);
    let h_margins: u32 = margin_left as u32 + margin_right as u32;
    let v_margins: u32 = margin_top as u32 + margin_bottom as u32;
    let available_width: u16 = if (term_width as u32) >= h_margins {
        (term_width as u32 - h_margins) as u16
    } else {
        0
    };
    let available_height: u16 = if (term_height as u32) >= v_margins {
        (term_height as u32 - v_margins) as u16
    } else {
        0
    };
    proof {
        match config.width {
            Some(WallpaperDimension::Percentage(p)) => {
                assert((term_width as int) * (p as int) <= u32::MAX) by (nonlinear_arith)
                    requires
                        term_width <= 65535 && p <= 60000,
                ;
            },
            _ => {},
        }
        match config.height {
            Some(WallpaperDimension::Percentage(p)) => {
                assert((term_height as int) * (p as int) <= u32::MAX) by (nonlinear_arith)
                    requires
                        term_height <= 65535 && p <= 60000,
                ;
            },
            _ => {},
        }
    }
    let (width, height): (u16, u16) = match config.get_size(
        term_width as u32,
        term_height as u32,
    ) {
        Some((w, h)) => {
            let cw: u16 = if w <= available_width as u32 {
                w as u16
            } else {
                available_width
            };
            let ch: u16 = if h <= available_height as u32 {
                h as u16
            } else {
                available_height
            };
            (cw, ch)
        },
        _ => (available_width, available_height),
    };
    let slack_w: u16 = available_width - width;
    let slack_h: u16 = available_height - height;
    let (x, y): (u16, u16) = match config.anchor {
        WallpaperAnchor::TopLeft => (margin_left, margin_top),
        WallpaperAnchor::Top => (margin_left + slack_w / 2, margin_top),
        WallpaperAnchor::TopRight => (margin_left + slack_w, margin_top),
        WallpaperAnchor::Left => (margin_left, margin_top + slack_h / 2),
        WallpaperAnchor::Center => (margin_left + slack_w / 2, margin_top + slack_h / 2),
        WallpaperAnchor::Right => (margin_left + slack_w, margin_top + slack_h / 2),
        WallpaperAnchor::BottomLeft => (margin_left, margin_top + slack_h),
        WallpaperAnchor::Bottom => (margin_left + slack_w / 2, margin_top + slack_h),
        WallpaperAnchor::BottomRight => (margin_left + slack_w, margin_top + slack_h),
        WallpaperAnchor::Fullscreen => (0, 0),
    };
    if config.anchor == WallpaperAnchor::Fullscreen {
        (0, 0, term_width, term_height)
    } else {
        (x, y, width, height)
    }
}

} // verus!
