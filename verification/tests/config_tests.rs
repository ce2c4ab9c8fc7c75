use cavibe::color::ColorScheme;
use cavibe::config::{
    default_true, parse_coord_value, Config, CoordValue, RgbColor, TextPosition, WallpaperAnchor,
    WallpaperConfig, WallpaperDimension, WallpaperSize,
};
use cavibe::font::{ascii_width, figlet_width, get_ascii_char, get_char_bitmap, get_figlet_char,
    render_ascii, render_figlet};
use cavibe::geometry::{bar_x_position, calculate_bar_dimensions, calculate_render_area};
use cavibe::state::{PendingChanges, VisualizerState};
use cavibe::track::TrackInfo;
use cavibe::trig::{cos_deg, sin_deg};

#[test]
fn hex_colors_parse_exactly() {
    assert_eq!(RgbColor::from_hex("#FF0000"), Some(RgbColor { r: 255, g: 0, b: 0 }));
    assert_eq!(RgbColor::from_hex("00ff7f"), Some(RgbColor { r: 0, g: 255, b: 127 }));
    assert_eq!(RgbColor::from_hex("#12345"), None);
    assert_eq!(RgbColor::from_hex("1234567"), None);
    assert_eq!(RgbColor::from_hex("#GG0000"), None);
    assert_eq!(RgbColor::from_hex(""), None);
    // Any number of leading hashes is stripped.
    assert_eq!(RgbColor::from_hex("##FF0000"), Some(RgbColor { r: 255, g: 0, b: 0 }));
    assert_eq!(RgbColor::from_hex("###00FF00"), Some(RgbColor { r: 0, g: 255, b: 0 }));
}

#[test]
fn coord_values_resolve() {
    assert_eq!(CoordValue::Pixels(120).resolve(500), 120);
    assert_eq!(CoordValue::Pixels(-5).resolve(500), 0);
    assert_eq!(CoordValue::Percent(50).resolve(500), 250);
    assert_eq!(CoordValue::Percent(25).resolve(801), 200);
}

#[test]
fn coord_values_parse() {
    assert_eq!(parse_coord_value("120"), Some(CoordValue::Pixels(120)));
    assert_eq!(parse_coord_value(" -40 "), Some(CoordValue::Pixels(-40)));
    assert_eq!(parse_coord_value("75%"), Some(CoordValue::Percent(75)));
    assert_eq!(parse_coord_value("abc"), None);
    assert_eq!(parse_coord_value(""), None);
    assert_eq!(parse_coord_value("%"), None);
}

#[test]
fn text_positions_parse() {
    assert_eq!(TextPosition::parse("top"), Some(TextPosition::Top));
    assert_eq!(TextPosition::parse(" Bottom "), Some(TextPosition::Bottom));
    assert_eq!(TextPosition::parse("CENTER"), Some(TextPosition::Center));
    assert_eq!(
        TextPosition::parse("200,600"),
        Some(TextPosition::Coordinates {
            x: CoordValue::Pixels(200),
            y: CoordValue::Pixels(600)
        })
    );
    assert_eq!(
        TextPosition::parse("25%,75%"),
        Some(TextPosition::Coordinates {
            x: CoordValue::Percent(25),
            y: CoordValue::Percent(75)
        })
    );
    assert_eq!(TextPosition::parse("somewhere"), None);
    assert_eq!(TextPosition::parse("1,2,3"), None);
}

#[test]
fn wallpaper_sizes_parse_and_resolve() {
    let s = WallpaperSize::parse("400x300").unwrap();
    assert_eq!(s.width, WallpaperDimension::Pixels(400));
    assert_eq!(s.height, WallpaperDimension::Pixels(300));
    assert_eq!(s.resolve(1920, 1080), (400, 300));

    let p = WallpaperSize::parse("50%x50%").unwrap();
    assert_eq!(p.resolve(1920, 1080), (960, 540));

    let m = WallpaperSize::parse("400x50%").unwrap();
    assert_eq!(m.resolve(1920, 1080), (400, 540));

    assert!(WallpaperSize::parse("400").is_none());
    assert!(WallpaperSize::parse("400x300x200").is_none());
    assert!(WallpaperSize::parse("0x300").is_none());
    assert!(WallpaperSize::parse("400x101%").is_none());
}

#[test]
fn wallpaper_margins_and_size() {
    let mut wc = WallpaperConfig::default();
    wc.margin = 12;
    assert_eq!(wc.effective_margins(), (12, 12, 12, 12));
    wc.margin_top = 3;
    wc.margin_left = -1;
    assert_eq!(wc.effective_margins(), (3, 12, 12, -1));

    assert_eq!(wc.get_size(800, 600), None);
    wc.width = Some(WallpaperDimension::Percentage(50));
    assert_eq!(wc.get_size(800, 600), Some((400, 600)));
    wc.height = Some(WallpaperDimension::Pixels(240));
    assert_eq!(wc.get_size(800, 600), Some((400, 240)));
}

#[test]
fn render_area_fullscreen_and_center() {
    let mut wc = WallpaperConfig::default();
    assert_eq!(calculate_render_area(&wc, 120, 40), (0, 0, 120, 40));
    wc.anchor = WallpaperAnchor::Center;
    wc.margin = 2;
    wc.width = Some(WallpaperDimension::Pixels(20));
    wc.height = Some(WallpaperDimension::Pixels(10));
    let (x, y, w, h) = calculate_render_area(&wc, 120, 40);
    assert_eq!((w, h), (20, 10));
    assert_eq!(x, 2 + (116 - 20) / 2);
    assert_eq!(y, 2 + (36 - 10) / 2);
}

#[test]
fn bar_positions_distribute_evenly() {
    assert_eq!(bar_x_position(0, 8, 80), 0);
    assert_eq!(bar_x_position(4, 8, 80), 40);
    assert_eq!(bar_x_position(8, 8, 80), 80);
    assert_eq!(bar_x_position(3, 0, 80), 0);
    assert_eq!(calculate_bar_dimensions(10, 2, 1), 7);
    assert_eq!(calculate_bar_dimensions(0, 2, 1), 0);
    assert_eq!(calculate_bar_dimensions(10, 0, 0), 1);
}

#[test]
fn scheme_names_parse_case_insensitively() {
    assert_eq!(ColorScheme::from_name("spectrum"), Some(ColorScheme::Spectrum));
    assert_eq!(ColorScheme::from_name("Rainbow"), Some(ColorScheme::Rainbow));
    assert_eq!(ColorScheme::from_name("FIRE"), Some(ColorScheme::Fire));
    assert_eq!(ColorScheme::from_name("mono"), Some(ColorScheme::Monochrome));
    assert_eq!(ColorScheme::from_name("monochrome"), Some(ColorScheme::Monochrome));
    assert_eq!(ColorScheme::from_name("neon"), None);
}

#[test]
fn default_config_matches_stock_settings() {
    let c = Config::default();
    assert_eq!(c.audio.sample_rate, 44100);
    assert_eq!(c.audio.smoothing, 700);
    assert_eq!(c.visualizer.bars, 64);
    assert_eq!(c.visualizer.bar_width, 2);
    assert_eq!(c.visualizer.opacity, 1000);
    assert!(c.text.show_title && c.text.show_artist);
    assert_eq!(c.text.margin_horizontal, 2);
    assert!(default_true());
}

#[test]
fn track_info_display_text() {
    let mut t = TrackInfo::default();
    assert!(!t.has_info());
    assert_eq!(t.display_text(), "");
    t.title = Some(String::from("Tune"));
    assert!(t.has_info());
    assert_eq!(t.display_text(), "Tune");
    t.artist = Some(String::from("Band"));
    assert_eq!(t.display_text(), "Band - Tune");
    t.title = None;
    assert_eq!(t.display_text(), "Band");
}

#[test]
fn visualizer_state_cycles_and_clocks() {
    let mut s = VisualizerState::new(6);
    assert_eq!(s.current_style, 6);
    s.next_style();
    assert_eq!(s.current_style, 7);
    s.next_style();
    assert_eq!(s.current_style, 0);
    s.prev_style();
    assert_eq!(s.current_style, 7);
    s.update(16);
    s.update(16);
    assert_eq!(s.time_ms, 32);
    assert_eq!(s.current_style_name(), "Radial");
    let fresh = VisualizerState::new(99);
    assert_eq!(fresh.current_style, 0);
    assert_eq!(fresh.current_style_name(), "Classic Bars");
    let pc = PendingChanges::default();
    assert!(!pc.layer_change && !pc.surface_update && !pc.drag_changed && !pc.save_config);
}

#[test]
fn fonts_cover_basic_glyphs() {
    assert!(get_char_bitmap('A').is_some());
    assert_eq!(get_char_bitmap('a'), get_char_bitmap('A'));
    assert!(get_char_bitmap('~').is_none());
    assert_eq!(
        get_char_bitmap('A'),
        Some([0x18, 0x24, 0x42, 0x7E, 0x42, 0x42, 0x42, 0x00])
    );
    assert_eq!(get_ascii_char('A'), Some([" A ", "A A", "AAA"]));
    assert!(get_figlet_char('z').is_some());
    assert_eq!(ascii_width("AB"), 6);
    assert!(figlet_width("AB") >= 8);
    let rows = render_ascii("HI");
    assert_eq!(rows.len(), 3);
    assert_eq!(rows[0], "H HIII");
    let frows = render_figlet("A");
    assert_eq!(frows.len(), 5);
    assert!(frows.iter().all(|r| r.len() == frows[0].len()));
}

#[test]
fn integer_trig_hits_cardinal_points() {
    assert_eq!(sin_deg(0), 0);
    assert_eq!(sin_deg(90), 1000);
    assert_eq!(sin_deg(180), 0);
    assert_eq!(sin_deg(270), -1000);
    assert_eq!(cos_deg(0), 1000);
    assert_eq!(cos_deg(180), -1000);
    // Within a few milli units of the real value elsewhere.
    assert!((sin_deg(30) - 500).abs() <= 5);
    assert!((sin_deg(45) - 707).abs() <= 5);
}
