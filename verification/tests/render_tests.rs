use cavibe::canvas::Canvas;
use cavibe::color::ColorScheme;
use cavibe::config::{TextAlignment, TextAnimation, TextConfig, TextPosition};
use cavibe::layout::compute_bar_layout;
use cavibe::renderer::{render_frame, FrameData, RenderParams};
use cavibe::styles::{render_bars, style_count};
use cavibe::text::{build_display_text, render_char};

fn no_text_config() -> TextConfig {
    let mut tc = TextConfig::default();
    tc.show_title = false;
    tc.show_artist = false;
    tc
}

fn params(style: usize) -> RenderParams {
    RenderParams {
        style,
        bar_width: 8,
        bar_spacing: 2,
        mirror: false,
        reverse_mirror: false,
        opacity: 1000,
        color_scheme: ColorScheme::Spectrum,
        waveform: vec![0, 500, -500, 1000, -1000, 250, -250, 0],
        spectrogram_history: vec![vec![100, 900, 100, 900], vec![900, 100, 900, 100]],
        text_config: no_text_config(),
    }
}

fn alternating_frequencies() -> Vec<u32> {
    vec![100, 900, 100, 900, 100, 900, 100, 900]
}

#[test]
fn canvas_new_clear_put_get() {
    let mut c = Canvas::new(10, 5);
    assert_eq!(c.data.len(), 10 * 5 * 4);
    c.put_pixel(3, 2, 200, 100, 50, 1000);
    assert_eq!(c.get_pixel(3, 2), (200, 100, 50, 255));
    // Half opacity premultiplies the channels.
    c.put_pixel(4, 2, 200, 100, 50, 500);
    assert_eq!(c.get_pixel(4, 2), (100, 50, 25, 127));
    // Out-of-range writes are dropped.
    c.put_pixel(10, 2, 255, 255, 255, 1000);
    c.put_pixel(3, 5, 255, 255, 255, 1000);
    assert_eq!(c.get_pixel(10, 2), (0, 0, 0, 0));
    c.clear();
    assert!(c.data.iter().all(|&b| b == 0));
}

#[test]
fn canvas_resize_grows_but_never_shrinks() {
    let mut c = Canvas::new(4, 4);
    c.resize(8, 8);
    assert_eq!(c.width, 8);
    assert_eq!(c.height, 8);
    assert!(c.data.len() >= 8 * 8 * 4);
    let grown = c.data.len();
    c.resize(2, 2);
    assert_eq!(c.width, 2);
    assert_eq!(c.data.len(), grown);
}

#[test]
fn write_argb8888_is_a_byte_permutation() {
    let mut c = Canvas::new(3, 2);
    for y in 0..2 {
        for x in 0..3 {
            c.put_pixel(x, y, (10 + x * 20) as u8, (5 + y * 40) as u8, 77, 1000);
        }
    }
    let mut dest = vec![0u8; 3 * 2 * 4];
    c.write_argb8888(&mut dest);
    for i in 0..6 {
        assert_eq!(dest[i * 4], c.data[i * 4 + 2]); // B
        assert_eq!(dest[i * 4 + 1], c.data[i * 4 + 1]); // G
        assert_eq!(dest[i * 4 + 2], c.data[i * 4]); // R
        assert_eq!(dest[i * 4 + 3], c.data[i * 4 + 3]); // A
    }
    assert_eq!(dest.len(), 3 * 2 * 4);
}

#[test]
fn layout_classic_example_eight_bars() {
    // 8 bars on an 80x40 canvas with 8px bars and 2px spacing.
    let freqs = alternating_frequencies();
    let p = params(0);
    let layout = compute_bar_layout(80, 40, &freqs, &p).unwrap();
    assert_eq!(layout.displayable, 8);
    assert_eq!(layout.slot_width, 10);
    assert_eq!(layout.start_x, 0);
    assert_eq!(layout.bars_height, 40);
    assert_eq!(layout.render_frequencies, freqs);
}

#[test]
fn classic_bars_reach_expected_rows() {
    let freqs = alternating_frequencies();
    let p = params(0);
    let mut c = Canvas::new(80, 40);
    render_frame(&mut c, &frame_data(&freqs), &p);
    // Bar 1 (magnitude 0.9) is 36 rows tall: rows 4..=39 of its columns.
    assert_ne!(c.get_pixel(10, 4), (0, 0, 0, 0));
    assert_eq!(c.get_pixel(10, 3), (0, 0, 0, 0));
    // Bar 0 (magnitude 0.1) is 4 rows tall: rows 36..=39.
    assert_ne!(c.get_pixel(0, 36), (0, 0, 0, 0));
    assert_eq!(c.get_pixel(0, 35), (0, 0, 0, 0));
    // Spacing columns stay empty.
    assert_eq!(c.get_pixel(8, 39), (0, 0, 0, 0));
}

fn frame_data(freqs: &[u32]) -> FrameData {
    FrameData {
        frequencies: freqs.to_vec(),
        intensity: 500,
        track_title: None,
        track_artist: None,
        time_ms: 1234,
    }
}

#[test]
fn mirror_places_first_source_on_both_edges() {
    let freqs: Vec<u32> = vec![111, 222, 333, 444, 555, 666, 777, 888];
    let mut p = params(0);
    p.mirror = true;
    p.reverse_mirror = false;
    let layout = compute_bar_layout(80, 40, &freqs, &p).unwrap();
    assert_eq!(layout.displayable, 8);
    assert_eq!(layout.render_frequencies[0], freqs[0]);
    assert_eq!(layout.render_frequencies[7], freqs[0]);
    // Reversed: low frequencies meet in the middle instead.
    p.reverse_mirror = true;
    let layout2 = compute_bar_layout(80, 40, &freqs, &p).unwrap();
    assert_eq!(layout2.render_frequencies[3], freqs[0]);
    assert_eq!(layout2.render_frequencies[4], freqs[0]);
}

#[test]
fn plain_reverse_flips_left_to_right() {
    let freqs: Vec<u32> = vec![111, 222, 333, 444, 555, 666, 777, 888];
    let mut p = params(0);
    p.reverse_mirror = true;
    let layout = compute_bar_layout(80, 40, &freqs, &p).unwrap();
    assert_eq!(layout.render_frequencies[0], freqs[7]);
    assert_eq!(layout.render_frequencies[7], freqs[0]);
}

#[test]
fn layout_degenerate_inputs_give_no_layout() {
    let p = params(0);
    assert!(compute_bar_layout(80, 40, &Vec::new(), &p).is_none());
    // No room for a single slot.
    let freqs = alternating_frequencies();
    assert!(compute_bar_layout(5, 40, &freqs, &p).is_none());
    // Zero height leaves no band.
    assert!(compute_bar_layout(80, 0, &freqs, &p).is_none());
    // A zero slot width degrades to no layout at all.
    let mut z = params(0);
    z.bar_width = 0;
    z.bar_spacing = 0;
    assert!(compute_bar_layout(80, 40, &freqs, &z).is_none());
}

#[test]
fn render_frame_fully_overwrites_previous_style() {
    let freqs = alternating_frequencies();
    let frame = frame_data(&freqs);
    // Draw the radial style over a canvas that previously held classic
    // bars, and the same radial frame on a fresh canvas: identical bytes.
    let mut reused = Canvas::new(64, 48);
    render_frame(&mut reused, &frame, &params(0));
    render_frame(&mut reused, &frame, &params(7));
    let mut fresh = Canvas::new(64, 48);
    render_frame(&mut fresh, &frame, &params(7));
    assert_eq!(reused.data, fresh.data);
}

#[test]
fn every_style_renders_and_respects_the_band() {
    let freqs = alternating_frequencies();
    for style in 0..style_count() {
        let mut p = params(style);
        // Reserve a text band at the bottom so the bar band is rows 0..h-60.
        p.text_config = TextConfig::default();
        p.text_config.position = TextPosition::Bottom;
        let mut c = Canvas::new(100, 100);
        // Paint a sentinel inside the text band; bars must not touch it.
        c.put_pixel(50, 95, 9, 9, 9, 1000);
        let sentinel = c.get_pixel(50, 95);
        render_bars(&mut c, &freqs, &p);
        assert_eq!(c.get_pixel(50, 95), sentinel, "style {} wrote outside its band", style);
    }
}

#[test]
fn monochrome_is_neutral_gray_and_monotone() {
    let (r, g, b) = ColorScheme::Monochrome.get_color(500, 800);
    assert_eq!(r, g);
    assert_eq!(g, b);
    assert_eq!(r, 163); // 0.8 * 0.8 * 255, rounded down
    let mut last = 0u8;
    for it in [0u32, 200, 400, 600, 800, 1000] {
        let (rr, _, _) = ColorScheme::Monochrome.get_color(500, it);
        assert!(rr >= last);
        last = rr;
    }
}

#[test]
fn color_scheme_cycling() {
    let all = ColorScheme::all();
    assert_eq!(all.len(), 7);
    let mut s = ColorScheme::Spectrum;
    for i in 1..7 {
        s = s.next();
        assert_eq!(s, all[i]);
    }
    assert_eq!(s.next(), ColorScheme::Spectrum);
}

#[test]
fn color_lerp_endpoints_and_midpoint() {
    let a = (0u8, 100u8, 200u8);
    let b = (200u8, 0u8, 250u8);
    assert_eq!(cavibe::color::lerp_color(a, b, 0), a);
    assert_eq!(cavibe::color::lerp_color(a, b, 1000), b);
    assert_eq!(cavibe::color::lerp_color(a, b, 500), (100, 50, 225));
    // Values above one clamp to the far end.
    assert_eq!(cavibe::color::lerp_color(a, b, 5000), b);
}

#[test]
fn glyph_occupies_exactly_its_square() {
    // 'A' at scale 3 may only touch the 24x24 square at (10, 10).
    let mut c = Canvas::new(60, 60);
    render_char(&mut c, 10, 10, 'A', 255, 255, 255, 3, 1000);
    let mut touched = 0;
    for y in 0..60 {
        for x in 0..60 {
            let px = c.get_pixel(x, y);
            if px != (0, 0, 0, 0) {
                assert!(x >= 10 && x < 34 && y >= 10 && y < 34);
                touched += 1;
            }
        }
    }
    // The 'A' bitmap has 18 set bits, each a 3x3 block.
    assert_eq!(touched, 18 * 9);
}

#[test]
fn build_display_text_combines_title_and_artist() {
    let t = Some(String::from("Song"));
    let a = Some(String::from("Band"));
    let (text, tl) = build_display_text(true, true, &t, &a);
    assert_eq!(text, "Song - Band");
    assert_eq!(tl, 4);
    let (text2, _) = build_display_text(true, false, &t, &a);
    assert_eq!(text2, "Song");
    let (text3, tl3) = build_display_text(false, true, &t, &a);
    assert_eq!(text3, "Band");
    assert_eq!(tl3, 0);
    let (fallback, _) = build_display_text(true, true, &None, &None);
    assert_eq!(fallback, "cavibe");
}

#[test]
fn text_overlay_draws_glyph_pixels() {
    let freqs = alternating_frequencies();
    let mut frame = frame_data(&freqs);
    frame.track_title = Some(String::from("AAAA"));
    frame.track_artist = None;
    let mut p = params(0);
    p.text_config = TextConfig::default();
    p.text_config.show_artist = false;
    p.text_config.animation_style = TextAnimation::Still;
    p.text_config.alignment = TextAlignment::Left;
    p.text_config.position = TextPosition::Top;
    p.text_config.use_color_scheme = false;
    let mut c = Canvas::new(200, 800);
    let before: usize = {
        render_bars(&mut c, &Vec::new(), &p);
        c.data.iter().filter(|&&b| b != 0).count()
    };
    cavibe::text::render_text(&mut c, &frame, &p);
    let after = c.data.iter().filter(|&&b| b != 0).count();
    assert!(after > before, "text rendering left the canvas empty");
}

#[test]
fn oscilloscope_uses_waveform() {
    let freqs = alternating_frequencies();
    let mut p = params(5);
    let mut c = Canvas::new(40, 40);
    render_bars(&mut c, &freqs, &p);
    assert!(c.data.iter().any(|&b| b != 0));
    // Without a waveform nothing is drawn.
    p.waveform = Vec::new();
    let mut c2 = Canvas::new(40, 40);
    render_bars(&mut c2, &freqs, &p);
    assert!(c2.data.iter().all(|&b| b == 0));
}

#[test]
fn spectrogram_uses_history() {
    let freqs = alternating_frequencies();
    let mut p = params(6);
    let mut c = Canvas::new(40, 40);
    render_bars(&mut c, &freqs, &p);
    assert!(c.data.iter().any(|&b| b != 0));
    p.spectrogram_history = Vec::new();
    let mut c2 = Canvas::new(40, 40);
    render_bars(&mut c2, &freqs, &p);
    assert!(c2.data.iter().all(|&b| b == 0));
}

#[test]
fn style_count_is_eight() {
    assert_eq!(style_count(), 8);
}

#[test]
fn spectrogram_pixels_carry_snapshot_colors() {
    // One snapshot, constant magnitude: the bottom band row must hold the
    // scheme color at that magnitude, premultiplied by the scaled opacity.
    let mut p = params(6);
    p.spectrogram_history = vec![vec![600; 4]];
    let freqs = alternating_frequencies();
    let mut c = Canvas::new(40, 20);
    render_bars(&mut c, &freqs, &p);
    // Bottom row of the band (band is the whole canvas: no text shown).
    let x = 7usize;
    let pos = (x * 1000 / 40) as u32;
    let (r, g, b) = ColorScheme::Spectrum.get_color(pos, 600);
    let op = 1000 * 600 / 1000; // configured opacity times magnitude
    let expected = (
        (r as u32 * op / 1000) as u8,
        (g as u32 * op / 1000) as u8,
        (b as u32 * op / 1000) as u8,
        (op * 255 / 1000) as u8,
    );
    assert_eq!(c.get_pixel(x, 19), expected);
    // The row above the single shown row is untouched.
    assert_eq!(c.get_pixel(x, 18), (0, 0, 0, 0));
}

#[test]
fn classic_pixels_carry_scheme_colors() {
    // The classic contract pins every pixel; spot-check one.
    let freqs = alternating_frequencies();
    let p = params(0);
    let mut c = Canvas::new(80, 40);
    render_bars(&mut c, &freqs, &p);
    // Bar 1 (magnitude 900), bottom row: position 1/8, intensity 0.
    let (r, g, b) = ColorScheme::Spectrum.get_color(125, 0);
    assert_eq!(c.get_pixel(10, 39), (r, g, b, 255));
    // Same bar, 10 rows up: intensity 10/40.
    let (r2, g2, b2) = ColorScheme::Spectrum.get_color(125, 250);
    assert_eq!(c.get_pixel(10, 29), (r2, g2, b2, 255));
}

#[test]
fn mirrored_pixels_grow_from_center() {
    let freqs = alternating_frequencies();
    let p = {
        let mut p = params(1);
        p.bar_width = 8;
        p.bar_spacing = 2;
        p
    };
    let mut c = Canvas::new(80, 40);
    render_bars(&mut c, &freqs, &p);
    // Bar 1 (magnitude 900): half height 18 around center row 20.
    let (r, g, b) = ColorScheme::Spectrum.get_color(125, 0);
    assert_eq!(c.get_pixel(10, 20), (r, g, b, 255)); // center row
    assert_ne!(c.get_pixel(10, 3), (0, 0, 0, 0)); // 17 above center
    assert_ne!(c.get_pixel(10, 37), (0, 0, 0, 0)); // 17 below center
    assert_eq!(c.get_pixel(10, 2), (0, 0, 0, 0)); // 18 above: out of reach
    assert_eq!(c.get_pixel(10, 38), (0, 0, 0, 0));
    // Bar 0 (magnitude 100): half height 2.
    assert_ne!(c.get_pixel(0, 19), (0, 0, 0, 0));
    assert_eq!(c.get_pixel(0, 17), (0, 0, 0, 0));
}

#[test]
fn oscilloscope_pixels_carry_sample_colors() {
    // A flat waveform at zero: a horizontal line at the band center,
    // thickened downward, in each column's sample color.
    let mut p = params(5);
    p.waveform = vec![0; 8];
    p.bar_width = 8; // thickness 2
    let freqs = alternating_frequencies();
    let mut c = Canvas::new(32, 20);
    render_bars(&mut c, &freqs, &p);
    for x in 0..32usize {
        let pos = (x * 1000 / 32) as u32;
        let (r, g, b) = ColorScheme::Spectrum.get_color(pos, 300);
        assert_eq!(c.get_pixel(x, 10), (r, g, b, 255));
        assert_eq!(c.get_pixel(x, 11), (r, g, b, 255));
        assert_eq!(c.get_pixel(x, 9), (0, 0, 0, 0));
        assert_eq!(c.get_pixel(x, 12), (0, 0, 0, 0));
    }
}

#[test]
fn wave_pixels_fade_from_center() {
    let freqs = alternating_frequencies();
    let p = params(2); // wave line width is a third of the 8px bar: 2 columns
    let mut c = Canvas::new(80, 40);
    render_bars(&mut c, &freqs, &p);
    // Bar 1 (magnitude 900): reach 18 around center row 20.
    let (r, g, b) = ColorScheme::Spectrum.get_color(125, 1000);
    assert_eq!(c.get_pixel(10, 20), (r, g, b, 255)); // full intensity at center
    // At distance 9 the intensity has fallen to half.
    let (r2, g2, b2) = ColorScheme::Spectrum.get_color(125, 500);
    let expect = (
        (r2 as u32 * 500 / 1000) as u8,
        (g2 as u32 * 500 / 1000) as u8,
        (b2 as u32 * 500 / 1000) as u8,
        (500 * 255 / 1000) as u8,
    );
    assert_eq!(c.get_pixel(10, 11), expect);
    // Beyond the wave's reach and beyond its line width: untouched.
    assert_eq!(c.get_pixel(10, 1), (0, 0, 0, 0));
    assert_eq!(c.get_pixel(13, 20), (0, 0, 0, 0));
}

#[test]
fn blocks_fade_band_uses_height_remainder() {
    // Magnitude 125 in a 30-row band: 3 solid rows and a 0.75 remainder.
    let freqs: Vec<u32> = vec![125; 8];
    let p = params(4);
    let mut c = Canvas::new(80, 30);
    render_bars(&mut c, &freqs, &p);
    // Solid top row (offset 2): full opacity.
    let (r, g, b) = ColorScheme::Spectrum.get_color(0, 2 * 1000 / 30);
    assert_eq!(c.get_pixel(0, 27), (r, g, b, 255));
    // First fade row above the bar: top-edge color at remainder opacity.
    let (fr, fg, fb) = ColorScheme::Spectrum.get_color(0, 100);
    let expect = (
        (fr as u32 * 750 / 1000) as u8,
        (fg as u32 * 750 / 1000) as u8,
        (fb as u32 * 750 / 1000) as u8,
        (750 * 255 / 1000) as u8,
    );
    assert_eq!(c.get_pixel(0, 26), expect);
}

#[test]
fn background_box_dims_alpha_only() {
    // A configured background box keeps its color channels at the frame
    // opacity and dims only the alpha byte to 0.8 of it.
    let freqs = alternating_frequencies();
    let mut frame = frame_data(&freqs);
    frame.track_title = Some(String::from("A"));
    let mut p = params(0);
    p.text_config = TextConfig::default();
    p.text_config.show_artist = false;
    p.text_config.animation_style = TextAnimation::Still;
    p.text_config.alignment = TextAlignment::Left;
    p.text_config.position = TextPosition::Top;
    p.text_config.use_color_scheme = false;
    p.text_config.background_color = Some(cavibe::config::RgbColor { r: 10, g: 20, b: 30 });
    let mut c = Canvas::new(400, 800);
    cavibe::text::render_text(&mut c, &frame, &p);
    // A pixel inside the box but away from the glyph: full-opacity color,
    // alpha at 80 percent.
    assert_eq!(c.get_pixel(30, 40), (10, 20, 30, 204));
}
