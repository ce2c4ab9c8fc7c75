use cavibe::analyzer::{AudioData, FrequencyAnalyzer, FFT_SIZE};

fn bins_with(value: u64) -> Vec<u64> {
    vec![value; FFT_SIZE / 2]
}

#[test]
fn process_returns_configured_bar_count_in_range() {
    let mut a = FrequencyAnalyzer::new(64, 44100, 700, 1000);
    let out = a.process(&bins_with(500_000));
    assert_eq!(out.frequencies.len(), 64);
    for &f in &out.frequencies {
        assert!(f <= 1000);
    }
    // Values saturate at 1.0 for loud input.
    let loud = a.process(&bins_with(1_000_000_000));
    assert_eq!(loud.frequencies.len(), 64);
    for &f in &loud.frequencies {
        assert!(f <= 1000);
    }
}

#[test]
fn process_empty_input_gives_all_zero() {
    let mut a = FrequencyAnalyzer::new(32, 44100, 700, 1000);
    // Prime the smoothing state with a loud frame first.
    let _ = a.process(&bins_with(1_000_000_000));
    let out = a.process(&Vec::new());
    assert_eq!(out.frequencies.len(), 32);
    for &f in &out.frequencies {
        assert_eq!(f, 0);
    }
    assert_eq!(out.intensity, 0);
    assert_eq!(out.bass, 0);
}

#[test]
fn process_zero_bars_gives_empty_result() {
    let mut a = FrequencyAnalyzer::new(0, 44100, 700, 1000);
    let out = a.process(&bins_with(500_000));
    assert_eq!(out.frequencies.len(), 0);
    assert_eq!(out.intensity, 0);
    assert_eq!(out.bass, 0);
}

#[test]
fn smoothing_law_holds_exactly() {
    // An analyzer without smoothing recovers the raw bar values.
    let mut raw_a = FrequencyAnalyzer::new(16, 44100, 0, 1000);
    let bins = bins_with(30_000);
    let raw = raw_a.process(&bins).frequencies;

    // With smoothing s, frame n+1 must be prev*s + raw*(1-s), rounded down.
    let s: u32 = 700;
    let mut a = FrequencyAnalyzer::new(16, 44100, s, 1000);
    let first = a.process(&bins).frequencies;
    let second = a.process(&bins).frequencies;
    for i in 0..16 {
        let expected1 = (0 * s + raw[i] * (1000 - s)) / 1000;
        assert_eq!(first[i], expected1);
        let expected2 = (first[i] * s + raw[i] * (1000 - s)) / 1000;
        assert_eq!(second[i], expected2);
    }
}

#[test]
fn intensity_and_bass_are_means() {
    let mut a = FrequencyAnalyzer::new(12, 44100, 0, 1000);
    let out = a.process(&bins_with(30_000));
    let sum: u64 = out.frequencies.iter().map(|&v| v as u64).sum();
    assert_eq!(out.intensity as u64, sum / 12);
    let third: u64 = out.frequencies[..4].iter().map(|&v| v as u64).sum();
    assert_eq!(out.bass as u64, third / 4);
}

#[test]
fn mirrored_bars_put_bass_on_both_edges() {
    // Energy only in the lowest bins: after mirroring, both outer edges
    // carry it and they are equal.
    let mut bins = vec![0u64; FFT_SIZE / 2];
    for i in 0..8 {
        bins[i] = 100_000_000;
    }
    let mut a = FrequencyAnalyzer::new(64, 44100, 0, 1000);
    let out = a.process(&bins);
    assert_eq!(out.frequencies[0], out.frequencies[63]);
    assert!(out.frequencies[0] > 0);
    assert_eq!(out.frequencies[31], out.frequencies[32]);
}

#[test]
fn analyzer_default_audio_data() {
    let d = AudioData::default();
    assert_eq!(d.frequencies.len(), 64);
    assert!(d.frequencies.iter().all(|&v| v == 0));
    assert_eq!(d.intensity, 0);
    assert_eq!(d.bass, 0);
    assert!(d.waveform.is_empty());
}

#[test]
fn sensitivity_scales_raw_bars() {
    let bins = bins_with(10_000);
    let mut low = FrequencyAnalyzer::new(8, 44100, 0, 500);
    let mut high = FrequencyAnalyzer::new(8, 44100, 0, 1000);
    let lo = low.process(&bins).frequencies;
    let hi = high.process(&bins).frequencies;
    for i in 0..8 {
        assert!(lo[i] <= hi[i]);
    }
}
