use music_player_rs::audio::analyzer::band_ranges_from;

#[test]
fn band_ranges_tile_the_bins() {
    // Bins 1..=7 placed in bands 0, 0, 1, 1, 1, 3, 3 of five.
    let band_of = [0usize, 0, 1, 1, 1, 3, 3];
    let ranges = band_ranges_from(&band_of, 5);
    assert_eq!(ranges, vec![(1, 3), (3, 6), (0, 0), (6, 8), (0, 0)]);
    let mut prev_end = 1;
    let mut bins = 0;
    for (s, e) in &ranges {
        if *e > 0 {
            assert_eq!(*s, prev_end, "no gaps/overlaps");
            prev_end = *e;
            bins += e - s;
        }
    }
    assert_eq!(bins, band_of.len());
    assert_eq!(prev_end, band_of.len() + 1);
}

#[test]
fn band_ranges_without_bins() {
    assert_eq!(band_ranges_from(&[], 3), vec![(0, 0), (0, 0), (0, 0)]);
    assert_eq!(band_ranges_from(&[], 0), Vec::<(usize, usize)>::new());
}

/// Band of each FFT bin `1..fft_size / 2` on a logarithmic scale from 20 Hz
/// to the Nyquist frequency (at most 22 kHz).
fn log_band_of(bands: usize, rate_hz: u32, fft_size: usize) -> Vec<usize> {
    let nyq = rate_hz.max(1) as f32 / 2.0;
    let lo = 20.0f32;
    let hi = nyq.min(22_000.0);
    let hi = if hi > lo { hi } else { lo * 1.5 };
    let edges: Vec<f32> = (0..=bands).map(|b| lo * (hi / lo).powf(b as f32 / bands as f32)).collect();
    (1..fft_size / 2)
        .map(|i| {
            let f = i as f32 * rate_hz.max(1) as f32 / fft_size as f32;
            let base = edges.partition_point(|&e| e <= f);
            if base == 0 {
                0
            } else {
                (base - 1).min(bands - 1)
            }
        })
        .collect()
}

#[test]
fn band_ranges_cover_all_bins_without_gaps() {
    let fft_size = 2048;
    let ranges = band_ranges_from(&log_band_of(32, 44_100, fft_size), 32);
    let mut prev_end = 1;
    let mut bins = 0;
    for (s, e) in &ranges {
        if *e > 0 {
            assert_eq!(*s, prev_end, "no gaps/overlaps");
            prev_end = *e;
            bins += e - s;
        }
    }
    assert_eq!(bins, fft_size / 2 - 1, "all half-bins covered");
    assert_eq!(prev_end, fft_size / 2, "all half-bins covered");
}
