use music_player_rs::audio::visualizer::defaults;
use music_player_rs::audio::visualizer::{
    dialog_bar_gap, dialog_bar_radius, dialog_max_columns, dialog_peak_decay_ms,
};
use music_player_rs::audio::visualizer::{
    channel_from_index, channel_index, check_viz_texts, fft_from_index, fft_index,
    freq_scale_from_index, freq_scale_index, level_scale_from_index, level_scale_index,
    palette_from_index, palette_index, window_from_index, window_index, ChannelMode, FreqScale,
    LevelScale, Palette, VisualizationMode, WindowType,
};

#[test]
fn mode_str_round_trip() {
    for m in VisualizationMode::all() {
        assert_eq!(VisualizationMode::parse(m.as_str()), m);
        assert_eq!(VisualizationMode::from_index(m.index()), m);
    }
    assert_eq!(VisualizationMode::parse("wat"), VisualizationMode::Off);
    assert_eq!(VisualizationMode::from_index(99), VisualizationMode::Off);
}

#[test]
fn mode_classification() {
    assert!(VisualizationMode::Oscilloscope.is_fulltrack());
    assert!(VisualizationMode::Spectrogram.is_fulltrack());
    assert!(!VisualizationMode::Spectrum.is_fulltrack());
    assert!(VisualizationMode::Spectrum.is_live());
    assert!(!VisualizationMode::Off.is_live());
}

#[test]
fn fft_index_roundtrip() {
    for size in [512u32, 1024, 2048, 4096, 8192] {
        assert_eq!(fft_from_index(fft_index(size)), size);
    }
    assert_eq!(fft_index(3000), 2);
}

#[test]
fn channel_roundtrip() {
    for (idx, ch) in [(0, ChannelMode::Mono), (1, ChannelMode::Stereo)] {
        assert_eq!(channel_index(ch), idx);
        assert_eq!(channel_from_index(idx), ch);
    }
}

#[test]
fn palette_from_index_default() {
    assert_eq!(palette_index(Palette::Magma), 1);
    assert_eq!(palette_from_index(99), Palette::Magma);
    assert_eq!(palette_index(palette_from_index(6)), 6);
}

#[test]
fn defaults_provide_reset_values() {
    assert_eq!(defaults::freq_min(), 20);
    assert_eq!(defaults::freq_max(), 22_000);
    assert_eq!(defaults::bands(), 32);
}

#[test]
fn dialog_indices_round_trip() {
    for s in [FreqScale::Linear, FreqScale::Log, FreqScale::Mel] {
        assert_eq!(freq_scale_from_index(freq_scale_index(s)), s);
    }
    for l in [LevelScale::Linear, LevelScale::Log] {
        assert_eq!(level_scale_from_index(level_scale_index(l)), l);
    }
    for w in [WindowType::Hann, WindowType::Hamming, WindowType::Blackman] {
        assert_eq!(window_from_index(window_index(w)), w);
    }
    for i in 0..8 {
        assert_eq!(palette_index(palette_from_index(i)), i);
    }
}

#[test]
fn only_fulltrack_and_live_modes_are_disjoint() {
    for m in VisualizationMode::all() {
        assert!(!(m.is_fulltrack() && m.is_live()));
    }
}

#[test]
fn viz_text_checks() {
    let ok = check_viz_texts(Some(20), Some(20000), Some(32));
    assert_eq!(ok.apply_freq_min, Some(20));
    assert_eq!(ok.apply_freq_max, Some(20000));
    assert_eq!(ok.apply_bands, Some(32));
    assert!(!ok.freq_min_invalid && !ok.freq_max_invalid && !ok.bands_invalid);
    // Crossed range: neither bound is applied and both are marked.
    let crossed = check_viz_texts(Some(5000), Some(100), Some(200));
    assert_eq!(crossed.apply_freq_min, None);
    assert_eq!(crossed.apply_freq_max, None);
    assert!(crossed.freq_min_invalid && crossed.freq_max_invalid);
    assert!(crossed.bands_invalid);
    assert_eq!(crossed.apply_bands, None);
    // Unparsable text.
    let bad = check_viz_texts(None, Some(100), Some(64));
    assert!(bad.freq_min_invalid);
    assert_eq!(bad.apply_freq_max, Some(100));
}

#[test]
fn button_cycles_through_modes() {
    let mut m = VisualizationMode::Off;
    let mut seen = Vec::new();
    for _ in 0..4 {
        m = m.cycled();
        seen.push(m);
    }
    assert_eq!(
        seen,
        vec![
            VisualizationMode::Oscilloscope,
            VisualizationMode::Spectrogram,
            VisualizationMode::Spectrum,
            VisualizationMode::Off
        ]
    );
}

#[test]
fn menu_pick_toggles_the_current_mode_off() {
    assert_eq!(VisualizationMode::Off.menu_pick(2), VisualizationMode::Spectrogram);
    assert_eq!(VisualizationMode::Spectrogram.menu_pick(2), VisualizationMode::Off);
    assert_eq!(VisualizationMode::Spectrogram.menu_pick(3), VisualizationMode::Spectrum);
    assert_eq!(VisualizationMode::Spectrum.menu_pick(9), VisualizationMode::Off);
}

#[test]
fn dialog_counts_are_limited() {
    assert_eq!(dialog_max_columns(100), 512);
    assert_eq!(dialog_max_columns(3000), 3000);
    assert_eq!(dialog_max_columns(9000), 8192);
    assert_eq!(dialog_max_columns(-1), 8192);
    assert_eq!(dialog_peak_decay_ms(10), 50);
    assert_eq!(dialog_peak_decay_ms(400), 400);
    assert_eq!(dialog_bar_gap(11), 10);
    assert_eq!(dialog_bar_gap(0), 0);
    assert_eq!(dialog_bar_radius(-5), 12);
    assert_eq!(dialog_bar_radius(7), 7);
}
