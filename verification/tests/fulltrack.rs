use music_player_rs::audio::fulltrack::{
    cache_key, cache_meta_path, cache_meta_valid_for, cache_png_path, is_dsd, parse_color,
    viz_cache_dir, CacheMeta, OscilloscopeKey,
};
use music_player_rs::audio::spectrogram::adaptive_plan;
use music_player_rs::audio::visualizer::{ChannelMode, FreqScale, Palette, WindowType};
use music_player_rs::audio::fulltrack::{cache_key_spectrogram, SpectrogramKey};
use std::hash::{DefaultHasher, Hash, Hasher};

fn osc_key(path: &str) -> OscilloscopeKey {
    OscilloscopeKey {
        path: path.to_string(),
        mtime_ms: 1_000_000,
        size: 12345,
        channels: ChannelMode::Stereo,
        line_width_bits: 1.2f32.to_bits(),
        draw_center_line: true,
        max_columns: 2000,
        sensitivity_bits: 1.0f32.to_bits(),
        bg_color: "#11111b".to_string(),
        fg_color: "#cba6f7".to_string(),
    }
}

#[test]
fn parse_color_hex() {
    assert_eq!(parse_color("#cba6f7"), [203, 166, 247, 255]);
    assert_eq!(parse_color("#1111bb"), [17, 17, 187, 255]);
    assert_eq!(parse_color("invalid"), [0, 0, 0, 255]);
}

#[test]
fn cache_key_deterministic() {
    let k1 = cache_key(&osc_key("foo.flac"));
    let k2 = cache_key(&osc_key("foo.flac"));
    assert_eq!(k1, k2);
    let k3 = cache_key(&osc_key("bar.flac"));
    assert_ne!(k1, k3);
}

#[test]
fn cache_paths_live_in_viz_dir() {
    assert_eq!(viz_cache_dir("/home/u/.cache"), "/home/u/.cache/music_player/viz");
    assert_eq!(cache_png_path("/c/viz", "ab12"), "/c/viz/ab12.png");
    assert_eq!(cache_meta_path("/c/viz/", "ab12"), "/c/viz/ab12.json");
}

#[test]
fn cache_key_is_lower_hex() {
    let k = cache_key(&osc_key("x.flac"));
    assert!(!k.is_empty() && k.len() <= 16);
    assert!(k.chars().all(|c| c.is_ascii_hexdigit() && !c.is_ascii_uppercase()));
}

#[test]
fn cache_meta_validity() {
    let meta = CacheMeta {
        path: "/m/a.flac".into(),
        mtime_secs: 100,
        size: 1,
        mode: "oscilloscope".into(),
        channels: "stereo".into(),
        max_columns: 2000,
        width: 2000,
        height: 256,
    };
    assert!(cache_meta_valid_for(&meta, Some(100)));
    assert!(cache_meta_valid_for(&meta, Some(50)));
    assert!(!cache_meta_valid_for(&meta, Some(101)));
    assert!(!cache_meta_valid_for(&meta, None));
}

#[test]
fn dsd_tracks_detected_by_extension() {
    assert!(is_dsd("/m/x.dsf"));
    assert!(is_dsd("/m/x.DFF"));
    assert!(!is_dsd("/m/x.flac"));
}

#[test]
fn adaptive_plan_respects_caps() {
    let (hop, cols) = adaptive_plan(100_000, 512, 1000);
    assert!(cols <= 1000);
    assert!(hop >= 512);
    assert_eq!(100_000_u64.div_ceil(hop as u64), cols as u64);
    let (hop2, cols2) = adaptive_plan(2000, 512, 1000);
    assert_eq!(hop2, 512);
    assert_eq!(cols2, 4);
    assert_eq!(adaptive_plan(0, 512, 1000), (512, 0));
    let (_h, c1) = adaptive_plan(1, 512, 1000);
    assert_eq!(c1, 1);
}

#[test]
fn adaptive_plan_never_exceeds_pixel_width() {
    let (_hop, cols) = adaptive_plan(u64::MAX / 2, 1, u32::MAX);
    assert!(cols <= 8192);
}

fn spec_key(fft_size: u32) -> SpectrogramKey {
    SpectrogramKey {
        path: "/m/a.flac".to_string(),
        mtime_ms: 1_700_000_000_123,
        size: 4096,
        channels: ChannelMode::Mono,
        fft_size,
        window_type: WindowType::Hamming,
        freq_scale: FreqScale::Log,
        freq_min: 20,
        freq_max: 22_000,
        gain_db_bits: 20.0f32.to_bits(),
        range_db_bits: 80.0f32.to_bits(),
        high_boost_db_bits: 6.0f32.to_bits(),
        palette: Palette::Magma,
        sensitivity_bits: 1.0f32.to_bits(),
        max_frames: 4000,
        dsd_cic_compensation: true,
        bg_color: "#11111b".to_string(),
        fg_color: "#cba6f7".to_string(),
    }
}

#[test]
fn spectrogram_key_follows_every_parameter() {
    assert_ne!(cache_key_spectrogram(&spec_key(2048)), cache_key_spectrogram(&spec_key(4096)));
    let mut k = spec_key(2048);
    k.dsd_cic_compensation = false;
    assert_ne!(cache_key_spectrogram(&spec_key(2048)), cache_key_spectrogram(&k));
}

#[test]
fn keys_match_std_hash_of_the_fields() {
    // Hashing the fields one by one with std's `Hash` gives the same key.
    let k = spec_key(2048);
    let mut h = DefaultHasher::new();
    k.path.as_str().hash(&mut h);
    k.mtime_ms.hash(&mut h);
    k.size.hash(&mut h);
    "spectrogram".hash(&mut h);
    0u8.hash(&mut h);
    k.fft_size.hash(&mut h);
    1u8.hash(&mut h);
    1u8.hash(&mut h);
    k.freq_min.hash(&mut h);
    k.freq_max.hash(&mut h);
    k.gain_db_bits.hash(&mut h);
    k.range_db_bits.hash(&mut h);
    k.high_boost_db_bits.hash(&mut h);
    1u8.hash(&mut h);
    k.sensitivity_bits.hash(&mut h);
    k.max_frames.hash(&mut h);
    k.dsd_cic_compensation.hash(&mut h);
    k.bg_color.as_str().hash(&mut h);
    k.fg_color.as_str().hash(&mut h);
    assert_eq!(cache_key_spectrogram(&k), format!("{:x}", h.finish()));

    let o = osc_key("/m/a.flac");
    let mut h = DefaultHasher::new();
    o.path.as_str().hash(&mut h);
    o.mtime_ms.hash(&mut h);
    o.size.hash(&mut h);
    "oscilloscope".hash(&mut h);
    1u8.hash(&mut h);
    o.line_width_bits.hash(&mut h);
    o.draw_center_line.hash(&mut h);
    o.max_columns.hash(&mut h);
    o.sensitivity_bits.hash(&mut h);
    o.bg_color.as_str().hash(&mut h);
    o.fg_color.as_str().hash(&mut h);
    assert_eq!(cache_key(&o), format!("{:x}", h.finish()));
}
