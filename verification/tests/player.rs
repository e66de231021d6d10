use music_player_rs::audio::output::{FallbackReason, SampleFormat};
use music_player_rs::audio::player::{
    dither_enabled_rt, dither_index, dsd_chain, dsd_chain_continues, dsd_fallback_reason,
    finish_if_eof, format_name, is_dsd_path, ring_capacity, track_seed, transport_play, transport_seek,
    transport_stop, transport_toggle, TestHooks, TpdfRng, DITHER_INDEX_OFF, DITHER_INDEX_TPDF,
    DITHER_INDEX_TRIANGULAR,
};
use music_player_rs::audio::worker::RtShared;
use music_player_rs::settings::{
    clamp_ring_buffer_ms, DsdMode, FallbackPolicy, ResamplerDither, RING_BUFFER_MS_MIN,
};

/// Transport state of a loaded mono 44.1 kHz track.
fn shared_track() -> RtShared {
    RtShared::new(44100, 1, false)
}

fn position_secs(s: &RtShared) -> f64 {
    s.pos_frames() as f64 / s.out_rate().max(1) as f64
}

#[test]
fn ring_capacity_scales_with_ms_and_geometry() {
    assert_eq!(ring_capacity(48_000, 2, 1000, None), 96_000);
    assert_eq!(ring_capacity(44_100, 2, 1500, None), 132_300);
    assert_eq!(ring_capacity(8_000, 1, 100, None), 4096);
}

#[test]
fn ring_capacity_respects_cpal_buffer_floor() {
    assert_eq!(ring_capacity(8_000, 2, 100, Some(2048)), 2048 * 2 * 2);
}

#[test]
fn set_ring_buffer_ms_clamps() {
    assert_eq!(clamp_ring_buffer_ms(50), RING_BUFFER_MS_MIN);
    assert_eq!(clamp_ring_buffer_ms(3000), 3000);
}

#[test]
fn toggle_pauses_and_resumes() {
    let mut s = shared_track();
    transport_toggle(&mut s);
    assert!(s.is_playing(), "toggle should start playback");
    transport_toggle(&mut s);
    assert!(!s.is_playing(), "toggle should pause");
}

#[test]
fn stop_rewinds_and_confirms_manual_end() {
    let mut s = shared_track();
    transport_play(&mut s);
    transport_stop(&mut s);
    assert!(!s.is_playing());
    assert_eq!(position_secs(&s), 0.0, "stop must rewind to start");
    assert!(s.finished());
    assert!(!s.natural_end(), "manual stop is not a natural end");
}

#[test]
fn play_after_stop_replays_from_start() {
    let mut s = shared_track();
    transport_play(&mut s);
    transport_stop(&mut s);
    transport_play(&mut s);
    assert!(s.is_playing());
    assert!(!s.finished());
    assert_eq!(position_secs(&s), 0.0);
}

#[test]
fn seek_moves_position() {
    let mut s = shared_track();
    transport_seek(&mut s, 10 * 44100);
    let pos = position_secs(&s);
    assert!((pos - 10.0).abs() < 1e-6, "pos = {pos}");
}

#[test]
fn mute_flags_follow_toggles() {
    let mut s = shared_track();
    s.set_muted(true);
    assert!(s.muted());
    s.set_muted(false);
    assert!(!s.muted());
    s.toggle_muted();
    assert!(s.muted());
}

#[test]
fn bit_perfect_resampled_flag_updates_on_toggle() {
    let mut identity = RtShared::new(44100, 1, false);
    identity.set_bit_perfect(true);
    assert!(!identity.bit_perfect_resampled());
    let mut converting = RtShared::new(44100, 1, true);
    converting.set_bit_perfect(true);
    assert!(converting.bit_perfect_resampled());
    converting.set_bit_perfect(false);
    assert!(!converting.bit_perfect_resampled());
}

#[test]
fn play_on_finished_track_returns_rewind_generation() {
    let mut s = shared_track();
    // A fresh block counts as finished: playing rewinds and asks for a seek.
    let g = transport_play(&mut s);
    assert_eq!(g, Some(1));
    assert_eq!(s.seek_target_frames(), 0);
    // Already playing: no new seek.
    assert_eq!(transport_play(&mut s), None);
}

#[test]
fn toggle_twice_resumes_at_same_position() {
    let mut s = shared_track();
    transport_play(&mut s);
    s.set_pos_frames(1234);
    transport_toggle(&mut s);
    transport_toggle(&mut s);
    assert!(s.is_playing());
    assert_eq!(s.pos_frames(), 1234);
}

#[test]
fn natural_end_only_at_eof() {
    let mut s = shared_track();
    transport_play(&mut s);
    finish_if_eof(&mut s, 10, 64);
    assert!(s.is_playing(), "a short pull without EOF is an underrun");
    s.set_eof(true);
    finish_if_eof(&mut s, 64, 64);
    assert!(s.is_playing(), "a full pull never ends the track");
    finish_if_eof(&mut s, 10, 64);
    assert!(!s.is_playing());
    assert!(s.finished());
    assert!(s.natural_end());
}

#[test]
fn seek_generation_increments() {
    let mut s = shared_track();
    let g1 = transport_seek(&mut s, 100);
    let g2 = transport_seek(&mut s, 200);
    assert_eq!(g2, g1 + 1);
    assert_eq!(s.seek_target_frames(), 200);
    assert_eq!(s.pos_frames(), 200);
}

#[test]
fn dither_indices_and_gate() {
    assert_eq!(dither_index(ResamplerDither::Tpdf), DITHER_INDEX_TPDF);
    assert_eq!(dither_index(ResamplerDither::Triangular), DITHER_INDEX_TRIANGULAR);
    assert_eq!(dither_index(ResamplerDither::Off), DITHER_INDEX_OFF);
    assert!(dither_enabled_rt(false, true, DITHER_INDEX_TPDF));
    assert!(dither_enabled_rt(false, false, DITHER_INDEX_TPDF));
    assert!(dither_enabled_rt(true, true, DITHER_INDEX_TPDF));
    assert!(!dither_enabled_rt(true, false, DITHER_INDEX_TPDF));
    assert!(!dither_enabled_rt(false, true, DITHER_INDEX_OFF));
}

#[test]
fn xorshift_never_reaches_zero() {
    let mut rng = TpdfRng::new();
    for _ in 0..10_000 {
        assert_ne!(rng.next_bits(), 0);
    }
    rng.reseed(0);
    assert_ne!(rng.next_bits(), 0);
}

#[test]
fn dsd_chain_orders_fallbacks() {
    assert_eq!(dsd_chain(DsdMode::Native), vec![DsdMode::Native, DsdMode::DoP, DsdMode::Pcm]);
    assert_eq!(dsd_chain(DsdMode::DoP), vec![DsdMode::DoP, DsdMode::Pcm]);
    assert_eq!(dsd_chain(DsdMode::Pcm), vec![DsdMode::Pcm]);
    assert!(!dsd_chain_continues(FallbackPolicy::Fail));
    assert!(dsd_chain_continues(FallbackPolicy::Nearest));
    assert_eq!(dsd_fallback_reason(DsdMode::DoP, DsdMode::Pcm), Some("DoP unavailable".to_string()));
    assert_eq!(dsd_fallback_reason(DsdMode::Pcm, DsdMode::Pcm), None);
}

#[test]
fn format_names_and_dsd_paths() {
    assert_eq!(format_name(SampleFormat::F32), "F32");
    assert_eq!(format_name(SampleFormat::I16), "I16");
    assert!(is_dsd_path("/music/a.DSF"));
    assert!(is_dsd_path("b.dff"));
    assert!(!is_dsd_path("/music/a.flac"));
    assert!(!is_dsd_path("/music/dsf"));
}

#[test]
fn test_hooks_consume_failures() {
    let mut h = TestHooks { build_failures: 2 };
    assert!(h.take_failure());
    assert!(h.take_failure());
    assert!(!h.take_failure());
    assert_eq!(h.build_failures, 0);
}

#[test]
fn fallback_reason_is_comparable() {
    let r = FallbackReason::ResamplerForced { requested: 44100 };
    assert_eq!(r, FallbackReason::ResamplerForced { requested: 44100 });
}

#[test]
fn track_seeds_are_stable_and_odd() {
    let a = track_seed("/music/a.flac");
    assert_eq!(a, track_seed("/music/a.flac"));
    assert_eq!(a % 2, 1);
    assert!(a < (1 << 30));
    assert_eq!(track_seed("/music//a.flac"), a);
}
