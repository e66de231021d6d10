use music_player_rs::audio::player::transport_seek;
use music_player_rs::audio::worker::{
    advance_position, reconcile, reconcile_seek_state, whole_frame_samples, worker_seek_done,
    RtShared, SeekReconcile,
};

#[test]
fn consumer_pulls_only_whole_frames() {
    // Eight samples queued, eight wanted, stereo: all four frames are taken.
    let mut shared = RtShared::new(48000, 2, false);
    let n = whole_frame_samples(8, 8, 2);
    assert_eq!(n, 8);
    shared.set_pos_frames(advance_position(shared.pos_frames(), n, 2));
    assert_eq!(shared.pos_frames(), 4);
}

#[test]
fn consumer_never_tears_a_partial_frame() {
    // Three samples queued for a stereo stream: only one whole frame is safe.
    let mut shared = RtShared::new(48000, 2, false);
    let n = whole_frame_samples(3, 8, 2);
    assert_eq!(n, 2);
    shared.set_pos_frames(advance_position(shared.pos_frames(), n, 2));
    assert_eq!(shared.pos_frames(), 1);
}

#[test]
fn scrub_advances_position_by_frames() {
    let mut shared = RtShared::new(44100, 2, false);
    let n = whole_frame_samples(6, 6, 2);
    assert_eq!(n, 6);
    shared.set_pos_frames(advance_position(shared.pos_frames(), n, 2));
    assert_eq!(shared.pos_frames(), 3);
}

#[test]
fn reconcile_seek_drains_and_rebases() {
    let mut shared = RtShared::new(48000, 1, false);
    let local = shared.seek_generation();
    assert_eq!(reconcile(local, &shared), SeekReconcile::Idle);
    let gen = shared.begin_seek(48000);
    assert_eq!(reconcile(local, &shared), SeekReconcile::Waiting, "worker has not acked yet");
    shared.publish_seek_done(gen);
    assert_eq!(reconcile(local, &shared), SeekReconcile::Rebase);
    // The consumer adopts the generation and re-bases the position.
    shared.set_pos_frames(shared.seek_target_frames());
    assert_eq!(shared.pos_frames(), 48000, "position re-based to the target");
    assert_eq!(reconcile(gen, &shared), SeekReconcile::Idle);
}

#[test]
fn bit_perfect_resampled_tracks_resampler() {
    let mut shared = RtShared::new(48000, 2, true);
    assert!(!shared.bit_perfect_resampled());
    shared.set_bit_perfect(true);
    assert!(shared.bit_perfect_resampled());
    let mut identity = RtShared::new(44100, 2, false);
    identity.set_bit_perfect(true);
    assert!(!identity.bit_perfect_resampled());
}

#[test]
fn whole_frames_bounded_by_wanted() {
    assert_eq!(whole_frame_samples(100, 7, 3), 6);
    assert_eq!(whole_frame_samples(0, 8, 2), 0);
}

#[test]
fn position_wraps_instead_of_overflowing() {
    assert_eq!(advance_position(u64::MAX, 4, 2), 1);
}

#[test]
fn new_control_block_defaults() {
    let s = RtShared::new(96000, 2, false);
    assert!(!s.is_playing());
    assert!(!s.muted());
    assert_eq!(s.out_rate(), 96000);
    assert_eq!(s.out_ch(), 2);
    assert_eq!(s.seek_generation(), 0);
    assert_eq!(s.seek_done_generation(), 0);
    assert!(!s.stop_requested());
}

#[test]
fn volume_bits_round_trip() {
    let mut s = RtShared::new(48000, 2, false);
    s.set_volume_bits(0.25f32.to_bits());
    assert_eq!(f32::from_bits(s.volume_bits()), 0.25);
}

#[test]
fn seek_handshake_end_to_end() {
    let mut shared = RtShared::new(48000, 2, false);
    shared.set_eof(true);
    let local = shared.seek_generation();
    let gen = transport_seek(&mut shared, 96000);
    // Not acknowledged yet: the consumer waits (and drains).
    assert_eq!(reconcile_seek_state(local, &mut shared), (local, false));
    shared.set_pos_frames(5);
    worker_seek_done(&mut shared, gen);
    assert!(!shared.eof());
    assert!(!shared.finished());
    assert_eq!(reconcile_seek_state(local, &mut shared), (gen, true));
    assert_eq!(shared.pos_frames(), 96000);
    assert_eq!(reconcile_seek_state(gen, &mut shared), (gen, true));
}

#[test]
fn seek_generations_count_the_seeks() {
    let mut s = RtShared::new(48_000, 2, false);
    for k in 1..=5u64 {
        assert_eq!(s.begin_seek(k * 100), k);
    }
    assert_eq!(s.seek_generation(), 5);
    assert_eq!(s.seek_target_frames(), 500);
}

#[test]
fn stop_stays_requested() {
    let mut s = RtShared::new(48_000, 2, false);
    s.request_stop();
    s.set_playing(true);
    s.set_finished(false);
    s.begin_seek(10);
    s.publish_seek_done(1);
    s.set_eof(true);
    assert!(s.stop_requested());
}
