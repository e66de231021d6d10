use music_player_rs::playlist::{advance_index, advance_shuffle, is_supported_audio};
use music_player_rs::settings::RepeatMode;
use music_player_rs::track_list::{parse_track_list, track_list_text};

#[test]
fn advance_index_wraps_on_repeat_all() {
    assert_eq!(advance_index(Some(4), 1, 5, RepeatMode::All), Some(0));
    assert_eq!(advance_index(Some(0), -1, 5, RepeatMode::All), Some(4));
    assert_eq!(advance_index(Some(2), -1, 5, RepeatMode::All), Some(1));
}

#[test]
fn advance_index_clamps_without_repeat() {
    assert_eq!(advance_index(Some(4), 1, 5, RepeatMode::Off), None);
    assert_eq!(advance_index(Some(0), -1, 5, RepeatMode::Off), None);
    assert_eq!(advance_index(Some(2), 1, 5, RepeatMode::One), Some(3));
    assert_eq!(advance_index(None, 1, 5, RepeatMode::Off), Some(1));
}

#[test]
fn advance_shuffle_navigates_order() {
    let order = vec![3usize, 1, 4, 0, 2];
    assert_eq!(advance_shuffle(&order, 0, 1, RepeatMode::Off), Some((1, 1)));
    assert_eq!(advance_shuffle(&order, 4, 1, RepeatMode::Off), None);
    assert_eq!(advance_shuffle(&order, 4, 1, RepeatMode::All), Some((3, 0)));
    assert_eq!(advance_shuffle(&order, 0, -1, RepeatMode::All), Some((2, 4)));
}

#[test]
fn advance_on_empty_list_goes_nowhere() {
    assert_eq!(advance_index(Some(0), 1, 0, RepeatMode::All), None);
    assert_eq!(advance_shuffle(&[], 0, 1, RepeatMode::All), None);
}

#[test]
fn next_then_previous_returns() {
    for i in 0..5usize {
        let n = advance_index(Some(i), 1, 5, RepeatMode::All).unwrap();
        assert_eq!(advance_index(Some(n), -1, 5, RepeatMode::All), Some(i));
    }
}

#[test]
fn supported_audio_by_extension() {
    assert!(is_supported_audio("/m/a.FLAC"));
    assert!(is_supported_audio("/m/b.opus"));
    assert!(is_supported_audio("c.dsf"));
    assert!(!is_supported_audio("/m/cover.jpg"));
    assert!(!is_supported_audio("/m/flac"));
    assert!(!is_supported_audio("/m/.flac"));
}

#[test]
fn playlist_save_load_roundtrip() {
    let paths = vec!["/music/a.flac".to_string(), "/music/b.wav".to_string()];
    let text = track_list_text(&paths);
    assert_eq!(text, "/music/a.flac\n/music/b.wav\n");
    let loaded = parse_track_list(&text);
    assert_eq!(loaded.len(), 2);
    assert_eq!(loaded[0], "/music/a.flac");
    assert_eq!(loaded[1], "/music/b.wav");
}

#[test]
fn load_track_list_skips_non_audio_and_comments() {
    let loaded = parse_track_list("#EXTM3U\n/unsupported.txt\n/music/c.mp3\n");
    assert_eq!(loaded.len(), 1);
    assert_eq!(loaded[0], "/music/c.mp3");
}

#[test]
fn track_list_trims_dedups_and_needs_absolute_paths() {
    let text = "  /m/a.flac \r\n; note\nrel/b.flac\n/m//./a.flac\n\n/m/c.ogg";
    assert_eq!(parse_track_list(text), vec!["/m/a.flac".to_string(), "/m/c.ogg".to_string()]);
    assert!(parse_track_list("").is_empty());
}

#[test]
fn saving_a_loaded_playlist_keeps_it() {
    let text = "#EXTM3U\n /m/a.flac\n/m/a.flac\n/m/b.mp3\r\nrel.flac\n/m/c.txt\n";
    let loaded = parse_track_list(text);
    assert_eq!(loaded, vec!["/m/a.flac".to_string(), "/m/b.mp3".to_string()]);
    assert_eq!(parse_track_list(&track_list_text(&loaded)), loaded);
}
