use music_player_rs::settings::{clamp_ring_buffer_ms, RepeatMode, Settings, RING_BUFFER_MS_MAX};
use music_player_rs::text::{dec_string, parse_u32, path_join, replace, trimmed};

#[test]
fn decimal_and_parsing() {
    assert_eq!(dec_string(0), "0");
    assert_eq!(dec_string(1234567890123), "1234567890123");
    assert_eq!(parse_u32("42"), Some(42));
    assert_eq!(parse_u32("4294967295"), Some(u32::MAX));
    assert_eq!(parse_u32("4294967296"), None);
    assert_eq!(parse_u32(""), None);
    assert_eq!(parse_u32("+1"), Some(1));
    assert_eq!(parse_u32("1a"), None);
}

#[test]
fn trimming_replacing_joining() {
    assert_eq!(trimmed("\t a b \n"), "a b");
    assert_eq!(replace("aXbXc", "X", "--"), "a--b--c");
    assert_eq!(path_join("/a", "b"), "/a/b");
    assert_eq!(path_join("/a/", "b"), "/a/b");
    assert_eq!(path_join("", "b"), "b");
    assert_eq!(path_join("/a", "/abs"), "/abs");
}

#[test]
fn settings_defaults_and_limits() {
    let s = Settings::default();
    assert_eq!(s.repeat, RepeatMode::Off);
    assert!(s.cover_online);
    assert_eq!(clamp_ring_buffer_ms(u32::MAX), RING_BUFFER_MS_MAX);
    assert_eq!(RepeatMode::Off.next(), RepeatMode::All);
    assert_eq!(RepeatMode::One.next(), RepeatMode::Off);
}
