use music_player_rs::display::{empty_dash, fmt_num, hex_color, now_playing_text, num_str, opt_str};

#[test]
fn num_slash_total_formats_numbers() {
    assert_eq!(fmt_num(0, 0).as_str(), "\u{2014}");
    assert_eq!(fmt_num(3, 0).as_str(), "3");
    assert_eq!(fmt_num(3, 12).as_str(), "3 / 12");
    assert_eq!(fmt_num(0, 12).as_str(), "\u{2014}");
}

#[test]
fn hex_color_parses_valid_inputs() {
    assert!(hex_color("#121018").is_some());
    assert!(hex_color("112233").is_some());
    assert!(hex_color("#00000088").is_some());
    assert!(hex_color("aaff0000").is_some());
}

#[test]
fn hex_color_rejects_invalid_inputs() {
    assert!(hex_color("").is_none());
    assert!(hex_color("#12345").is_none());
    assert!(hex_color("#1234567").is_none());
    assert!(hex_color("#gggggg").is_none());
    assert!(hex_color("#12345g").is_none());
    assert!(hex_color("ФфФФФФ").is_none());
}

#[test]
fn hex_color_channel_values() {
    assert_eq!(hex_color("#121018"), Some((255, 0x12, 0x10, 0x18)));
    assert_eq!(hex_color("#00000088"), Some((0x00, 0x00, 0x00, 0x88)));
    assert_eq!(hex_color("##AaFf0010"), Some((0xAA, 0xFF, 0x00, 0x10)));
}

#[test]
fn optional_texts_use_dash() {
    assert_eq!(opt_str(&None), "\u{2014}");
    assert_eq!(opt_str(&Some("Album".to_string())), "Album");
    assert_eq!(empty_dash(""), "\u{2014}");
    assert_eq!(empty_dash("FLAC"), "FLAC");
    assert_eq!(num_str(24, " bit"), "24 bit");
    assert_eq!(num_str(0, " bit"), "\u{2014}");
}

#[test]
fn now_playing_line() {
    assert_eq!(now_playing_text("Song", Some("Band")), "Song \u{2014} Band");
    assert_eq!(now_playing_text("Song", Some("")), "Song");
    assert_eq!(now_playing_text("Song", None), "Song");
}
