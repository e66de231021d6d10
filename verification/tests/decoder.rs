use music_player_rs::audio::decoder::{
    compute_bitrate, parse_number_pair, read_tags, year_from_date, MetaTag, StdTag, Tags,
};
use music_player_rs::meta::{bit_depth_string, flac_block, flac_start, format_name_for_ext, payload_bytes, FlacStart};

fn raw(key: &str, value: &str) -> MetaTag {
    MetaTag { key: key.to_string(), value: Some(value.to_string()), std: None }
}

#[test]
fn number_pairs() {
    assert_eq!(parse_number_pair("3/12"), (3, 12));
    assert_eq!(parse_number_pair(" 7 "), (7, 0));
    assert_eq!(parse_number_pair("x/9"), (0, 9));
    assert_eq!(parse_number_pair(""), (0, 0));
}

#[test]
fn year_from_dates() {
    assert_eq!(year_from_date("1986-06-09"), "1986");
    assert_eq!(year_from_date(" 2001 "), "2001");
    assert_eq!(year_from_date("spring"), "spring");
}

#[test]
fn bitrate_from_codec_parameters() {
    assert_eq!(compute_bitrate(44100, 2, Some(16)), 1411);
    assert_eq!(compute_bitrate(96000, 2, None), 3072);
    assert_eq!(compute_bitrate(0, 2, Some(24)), 0);
}

#[test]
fn tags_first_value_wins() {
    let tags = vec![
        raw("TITLE", "First"),
        raw("title", "Second"),
        raw("ALBUMARTIST", "Band"),
        raw("artist", "Ignored"),
        raw("TRACKNUMBER", "2/10"),
        raw("tracknumber", "5/12"),
        raw("DATE", "1999-01-01"),
        MetaTag { key: "x".into(), value: None, std: Some(StdTag::Genre("Jazz".into())) },
        MetaTag { key: "y".into(), value: None, std: Some(StdTag::DiscNumber(2)) },
        MetaTag { key: "z".into(), value: None, std: Some(StdTag::DiscTotal(3)) },
    ];
    let t = read_tags(&tags);
    assert_eq!(t.title.as_deref(), Some("First"));
    assert_eq!(t.artist.as_deref(), Some("Band"));
    assert_eq!(t.album_artist.as_deref(), Some("Band"));
    assert_eq!(t.track_number, 2);
    assert_eq!(t.track_total, 12);
    assert_eq!(t.year.as_deref(), Some("1999"));
    assert_eq!(t.genre.as_deref(), Some("Jazz"));
    assert_eq!(t.disc_number, 2);
    assert_eq!(t.disc_total, 3);
}

#[test]
fn optional_methods_have_safe_defaults() {
    let t = Tags::new();
    assert!(t.title.is_none() && t.artist.is_none() && t.album.is_none());
    assert_eq!((t.track_number, t.track_total, t.disc_number, t.disc_total), (0, 0, 0, 0));
    let empty = read_tags(&[]);
    assert!(empty.title.is_none());
}

#[test]
fn format_and_bit_depth_columns() {
    assert_eq!(format_name_for_ext("flac"), "FLAC");
    assert_eq!(format_name_for_ext("m4b"), "M4A/AAC");
    assert_eq!(format_name_for_ext("xyz"), "Unknown");
    assert_eq!(bit_depth_string(Some("dsd64"), Some(1)), "dsd64");
    assert_eq!(bit_depth_string(None, Some(24)), "24 bit");
    assert_eq!(bit_depth_string(None, Some(0)), "");
    assert_eq!(bit_depth_string(None, None), "");
}

#[test]
fn flac_payload_offsets() {
    let id3 = [0x49, 0x44, 0x33, 3, 0, 0, 0, 0, 0x02, 0x01];
    assert_eq!(flac_start(&id3, 10), FlacStart::AfterId3(10 + 0x101));
    assert_eq!(flac_start(&id3, 9), FlacStart::NotFlac);
    // Size bytes are or-ed as read: a set high bit overlaps the next byte.
    let loose = [0x49, 0x44, 0x33, 3, 0, 0, 0, 0, 0x01, 0x80];
    assert_eq!(flac_start(&loose, 10), FlacStart::AfterId3(10 + 0x80));
    let flac = [0x66, 0x4C, 0x61, 0x43, 0, 0, 0, 0, 0, 0];
    assert_eq!(flac_start(&flac, 10), FlacStart::AtStart);
    assert_eq!(flac_block(4, &[0x80, 0x00, 0x00, 0x22]), (true, 4 + 4 + 0x22));
    assert_eq!(flac_block(4, &[0x00, 0x01, 0x00, 0x00]), (false, 4 + 4 + 0x1_0000));
    assert_eq!(payload_bytes(1000, Some(200)), 800);
    assert_eq!(payload_bytes(1000, Some(2000)), 1000);
    assert_eq!(payload_bytes(1000, None), 1000);
}

#[test]
fn only_the_first_date_is_cut_to_a_year() {
    // The title's fourth byte is inside a character; only dates are cut.
    let tags = vec![raw("TITLE", "aéé"), raw("DATE", "2001-02-03"), raw("YEAR", "x")];
    let t = read_tags(&tags);
    assert_eq!(t.title.as_deref(), Some("aéé"));
    assert_eq!(t.year.as_deref(), Some("2001"));
}
