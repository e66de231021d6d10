use std::hash::{DefaultHasher, Hash, Hasher};
use music_player_rs::json::{parse_json, JsonValue};
use music_player_rs::cover::{
    artwork_fields_of, artwork_from_fields, artwork_from_reply, cache_file_name, cache_prefix, embedded_cache_key, embedded_ext,
    ext_from_mime, folder_cover, folder_cover_candidates, hash_str, internet_cache_key,
    large_artwork_url, percent_encode, search_term, search_url, sniff_ext, sources_to_try,
    CoverConfig,
};
use music_player_rs::settings::{CoverSource, Settings};

#[test]
fn percent_encode_encodes_space_and_unicode() {
    assert_eq!(percent_encode("a b"), "a%20b");
    assert_eq!(percent_encode("Tame Impala Currents"), "Tame%20Impala%20Currents");
    assert_eq!(percent_encode("Пётр"), "%D0%9F%D1%91%D1%82%D1%80");
}

#[test]
fn hash_is_stable() {
    assert_eq!(hash_str("a/b/c.flac"), hash_str("a/b/c.flac"));
    assert_ne!(hash_str("a/b/c.flac"), hash_str("a/b/d.flac"));
}

#[test]
fn hash_str_is_std_hash_of_the_string() {
    let mut h = DefaultHasher::new();
    "internet|Artist Album".hash(&mut h);
    assert_eq!(hash_str("internet|Artist Album"), h.finish());
}

#[test]
fn sniff_detects_jpeg_and_png() {
    assert_eq!(sniff_ext(&[0xFF, 0xD8, 0xFF, 0xE0]), Some("jpg"));
    assert_eq!(sniff_ext(b"\x89PNG\r\n\x1a\n..."), Some("png"));
    assert_eq!(sniff_ext(b"GIF89a"), Some("gif"));
    assert_eq!(sniff_ext(b"not an image"), None);
}

#[test]
fn folder_cover_respects_name_order() {
    let dir = "/tmp/music_player_cover_test";
    let names: Vec<String> = ["cover.jpg", "art.png", "album.jpg"].iter().map(|s| s.to_string()).collect();
    // Only art.png exists in the folder.
    let present = [false, true, false];
    assert_eq!(folder_cover(Some(dir), &names, &present), Some(format!("{dir}/art.png")));
    // A missing folder holds none of them.
    assert_eq!(folder_cover(Some("/tmp/missing"), &names, &[false, false, false]), None);
    assert_eq!(folder_cover(None, &names, &present), None);
    assert_eq!(
        folder_cover_candidates(dir, &names),
        vec![format!("{dir}/cover.jpg"), format!("{dir}/art.png"), format!("{dir}/album.jpg")]
    );
}

#[test]
fn folder_cover_first_present_wins() {
    let names: Vec<String> = ["a.jpg", "b.jpg"].iter().map(|s| s.to_string()).collect();
    assert_eq!(folder_cover(Some("/x/"), &names, &[true, true]), Some("/x/a.jpg".to_string()));
}

#[test]
fn cover_priority_keys_roundtrip() {
    for c in CoverSource::all() {
        assert_eq!(CoverSource::from_key(c.key()), Some(c));
    }
    assert_eq!(CoverSource::from_key("nope"), None);
}

#[test]
fn sources_follow_priority_and_online_flag() {
    let cfg = CoverConfig {
        priority: vec!["internet".into(), "folder".into(), "bogus".into(), "embedded".into()],
        folder_names: vec![],
        online: true,
    };
    assert_eq!(sources_to_try(&cfg), vec![CoverSource::Internet, CoverSource::Folder, CoverSource::Embedded]);
    let offline = CoverConfig { online: false, ..cfg };
    assert_eq!(sources_to_try(&offline), vec![CoverSource::Folder, CoverSource::Embedded]);
}

#[test]
fn config_snapshot_of_default_settings() {
    let cfg = CoverConfig::from_settings(&Settings::default());
    assert_eq!(cfg.priority, vec!["folder".to_string(), "embedded".to_string(), "internet".to_string()]);
    assert!(cfg.online);
}

#[test]
fn mime_and_embedded_extensions() {
    assert_eq!(ext_from_mime("image/png"), "png");
    assert_eq!(ext_from_mime("image/jpeg"), "jpg");
    assert_eq!(ext_from_mime("application/x-unknown"), "jpg");
    assert_eq!(embedded_ext(b"\x89PNG\r\n\x1a\n", Some("image/jpeg")), "png");
    assert_eq!(embedded_ext(b"????", Some("image/png")), "png");
    assert_eq!(embedded_ext(b"????", None), "jpg");
}

#[test]
fn cache_names_and_keys() {
    assert_eq!(cache_prefix(0xab), "00000000000000ab");
    assert_eq!(cache_file_name(0x1234, "png"), "0000000000001234.png");
    assert_eq!(embedded_cache_key("/m/a.flac"), "embedded|/m/a.flac");
    assert_eq!(internet_cache_key("A B"), "internet|A B");
}

#[test]
fn search_term_and_url() {
    assert_eq!(search_term(Some("Tame Impala"), Some("Currents")), Some("Tame Impala Currents".to_string()));
    assert_eq!(search_term(None, None), None);
    assert_eq!(
        search_url("a b"),
        "https://itunes.apple.com/search?term=a%20b&entity=album&limit=5"
    );
}

#[test]
fn artwork_url_from_reply() {
    let body = r#"{"results":[{"artworkUrl100":"https://x/100x100bb.jpg"}]}"#;
    assert_eq!(artwork_from_reply(body), Some("https://x/600x600bb.jpg".to_string()));
    assert_eq!(artwork_from_reply("not json"), None);
    assert_eq!(artwork_from_reply(r#"{"results":[]}"#), None);
    assert_eq!(large_artwork_url("a/100x100/b"), "a/600x600/b");
}

#[test]
fn artwork_takes_the_first_present_field() {
    let fields = vec![None, Some("a/100x100bb.jpg".to_string()), Some("b/100x100.jpg".to_string())];
    assert_eq!(artwork_from_fields(&fields), Some("a/600x600bb.jpg".to_string()));
    assert_eq!(artwork_from_fields(&[None, None]), None);
    assert_eq!(artwork_from_fields(&[]), None);
    let body = r#"{"results":[{"collectionId":1},{"artworkUrl100":"c/100x100.png"}]}"#;
    assert_eq!(artwork_from_reply(body), Some("c/600x600.png".to_string()));
}

#[test]
fn artwork_fields_read_results_entries() {
    let v = parse_json(r#"{"resultCount":2,"results":[{"artworkUrl60":"a"},{"artworkUrl100":"b"},{"artworkUrl100":7}]}"#)
        .unwrap();
    assert_eq!(artwork_fields_of(&v), Some(vec![None, Some("b".to_string()), None]));
    assert_eq!(artwork_fields_of(&JsonValue::Array(vec![])), None);
    assert!(parse_json("{").is_none());
    let obj = JsonValue::Object(vec![("results".to_string(), JsonValue::Null)]);
    assert_eq!(artwork_fields_of(&obj), None);
}
