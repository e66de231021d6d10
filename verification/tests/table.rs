use std::cmp::Ordering;

use music_player_rs::settings::ColumnId;
use music_player_rs::table::{
    duration_text, file_name, sort_direction, sort_for_column, sort_order, sort_rows_compare, sort_rows_text,
    PathPart, TrackRow,
};

fn parts(path: &str) -> Vec<PathPart> {
    let mut v = vec![PathPart::RootDir];
    for p in path.split('/').filter(|p| !p.is_empty()) {
        v.push(match p {
            "." => PathPart::CurDir,
            ".." => PathPart::ParentDir,
            name => PathPart::Normal(name.to_string()),
        });
    }
    v
}

fn at_path(mut r: TrackRow, path: &str) -> TrackRow {
    r.path_parts = parts(path);
    r.path_text = path.to_string();
    r
}

fn track(title: &str, artist: &str, year: &str, bitrate: u32, dur: Option<f64>) -> TrackRow {
    let row = TrackRow {
        title: title.to_string(),
        artist: if artist.is_empty() { None } else { Some(artist.to_string()) },
        album: None,
        genre: None,
        track_number: 0,
        year: year.to_string(),
        format: "FLAC".to_string(),
        bitrate,
        bit_depth: "24 bit".to_string(),
        sample_rate: 96000,
        duration_secs: dur.filter(|d| d.is_finite() && *d >= 0.0).map(|d| d.round() as u64),
        duration_order: dur.map(|d| if d >= 0.0 { d.abs().to_bits() } else { 0 }),
        path_parts: Vec::new(),
        path_text: String::new(),
    };
    at_path(row, "/tmp/x.flac")
}

fn check_text_formats_columns() {
    let mut t = track("Title", "Artist", "2001", 1411, Some(186.0));
    t.genre = Some("Rock".to_string());
    t.track_number = 3;
    assert_eq!(sort_rows_text(&t, ColumnId::Title), "Title");
    assert_eq!(sort_rows_text(&t, ColumnId::Artist), "Artist");
    assert_eq!(sort_rows_text(&t, ColumnId::Genre), "Rock");
    assert_eq!(sort_rows_text(&t, ColumnId::TrackNumber), "3");
    assert_eq!(sort_rows_text(&t, ColumnId::Year), "2001");
    assert_eq!(sort_rows_text(&t, ColumnId::Format), "FLAC");
    assert_eq!(sort_rows_text(&t, ColumnId::Bitrate), "1411 kbps");
    assert_eq!(sort_rows_text(&t, ColumnId::BitDepth), "24 bit");
    assert_eq!(sort_rows_text(&t, ColumnId::SampleRate), "96000 Hz");
    assert_eq!(sort_rows_text(&t, ColumnId::Duration), "3:06");
    assert_eq!(sort_rows_text(&t, ColumnId::FileName), "x.flac");
    assert_eq!(sort_rows_text(&t, ColumnId::FilePath), "/tmp/x.flac");
}

fn check_empty_fields_render_blank() {
    let mut t = track("Title", "", "2001", 0, None);
    t.sample_rate = 0;
    t.bit_depth = String::new();
    assert_eq!(sort_rows_text(&t, ColumnId::Artist), "");
    assert_eq!(sort_rows_text(&t, ColumnId::Bitrate), "");
    assert_eq!(sort_rows_text(&t, ColumnId::SampleRate), "");
    assert_eq!(sort_rows_text(&t, ColumnId::Duration), "--:--");
}

fn check_compare_orders_by_column() {
    let mut a = track("Bee", "z", "1999", 100, Some(100.0));
    let mut b = track("Alfa", "a", "2000", 500, Some(50.0));
    a.genre = Some("Metal".to_string());
    b.genre = Some("Blues".to_string());
    a.track_number = 2;
    b.track_number = 1;
    assert_eq!(sort_rows_compare(&a, &b, ColumnId::Title), Ordering::Greater);
    assert_eq!(sort_rows_compare(&a, &b, ColumnId::Artist), Ordering::Greater);
    assert_eq!(sort_rows_compare(&a, &b, ColumnId::Genre), Ordering::Greater);
    assert_eq!(sort_rows_compare(&a, &b, ColumnId::TrackNumber), Ordering::Greater);
    assert_eq!(sort_rows_compare(&a, &b, ColumnId::Year), Ordering::Less);
    assert_eq!(sort_rows_compare(&a, &b, ColumnId::Bitrate), Ordering::Less);
    assert_eq!(sort_rows_compare(&a, &b, ColumnId::Duration), Ordering::Greater);
}

#[test]
fn app_sort_rows_text_formats_columns() {
    check_text_formats_columns();
}

#[test]
fn mod_sort_rows_text_formats_columns() {
    check_text_formats_columns();
}

#[test]
fn app_sort_rows_empty_fields_render_blank() {
    check_empty_fields_render_blank();
}

#[test]
fn mod_sort_rows_empty_fields_render_blank() {
    check_empty_fields_render_blank();
}

#[test]
fn app_sort_rows_compare_orders_by_column() {
    check_compare_orders_by_column();
}

#[test]
fn mod_sort_rows_compare_orders_by_column() {
    check_compare_orders_by_column();
}

#[test]
fn durations_show_hours_minutes_seconds() {
    assert_eq!(duration_text(Some(0)), "0:00");
    assert_eq!(duration_text(Some(59)), "0:59");
    assert_eq!(duration_text(Some(600)), "10:00");
    assert_eq!(duration_text(Some(3723)), "1:02:03");
    assert_eq!(duration_text(None), "--:--");
}

#[test]
fn sort_is_stable_in_both_directions() {
    let rows = vec![
        track("b", "", "", 0, None),
        track("a", "", "", 0, None),
        track("b", "", "", 0, None),
        track("c", "", "", 0, None),
        track("a", "", "", 0, None),
    ];
    assert_eq!(sort_order(&rows, ColumnId::Title, false), vec![1, 4, 0, 2, 3]);
    assert_eq!(sort_order(&rows, ColumnId::Title, true), vec![3, 0, 2, 1, 4]);
    // Every row ties under the now-playing column.
    assert_eq!(sort_order(&rows, ColumnId::NowPlaying, true), vec![0, 1, 2, 3, 4]);
    assert_eq!(sort_order(&[], ColumnId::Title, false), Vec::<usize>::new());
}

#[test]
fn unknown_durations_sort_first() {
    let rows = vec![track("x", "", "", 0, Some(90.5)), track("y", "", "", 0, None), track("z", "", "", 0, Some(3.0))];
    assert_eq!(sort_order(&rows, ColumnId::Duration, false), vec![1, 2, 0]);
}

#[test]
fn paths_sort_by_component() {
    // "/a/b" sorts before "/a.b": component "a" is a prefix of "a.b".
    let rows = vec![
        at_path(track("1", "", "", 0, None), "/a.b"),
        at_path(track("2", "", "", 0, None), "/a/b"),
        at_path(track("3", "", "", 0, None), "/a/../c"),
    ];
    assert_eq!(sort_rows_compare(&rows[1], &rows[0], ColumnId::FilePath), Ordering::Less);
    // A parent-directory component sorts before any name.
    assert_eq!(sort_rows_compare(&rows[2], &rows[1], ColumnId::FilePath), Ordering::Less);
    assert_eq!(sort_order(&rows, ColumnId::FilePath, false), vec![2, 1, 0]);
}

#[test]
fn file_name_is_the_last_named_component() {
    assert_eq!(file_name(&parts("/music/a.flac")), "a.flac");
    assert_eq!(file_name(&parts("/music/..")), "");
    assert_eq!(file_name(&parts("/")), "");
    assert_eq!(file_name(&[]), "");
}

#[test]
fn sorting_the_same_column_again_flips_direction() {
    assert!(sort_direction(Some(ColumnId::Title), false, ColumnId::Title));
    assert!(!sort_direction(Some(ColumnId::Title), true, ColumnId::Title));
    assert!(!sort_direction(Some(ColumnId::Artist), false, ColumnId::Title));
    assert!(!sort_direction(None, true, ColumnId::Title));
}

#[test]
fn index_column_keeps_the_order() {
    let rows = vec![track("b", "", "", 0, None), track("a", "", "", 0, None)];
    assert_eq!(sort_for_column(&rows, ColumnId::Index, false), None);
    assert_eq!(sort_for_column(&rows, ColumnId::Title, false), Some(vec![1, 0]));
}

#[test]
fn descending_reverses_ascending_without_ties() {
    let rows = vec![
        track("m", "", "", 0, None),
        track("b", "", "", 0, None),
        track("z", "", "", 0, None),
        track("a", "", "", 0, None),
    ];
    let mut asc = sort_order(&rows, ColumnId::Title, false);
    assert_eq!(asc, vec![3, 1, 0, 2]);
    asc.reverse();
    assert_eq!(sort_order(&rows, ColumnId::Title, true), asc);
}
