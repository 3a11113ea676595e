use press_party::cli::{check_changes, check_paths, dedup, dry_run_note, expand, set_report, Input};
use press_party::dump::{art_label, report_rows, row, row_owned};
use press_party::meta::{Changes, Track};

fn s(v: &str) -> String {
    v.to_string()
}

#[test]
fn expansion_collects_in_order_and_skips_non_audio() {
    let inputs = vec![
        Input::File(s("one.mp3")),
        Input::Dir(vec![s("d/a.flac"), s("d/b.mp3")]),
        Input::File(s("notes.txt")),
        Input::File(s("two.ogg")),
    ];
    let (skipped, r) = expand(inputs);
    assert_eq!(skipped, vec![s("notes.txt")]);
    assert_eq!(r.unwrap(), vec![s("one.mp3"), s("d/a.flac"), s("d/b.mp3"), s("two.ogg")]);
}

#[test]
fn missing_path_ends_expansion() {
    let inputs = vec![
        Input::File(s("x.txt")),
        Input::Missing(s("gone.mp3")),
        Input::File(s("later.txt")),
        Input::Missing(s("also.mp3")),
    ];
    let (skipped, r) = expand(inputs);
    assert_eq!(skipped, vec![s("x.txt")]);
    assert_eq!(r.unwrap_err(), "no such file: gone.mp3");
}

#[test]
fn consecutive_duplicates_are_dropped() {
    let inputs = vec![
        Input::File(s("a.mp3")),
        Input::File(s("./a.mp3")),
        Input::File(s("a//a.mp3")),
        Input::File(s("a/a.mp3")),
        Input::File(s("b.mp3")),
        Input::File(s("a.mp3")),
    ];
    let (_, r) = expand(inputs);
    assert_eq!(r.unwrap(), vec![s("a.mp3"), s("./a.mp3"), s("a//a.mp3"), s("b.mp3"), s("a.mp3")]);
    assert_eq!(dedup(&vec![s("x"), s("x/"), s("y"), s("y")]), vec![s("x"), s("y")]);
    assert!(dedup(&vec![]).is_empty());
}

#[test]
fn set_needs_a_field_and_files() {
    assert_eq!(
        check_changes(&Changes::default()).unwrap_err(),
        "nothing to set — pass at least one field (e.g. --title, --art)"
    );
    assert!(check_changes(&Changes { track_no: Some(1), ..Changes::default() }).is_ok());
    assert_eq!(check_paths(&vec![]).unwrap_err(), "no audio files found");
    assert!(check_paths(&vec![s("a.mp3")]).is_ok());
}

#[test]
fn dry_run_message() {
    assert_eq!(
        dry_run_note(3, 1),
        "dry-run: 3 file(s) would change, 1 skipped. Pass without --dry-run to write."
    );
}

#[test]
fn set_report_counts_and_backups() {
    let outcomes = vec![
        Ok(None),
        Err(s("writing tags to b.mp3")),
        Ok(Some(s("/home/u/.local/share/press-party/backups/0a.c.mp3.bak"))),
        Ok(Some(s("/elsewhere/x.bak"))),
    ];
    assert_eq!(
        set_report(&outcomes, 2, true),
        "Wrote 3 file(s), 3 failed. Backups in /home/u/.local/share/press-party/backups"
    );
    assert_eq!(
        set_report(&vec![Ok(None)], 0, false),
        "Wrote 1 file(s), 0 failed. (no backups — --no-backup)"
    );
    assert_eq!(set_report(&vec![], 0, true), "Wrote 0 file(s), 0 failed.");
}

#[test]
fn report_rows_dash_empty_values() {
    let r = row("artist", Some(""));
    assert_eq!(r.label, "artist:");
    assert_eq!(r.value, None);
    let r = row_owned("year", Some(s("1999")));
    assert_eq!(r.value.as_deref(), Some("1999"));
    let t = Track {
        path: s("p.mp3"),
        title: None,
        artist: Some(s("Band")),
        album: Some(String::new()),
        album_artist: None,
        genre: Some(s("Rock")),
        year: Some(1987),
        track_no: Some(5),
        duration_secs: 0,
        format: s("MP3"),
        art_count: 0,
        file_size: 0,
    };
    let rows = report_rows(&t);
    let got: Vec<(String, Option<String>)> = rows.into_iter().map(|r| (r.label, r.value)).collect();
    assert_eq!(
        got,
        vec![
            (s("artist:"), Some(s("Band"))),
            (s("album:"), None),
            (s("album-artist:"), None),
            (s("genre:"), Some(s("Rock"))),
            (s("year:"), Some(s("1987"))),
            (s("track:"), Some(s("5"))),
        ]
    );
    assert_eq!(art_label(0), "none");
    assert_eq!(art_label(2), "2 embedded");
}
