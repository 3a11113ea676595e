use press_party::art::{Art, MimeType};
use press_party::meta::{
    backup_dir, backup_target, build_plan, data_base_dir, DataEnv, Platform, field, field_u32, file_stem,
    file_type_name, parse_year, plan_batch, read_year, tag_writes, AudioFormat, Changes, Plan,
    TagData, TagWrite, Track,
};
use std::hash::{Hash, Hasher};
use std::path::Path;

fn sample_track(path: &str) -> Track {
    Track {
        path: path.to_string(),
        title: Some("Song".to_string()),
        artist: Some("Band".to_string()),
        album: None,
        album_artist: None,
        genre: None,
        year: Some(1999),
        track_no: None,
        duration_secs: 200,
        format: "MP3".to_string(),
        art_count: 0,
        file_size: 1000,
    }
}

fn cover() -> Art {
    Art { bytes: vec![0xFF, 0xD8, 0xFF], mime: MimeType::Jpeg, dimensions: Some((500, 400)) }
}

#[test]
fn year_is_the_leading_four_digits() {
    assert_eq!(parse_year("1999-03-01"), Some(1999));
    assert_eq!(parse_year("2024"), Some(2024));
    assert_eq!(parse_year("0042"), Some(42));
    assert_eq!(parse_year("199"), None);
    assert_eq!(parse_year("19x9"), None);
    assert_eq!(parse_year(""), None);
    assert_eq!(parse_year("١٩٩٩"), None);
}

#[test]
fn year_item_wins_over_recording_date() {
    assert_eq!(read_year(&Some("2001".into()), &Some("1999-01-01".into())), Some(2001));
    assert_eq!(read_year(&None, &Some("1999-01-01".into())), Some(1999));
    assert_eq!(read_year(&Some("abc".into()), &Some("1999".into())), None);
    assert_eq!(read_year(&None, &None), None);
}

#[test]
fn written_year_reads_back() {
    for y in [1000u32, 1999, 2024, 9999] {
        let c = Changes { year: Some(y), ..Changes::default() };
        let w = tag_writes(&c);
        assert_eq!(w.len(), 2);
        let (t, d) = match (&w[0], &w[1]) {
            (TagWrite::Year(t), TagWrite::RecordingDate(d)) => (t.clone(), d.clone()),
            _ => panic!("year writes"),
        };
        assert_eq!(read_year(&Some(t.clone()), &None), Some(y));
        assert_eq!(read_year(&None, &Some(d)), Some(y));
    }
    // A three-digit year does not read back.
    let c = Changes { year: Some(999), ..Changes::default() };
    let w = tag_writes(&c);
    match &w[0] {
        TagWrite::Year(t) => assert_eq!(read_year(&Some(t.clone()), &None), None),
        _ => panic!("year write"),
    }
}

#[test]
fn cover_only_changes_write_only_the_cover() {
    let c = Changes::art_only(cover());
    assert!(!c.is_empty());
    let w = tag_writes(&c);
    assert_eq!(w.len(), 1);
    assert!(matches!(&w[0], TagWrite::FrontCover(a) if a.bytes == vec![0xFF, 0xD8, 0xFF]));
}

#[test]
fn writes_follow_field_order() {
    let c = Changes {
        title: Some("T".into()),
        genre: Some("G".into()),
        track_no: Some(7),
        ..Changes::default()
    };
    let w = tag_writes(&c);
    assert_eq!(w.len(), 3);
    assert!(matches!(&w[0], TagWrite::Title(s) if s == "T"));
    assert!(matches!(&w[1], TagWrite::Genre(s) if s == "G"));
    assert!(matches!(&w[2], TagWrite::Track(7)));
}

#[test]
fn empty_changes_are_refused() {
    assert!(Changes::default().is_empty());
    let r = build_plan("a/b.mp3", Changes::default(), Ok(sample_track("a/b.mp3")));
    assert_eq!(r.err().unwrap(), "nothing to change for a/b.mp3");
}

#[test]
fn read_error_is_passed_on() {
    let c = Changes { title: Some("x".into()), ..Changes::default() };
    let r = build_plan("a.mp3", c, Err("reading tags from a.mp3".to_string()));
    assert_eq!(r.err().unwrap(), "reading tags from a.mp3");
}

#[test]
fn plan_renders_each_change() {
    let c = Changes {
        title: Some("New \"Song\"".into()),
        album: Some("LP".into()),
        year: Some(2001),
        track_no: Some(3),
        art: Some(cover()),
        ..Changes::default()
    };
    let plan = build_plan("m/s.mp3", c, Ok(sample_track("m/s.mp3"))).unwrap();
    let expect = [
        "Song  [MP3]",
        "    title: \"Song\" → \"New \\\"Song\\\"\"",
        "    album: \"—\" → \"LP\"",
        "    year: 1999 → 2001",
        "    track: — → 3",
        "    art: 0 → 1 (image/jpeg, 500×400)",
    ]
    .join("\n");
    assert_eq!(plan.render(), expect);
}

#[test]
fn field_lines_only_for_changes() {
    let mut lines = Vec::new();
    field(&mut lines, "title", &Some("a".into()), &None);
    field_u32(&mut lines, "year", Some(1), None);
    assert!(lines.is_empty());
    field(&mut lines, "genre", &None, &Some("Rock".into()));
    field_u32(&mut lines, "year", Some(1990), Some(1991));
    assert_eq!(lines, vec!["    genre: \"—\" → \"Rock\"", "    year: 1990 → 1991"]);
}

#[test]
fn batch_keeps_readable_targets_in_order() {
    let c = Changes { genre: Some("Jazz".into()), ..Changes::default() };
    let targets = vec![
        ("a.mp3".to_string(), "A".to_string()),
        ("b.mp3".to_string(), "B".to_string()),
        ("c.mp3".to_string(), "C".to_string()),
    ];
    let reads = vec![Ok(sample_track("a.mp3")), Err("bad file".to_string()), Ok(sample_track("c.mp3"))];
    let (plans, failures) = plan_batch(&c, &targets, reads);
    let paths: Vec<&str> = plans.iter().map(|p: &Plan| p.track.path.as_str()).collect();
    assert_eq!(paths, vec!["a.mp3", "c.mp3"]);
    assert_eq!(failures, vec![("B".to_string(), "bad file".to_string())]);
    assert_eq!(plans[0].changes.genre.as_deref(), Some("Jazz"));
}

#[test]
fn display_title_falls_back_to_file_name() {
    let mut t = sample_track("dir/file.flac");
    assert_eq!(t.display_title(), "Song");
    t.title = Some(String::new());
    assert_eq!(t.display_title(), "file.flac");
    t.title = None;
    t.path = "/".to_string();
    assert_eq!(t.display_title(), "(unknown)");
    assert_eq!(file_stem("x/y.ogg"), "y.ogg");
}

#[test]
fn snapshot_from_tag() {
    let tag = TagData {
        title: Some("T".into()),
        artist: None,
        album: Some("A".into()),
        album_artist: Some("AA".into()),
        genre: None,
        year: None,
        recording_date: Some("2003-05-06".into()),
        track: Some(4),
        picture_count: 2,
    };
    let t = Track::from_tag("p.m4a".into(), AudioFormat::Mp4, 61, 99, &Some(tag));
    assert_eq!(t.title.as_deref(), Some("T"));
    assert_eq!(t.year, Some(2003));
    assert_eq!(t.track_no, Some(4));
    assert_eq!(t.art_count, 2);
    assert_eq!(t.format, "M4A");
    let none = Track::from_tag("p.wav".into(), AudioFormat::Wav, 1, 2, &None);
    assert_eq!(none.title, None);
    assert_eq!(none.art_count, 0);
    assert_eq!(none.format, "WAV");
}

#[test]
fn container_names() {
    let cases = [
        (AudioFormat::Aac, "AAC"),
        (AudioFormat::Aiff, "AIFF"),
        (AudioFormat::Ape, "APE"),
        (AudioFormat::Flac, "FLAC"),
        (AudioFormat::Mpeg, "MP3"),
        (AudioFormat::Mp4, "M4A"),
        (AudioFormat::Opus, "OPUS"),
        (AudioFormat::Vorbis, "OGG"),
        (AudioFormat::Speex, "SPEEX"),
        (AudioFormat::Wav, "WAV"),
        (AudioFormat::WavPack, "WV"),
        (AudioFormat::Other, "AUDIO"),
    ];
    for (f, n) in cases {
        assert_eq!(file_type_name(f), n);
    }
}

#[test]
fn backup_name_uses_path_hash() {
    let mut h = std::collections::hash_map::DefaultHasher::new();
    Path::new("/music/a/song.mp3").hash(&mut h);
    let tag = format!("{:08x}", h.finish() & 0xffff_ffff);
    let target = backup_target("/data/backups", "/music/a/song.mp3", "a/song.mp3");
    assert_eq!(target, format!("/data/backups/{tag}.song.mp3.bak"));
    let other = backup_target("/data/backups", "/music/a/tune.mp3", "a/tune.mp3");
    assert_ne!(target, other);
    assert!(other.ends_with(".tune.mp3.bak"));
    assert!(backup_target("d", "/", "/").ends_with(".track.bak"));
}

#[test]
fn data_dir_prefers_xdg() {
    let env = |x: Option<&str>, h: Option<&str>, l: Option<&str>| DataEnv {
        xdg_data_home: x.map(String::from),
        home: h.map(String::from),
        local_app_data: l.map(String::from),
    };
    let u = Platform::Unix;
    assert_eq!(data_base_dir(u, &env(Some("/x"), Some("/home/u"), None)).unwrap(), "/x");
    assert_eq!(data_base_dir(u, &env(Some(""), Some("/home/u"), None)).unwrap(), "/home/u/.local/share");
    assert_eq!(data_base_dir(u, &env(None, None, Some("C:\\L"))).err().unwrap(), "HOME not set");
    assert_eq!(
        backup_dir(u, &env(None, Some("/home/u"), None)).unwrap(),
        "/home/u/.local/share/press-party/backups"
    );
}

#[test]
fn data_dir_on_macos_and_windows() {
    let env = |h: Option<&str>, l: Option<&str>| DataEnv {
        xdg_data_home: Some("/xdg".to_string()),
        home: h.map(String::from),
        local_app_data: l.map(String::from),
    };
    assert_eq!(
        backup_dir(Platform::MacOs, &env(Some("/Users/u"), None)).unwrap(),
        "/Users/u/Library/Application Support/press-party/backups"
    );
    assert_eq!(data_base_dir(Platform::MacOs, &env(None, None)).err().unwrap(), "HOME not set");
    assert_eq!(
        backup_dir(Platform::Windows, &env(None, Some("C:\\Users\\u\\AppData\\Local"))).unwrap(),
        "C:\\Users\\u\\AppData\\Local\\press-party\\backups"
    );
    assert_eq!(backup_dir(Platform::Windows, &env(None, Some("C:"))).unwrap(), "C:press-party\\backups");
    assert_eq!(
        data_base_dir(Platform::Windows, &env(Some("/h"), None)).err().unwrap(),
        "LOCALAPPDATA not set"
    );
}

#[test]
fn preview_lines_hold_no_line_feed() {
    let c = Changes {
        title: Some("two\nlines".into()),
        artist: Some("Plain".into()),
        year: Some(1990),
        ..Changes::default()
    };
    let plan = build_plan("m/s.mp3", c, Ok(sample_track("m/s.mp3"))).unwrap();
    let lines = plan.render_lines();
    assert_eq!(lines.len(), 4);
    assert!(lines.iter().skip(1).all(|l| !l.contains('\n')));
    assert_eq!(lines[1], "    title: \"Song\" → \"two\\nlines\"");
    assert_eq!(lines[2], "    artist: \"Band\" → \"Plain\"");
    assert_eq!(plan.render().lines().count(), 4);
}
