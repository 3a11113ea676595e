use press_party::art::{Art, MimeType};
use press_party::meta::{build_plan, Changes, Plan, Track};
use press_party::tui::app::{App, EditState, Focus, InputMode, PendingBatch, StatusLevel};
use press_party::tui::data::{image_visible, load_rows, track_visible, ImageRow};
use press_party::tui::events::{changes_from_edit, changes_summary, handle_key, Action, KeyCode, KeyInput};
use press_party::tui::preview::{embedded_read, file_read, fits_preview, preview_step, PreviewStep, SourceRead};
use press_party::tui::view::{
    column_title, confirm_view, edit_view, image_lines, preview_info, preview_title, search_bar,
    top_bar, track_lines,
};
use std::hash::Hasher;

fn track(path: &str, title: &str, artist: Option<&str>) -> Track {
    Track {
        path: path.to_string(),
        title: Some(title.to_string()),
        artist: artist.map(|a| a.to_string()),
        album: None,
        album_artist: None,
        genre: None,
        year: Some(2000),
        track_no: Some(1),
        duration_secs: 125,
        format: "FLAC".to_string(),
        art_count: 1,
        file_size: 10,
    }
}

fn press(code: KeyCode) -> KeyInput {
    KeyInput { code, ctrl: false, other_mods: false, press: true }
}

fn ch(c: char) -> KeyInput {
    press(KeyCode::Char(c))
}

fn sample_app() -> App {
    let reads = vec![
        Some(track("m/a.flac", "Alpha", Some("Zed"))),
        None,
        Some(track("m/b.flac", "Beta", None)),
    ];
    let images = vec![
        ImageRow::from_parts("m/Cover.JPG".to_string(), Some((600, 600)), 2048),
        ImageRow::from_parts("m/back.png".to_string(), None, 10),
    ];
    let (tracks, images, skipped) = load_rows(reads, images);
    App::new("m".to_string(), true, tracks, images, skipped)
}

fn art() -> Art {
    Art { bytes: vec![1, 2, 3], mime: MimeType::Png, dimensions: Some((1, 1)) }
}

#[test]
fn new_state_counts_rows() {
    let app = sample_app();
    assert_eq!(app.status.text, "2 tracks, 2 images. (1 unreadable, skipped)");
    assert_eq!(app.status.level, StatusLevel::Info);
    assert_eq!(app.img_col.visible, vec![0, 1]);
    assert_eq!(app.trk_col.visible, vec![0, 1]);
    assert_eq!(app.focus, Focus::Images);
    assert!(app.backup);
    assert_eq!(app.tracks[1].title, "Beta");
    assert_eq!(app.images[0].name, "Cover.JPG");
}

#[test]
fn quit_at_once_without_work() {
    let mut app = sample_app();
    assert!(matches!(handle_key(&mut app, ch('q')), Action::Nothing));
    assert!(app.should_quit);
}

#[test]
fn quit_asks_again_with_selection() {
    let mut app = sample_app();
    handle_key(&mut app, press(KeyCode::Tab));
    assert_eq!(app.focus, Focus::Tracks);
    handle_key(&mut app, ch(' '));
    assert_eq!(app.trk_col.selected.ids(), vec!["m/a.flac".to_string()]);
    handle_key(&mut app, ch('q'));
    assert!(!app.should_quit);
    assert_eq!(app.status.level, StatusLevel::Warn);
    assert_eq!(app.status.text, "1 track(s) selected. Press 'q' again to quit.");
    handle_key(&mut app, press(KeyCode::Esc));
    assert!(app.should_quit);
}

#[test]
fn another_key_cancels_the_pending_quit() {
    let mut app = sample_app();
    handle_key(&mut app, press(KeyCode::Tab));
    handle_key(&mut app, ch(' '));
    handle_key(&mut app, ch('q'));
    assert!(app.quit_pending);
    handle_key(&mut app, press(KeyCode::Down));
    assert!(!app.quit_pending);
    handle_key(&mut app, ch('q'));
    assert!(!app.should_quit);
}

#[test]
fn releases_are_ignored() {
    let mut app = sample_app();
    let k = KeyInput { code: KeyCode::Char('q'), ctrl: false, other_mods: false, press: false };
    handle_key(&mut app, k);
    assert!(!app.should_quit);
}

#[test]
fn space_toggles_selection_twice() {
    let mut app = sample_app();
    handle_key(&mut app, press(KeyCode::Tab));
    handle_key(&mut app, press(KeyCode::Down));
    handle_key(&mut app, ch(' '));
    assert_eq!(app.trk_col.selected.ids(), vec!["m/b.flac".to_string()]);
    handle_key(&mut app, ch(' '));
    assert!(app.trk_col.selected.is_empty());
}

#[test]
fn cursor_moves_clamp() {
    let mut app = sample_app();
    handle_key(&mut app, press(KeyCode::PageDown));
    assert_eq!(app.img_col.cursor, 1);
    handle_key(&mut app, press(KeyCode::Up));
    handle_key(&mut app, press(KeyCode::Up));
    assert_eq!(app.img_col.cursor, 0);
    handle_key(&mut app, ch('G'));
    assert_eq!(app.img_col.cursor, 1);
    handle_key(&mut app, ch('g'));
    assert_eq!(app.img_col.cursor, 0);
}

#[test]
fn help_closes_on_any_key() {
    let mut app = sample_app();
    handle_key(&mut app, ch('?'));
    assert_eq!(app.mode, InputMode::Help);
    assert!(app.modal_open());
    handle_key(&mut app, ch('x'));
    assert_eq!(app.mode, InputMode::Normal);
}

#[test]
fn search_filters_the_focused_column() {
    let mut app = sample_app();
    handle_key(&mut app, press(KeyCode::Tab));
    handle_key(&mut app, ch('/'));
    assert_eq!(app.mode, InputMode::Search(Focus::Tracks));
    handle_key(&mut app, ch('Z'));
    assert_eq!(app.trk_col.query, "Z");
    assert_eq!(app.trk_col.visible, vec![0]);
    handle_key(&mut app, press(KeyCode::Backspace));
    assert_eq!(app.trk_col.visible, vec![0, 1]);
    handle_key(&mut app, ch('b'));
    handle_key(&mut app, ch('e'));
    assert_eq!(app.trk_col.visible, vec![1]);
    assert_eq!(app.trk_col.cursor, 0);
    let ctrl_u = KeyInput { code: KeyCode::Char('u'), ctrl: true, other_mods: false, press: true };
    handle_key(&mut app, ctrl_u);
    assert_eq!(app.trk_col.query, "");
    handle_key(&mut app, press(KeyCode::Enter));
    assert_eq!(app.mode, InputMode::Normal);
}

#[test]
fn visible_rows_use_trimmed_lowercase_query() {
    let app = sample_app();
    assert_eq!(track_visible(&app.tracks, "  ALPHA "), vec![0]);
    assert_eq!(track_visible(&app.tracks, "zed"), vec![0]);
    assert_eq!(track_visible(&app.tracks, "   "), vec![0, 1]);
    assert_eq!(image_visible(&app.images, "COVER"), vec![0]);
    assert_eq!(image_visible(&app.images, "png"), vec![1]);
}

#[test]
fn backup_and_clear_report_on_the_status_line() {
    let mut app = sample_app();
    handle_key(&mut app, ch('b'));
    assert!(!app.backup);
    assert_eq!(app.status.text, "backup = off");
    handle_key(&mut app, ch('b'));
    assert_eq!(app.status.text, "backup = ON");
    handle_key(&mut app, ch('c'));
    assert_eq!(app.status.text, "cleared selection");
}

#[test]
fn rescan_round_trip() {
    let mut app = sample_app();
    assert!(matches!(handle_key(&mut app, ch('R')), Action::Rescan));
    let (tracks, images, _) = load_rows(vec![Some(track("m/c.flac", "Gamma", None))], vec![]);
    app.finish_rescan(Ok((tracks, images)));
    assert_eq!(app.status.level, StatusLevel::Success);
    assert_eq!(app.status.text, "Rescanned: 1 tracks, 0 images.");
    assert_eq!(app.img_col.visible, Vec::<usize>::new());
    app.finish_rescan(Err("scanning m".to_string()));
    assert_eq!(app.status.level, StatusLevel::Error);
    assert_eq!(app.status.text, "rescan failed: scanning m");
}

#[test]
fn cover_assignment_flow() {
    let mut app = sample_app();
    let a = handle_key(&mut app, press(KeyCode::Enter));
    let (image_path, image_name, targets) = match a {
        Action::BuildCoverBatch { image_path, image_name, targets } => (image_path, image_name, targets),
        _ => panic!("expected a cover batch"),
    };
    assert_eq!(image_path, "m/Cover.JPG");
    assert_eq!(image_name, "Cover.JPG");
    assert_eq!(targets, vec![("m/a.flac".to_string(), "Alpha".to_string())]);
    app.cover_load_failed("reading image m/Cover.JPG");
    assert_eq!(app.status.text, "load image failed: reading image m/Cover.JPG");
    app.finish_cover_batch(&image_name, vec![], vec![]);
    assert_eq!(app.status.text, "no applicable tracks");
    let plan = build_plan("m/a.flac", Changes::art_only(art()), Ok(track("m/a.flac", "Alpha", None))).unwrap();
    app.finish_cover_batch(&image_name, vec![plan], vec![("Beta".to_string(), "bad".to_string())]);
    assert_eq!(app.mode, InputMode::Confirm);
    let batch = app.pending.as_ref().unwrap();
    assert_eq!(batch.summary, "cover: Cover.JPG");
    let v = confirm_view(batch, app.backup);
    assert_eq!(v.titles, vec!["Alpha".to_string()]);
    assert_eq!(v.skipped, vec!["  Beta: bad".to_string()]);
    assert_eq!(v.footer, "[y/enter] assign to 1     [n/esc] cancel    backup=ON");
    let a = handle_key(&mut app, ch('y'));
    let batch = match a {
        Action::Apply { batch, backup } => {
            assert!(backup);
            batch
        }
        _ => panic!("expected apply"),
    };
    assert!(app.pending.is_none());
    let (tracks, images, _) = load_rows(vec![Some(track("m/a.flac", "Alpha", None))], vec![]);
    app.finish_apply(batch, vec![Ok(Some("/d/press-party/backups/x.a.flac.bak".to_string()))], Ok((tracks, images)));
    assert_eq!(app.mode, InputMode::Normal);
    assert_eq!(app.status.level, StatusLevel::Success);
    assert_eq!(app.status.text, "Wrote cover: Cover.JPG to 1/1. Backups in /d/press-party/backups");
    assert!(!app.unresolved_errors);
}

fn two_plan_batch() -> PendingBatch {
    let c = Changes { genre: Some("Jazz".to_string()), ..Changes::default() };
    let p1: Plan = build_plan("m/a.flac", Changes { genre: Some("Jazz".to_string()), ..Changes::default() }, Ok(track("m/a.flac", "Alpha", None))).unwrap();
    let p2: Plan = build_plan("m/b.flac", c, Ok(track("m/b.flac", "Beta", None))).unwrap();
    PendingBatch { summary: "genre".to_string(), plans: vec![p1, p2], failures: vec![] }
}

#[test]
fn failed_apply_leaves_errors_unresolved() {
    let mut app = sample_app();
    handle_key(&mut app, press(KeyCode::Tab));
    handle_key(&mut app, ch(' '));
    app.finish_apply(
        two_plan_batch(),
        vec![Err("writing tags to m/a.flac".to_string()), Ok(None)],
        Err("scanning m".to_string()),
    );
    assert!(app.trk_col.selected.is_empty());
    assert_eq!(app.status.level, StatusLevel::Error);
    assert_eq!(app.status.text, "Wrote 1/2. Failed → \"Alpha\": writing tags to m/a.flac");
    assert!(app.unresolved_errors);
    handle_key(&mut app, ch('q'));
    assert!(!app.should_quit);
    assert_eq!(app.status.text, "unresolved errors. Press 'q' again to quit.");
}

#[test]
fn several_failures_are_counted() {
    let mut app = sample_app();
    app.finish_apply(two_plan_batch(), vec![Err("e1".to_string()), Err("e2".to_string())], Err("x".to_string()));
    assert_eq!(app.status.text, "Wrote 0/2. Failed → \"Alpha\": e1 (+1 more)");
}

#[test]
fn edit_flow_for_one_track() {
    let mut app = sample_app();
    handle_key(&mut app, press(KeyCode::Tab));
    let a = handle_key(&mut app, ch('e'));
    let path = match a {
        Action::ReadForEdit { path } => path,
        _ => panic!("expected a read"),
    };
    assert_eq!(path, "m/a.flac");
    app.open_edit(Some(track("m/a.flac", "Alpha", Some("Zed"))));
    assert_eq!(app.mode, InputMode::Edit);
    assert_eq!(app.status.text, "editing 1 track");
    let e = app.edit.as_ref().unwrap();
    assert_eq!(e.values, vec!["Alpha", "Zed", "", "", "", "2000", "1"]);
    let v = edit_view(e);
    assert_eq!(v.scope, " EDIT TRACK ");
    assert_eq!(v.fields[0].label, "        title: ");
    assert_eq!(v.fields[0].value, "Alpha_");
    assert_eq!(v.fields[2].value, "—");
    assert!(v.fields[2].placeholder);
    assert_eq!(v.fields[3].label, " album-artist: ");
    // Focus the year field and make it invalid.
    for _ in 0..5 {
        handle_key(&mut app, press(KeyCode::Tab));
    }
    handle_key(&mut app, ch('x'));
    assert_eq!(app.edit.as_ref().unwrap().targets, vec!["m/a.flac".to_string()]);
    assert!(matches!(handle_key(&mut app, press(KeyCode::Enter)), Action::Nothing));
    assert_eq!(app.edit.as_ref().unwrap().error.as_deref(), Some("year '2000x' is not a number"));
    handle_key(&mut app, press(KeyCode::Backspace));
    let a = handle_key(&mut app, press(KeyCode::Enter));
    let (summary, changes, targets) = match a {
        Action::BuildEditBatch { summary, changes, targets } => (summary, changes, targets),
        _ => panic!("expected an edit batch"),
    };
    assert_eq!(summary, "title, artist, year, track");
    assert_eq!(changes.year, Some(2000));
    assert_eq!(targets, vec![("m/a.flac".to_string(), "Alpha".to_string())]);
    let plan = build_plan("m/a.flac", changes, Ok(track("m/a.flac", "Alpha", Some("Zed")))).unwrap();
    app.finish_edit_batch(summary, vec![plan], vec![]);
    assert_eq!(app.mode, InputMode::Confirm);
    handle_key(&mut app, ch('n'));
    assert_eq!(app.mode, InputMode::Edit);
    assert!(app.pending.is_none());
    handle_key(&mut app, press(KeyCode::Esc));
    assert_eq!(app.mode, InputMode::Normal);
    assert!(app.edit.is_none());
    assert_eq!(app.status.text, "edit cancelled");
}

#[test]
fn edit_of_several_tracks_starts_blank() {
    let mut app = sample_app();
    handle_key(&mut app, press(KeyCode::Tab));
    handle_key(&mut app, ch(' '));
    handle_key(&mut app, press(KeyCode::Down));
    handle_key(&mut app, ch(' '));
    assert!(matches!(handle_key(&mut app, ch('e')), Action::Nothing));
    assert_eq!(app.status.text, "editing 2 tracks");
    let e = app.edit.as_ref().unwrap();
    assert!(e.batch);
    assert!(e.values.iter().all(|v| v.is_empty()));
    assert_eq!(edit_view(e).scope, " EDIT 2 TRACKS ");
    handle_key(&mut app, press(KeyCode::Enter));
    assert_eq!(
        app.edit.as_ref().unwrap().error.as_deref(),
        Some("nothing to change — fill at least one field")
    );
    app.finish_edit_batch("genre".to_string(), vec![], vec![]);
    assert_eq!(app.edit.as_ref().unwrap().error.as_deref(), Some("no applicable tracks"));
}

#[test]
fn no_target_edit_and_cover_errors() {
    let reads: Vec<Option<Track>> = vec![];
    let (tracks, images, skipped) = load_rows(reads, vec![]);
    let mut app = App::new("m".to_string(), false, tracks, images, skipped);
    assert_eq!(app.status.text, "0 tracks, 0 images.");
    handle_key(&mut app, ch('e'));
    assert_eq!(app.status.text, "no tracks to edit");
    handle_key(&mut app, press(KeyCode::Enter));
    assert_eq!(app.status.text, "no image to assign");
    let (tracks, images, _) = load_rows(vec![], vec![ImageRow::from_parts("c.png".to_string(), None, 1)]);
    app.finish_rescan(Ok((tracks, images)));
    handle_key(&mut app, press(KeyCode::Enter));
    assert_eq!(app.status.text, "no tracks selected");
}

#[test]
fn unread_single_target_opens_blank() {
    let mut app = sample_app();
    let e = app.make_edit_state(None).unwrap();
    assert_eq!(e.targets, vec!["m/a.flac".to_string()]);
    assert!(!e.batch);
    assert!(e.values.iter().all(|v| v.is_empty()));
    app.open_edit(None);
    assert_eq!(app.mode, InputMode::Edit);
    assert_eq!(app.status.text, "editing 1 track");
}

#[test]
fn focused_column_follows_focus() {
    let mut app = sample_app();
    app.focused_column_mut().cursor = 1;
    assert_eq!(app.img_col.cursor, 1);
    app.focus = Focus::Tracks;
    assert_eq!(app.focused_column_mut().visible, vec![0, 1]);
}

#[test]
fn edit_values_become_changes() {
    let e = EditState {
        targets: vec!["a".to_string()],
        values: vec![" T ".into(), "".into(), "  ".into(), "AA".into(), "".into(), "".into(), "x1".into()],
        focus: 0,
        error: None,
        batch: false,
    };
    assert_eq!(changes_from_edit(&e).err().unwrap(), "track 'x1' is not a number");
    let e2 = EditState { values: vec![" T ".into(), "".into(), "  ".into(), "AA".into(), "".into(), " 1999 ".into(), "".into()], ..e };
    let c = changes_from_edit(&e2).unwrap();
    assert_eq!(c.title.as_deref(), Some("T"));
    assert_eq!(c.album, None);
    assert_eq!(c.album_artist.as_deref(), Some("AA"));
    assert_eq!(c.year, Some(1999));
    assert_eq!(changes_summary(&c), "title, album-artist, year");
    assert_eq!(changes_summary(&Changes::art_only(art())), "+cover");
    let both = Changes { title: Some("a".into()), artist: Some("b".into()), art: Some(art()), ..Changes::default() };
    assert_eq!(changes_summary(&both), "title, artist, +cover");
}

#[test]
fn view_texts() {
    let mut app = sample_app();
    assert_eq!(top_bar(&app), "  2 tracks  2 images  selected=0  backup=ON");
    assert_eq!(column_title("IMAGES", 2), " IMAGES (2) ");
    assert_eq!(search_bar("ab", true), " / ab_");
    assert_eq!(search_bar("ab", false), " / ab");
    let imgs = image_lines(&app);
    assert!(imgs[0].marked && !imgs[1].marked);
    assert_eq!(imgs[0].detail, "  600×600  2 KiB");
    assert_eq!(imgs[1].detail, "  ?  10 B");
    assert_eq!(preview_title(&app), " PREVIEW ");
    let info = preview_info(&app);
    assert_eq!(info.heading.as_deref(), Some("Cover.JPG"));
    assert_eq!(info.detail.as_deref(), Some("600×600   2 KiB"));
    assert_eq!(info.assign, "1 cursor track");
    assert_eq!(info.bullet.as_deref(), Some("• Alpha"));
    handle_key(&mut app, press(KeyCode::Tab));
    handle_key(&mut app, press(KeyCode::Down));
    handle_key(&mut app, ch(' '));
    assert_eq!(preview_title(&app), " PREVIEW · Beta (embedded) ");
    let info = preview_info(&app);
    assert_eq!(info.detail.as_deref(), Some("[FLAC]   1 embedded"));
    assert_eq!(info.assign, "1 selected");
    let rows = track_lines(&app);
    assert!(!rows[0].selected && !rows[0].target);
    assert!(rows[1].selected && rows[1].target);
    assert_eq!(rows[0].artist, "  —  Zed");
    assert_eq!(rows[1].artist, "  —  —");
    assert_eq!(rows[1].format, "  [FLAC]");
    assert_eq!(rows[1].art, "1 art");
    assert_eq!(rows[1].duration, "2:05");
}

#[test]
fn preview_reads() {
    let bytes = vec![1u8, 2, 3];
    let mut h = std::collections::hash_map::DefaultHasher::new();
    h.write(&bytes);
    let expect = h.finish();
    match file_read(Some(bytes.clone())) {
        SourceRead::Image(b, hash) => {
            assert_eq!(b, bytes);
            assert_eq!(hash, expect);
        }
        _ => panic!("expected an image"),
    }
    assert!(matches!(file_read(Some(vec![])), SourceRead::Error));
    assert!(matches!(file_read(None), SourceRead::Error));
    assert!(matches!(embedded_read(Err("x".to_string())), SourceRead::Error));
    assert!(matches!(embedded_read(Ok(None)), SourceRead::NoImage));
    assert!(matches!(embedded_read(Ok(Some(vec![]))), SourceRead::NoImage));
    assert!(fits_preview(900, 900));
    assert!(!fits_preview(901, 10));
}

#[test]
fn preview_step_compares_paths() {
    assert_eq!(preview_step(None, Some("a.png")), PreviewStep::Clear);
    assert_eq!(preview_step(Some("d/a.png"), Some("d//a.png")), PreviewStep::Keep);
    assert_eq!(preview_step(Some("d/a.png"), Some("d/b.png")), PreviewStep::Rebuild);
    assert_eq!(preview_step(Some("a.png"), None), PreviewStep::Rebuild);
}
