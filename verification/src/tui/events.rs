//! Key handling: each key press moves the interface state and may ask the
//! caller for work the state cannot do itself (reading tags, loading an
//! image, rescanning, writing files). The caller does that work and hands the
//! result back through the `finish_*` and `open_edit` methods.
use vstd::prelude::*;
use vstd::string::StringExecFns;

use crate::art::Art;
use crate::format::opt_view;
use crate::path::{parent, parent_of};
use crate::meta::{no_changes, title_text, Changes, Plan, Track};
use crate::text::{
    pop_char, parse_u32, u32_of,
    chars_of, dec, digit_value, is_digit, join_seq, join_strings, push_char, push_dec, push_str,
    string_of_range, trim, trim_end, trim_start, trim_str, views,
};
use crate::tui::app::{
    clamp, edit_label, edit_label_text, first_track, toggled, App, EditState, Focus, InputMode,
    PendingBatch, StatusLevel, EDIT_FIELDS,
};
use crate::tui::data::{ImageRow, TrackRow};

verus! {

/// A key, as the terminal reports it.
#[derive(Clone, Copy, Debug, PartialEq, Eq, Structural)]
pub enum KeyCode {
    Char(char),
    Tab,
    BackTab,
    Up,
    Down,
    PageUp,
    PageDown,
    Esc,
    Enter,
    Backspace,
    /// Any other key.
    Other,
}

/// A key event: the key, its modifiers, and whether it is a press (or an
/// auto-repeat) rather than a release.
#[derive(Clone, Copy, Debug, PartialEq, Eq, Structural)]
pub struct KeyInput {
    pub code: KeyCode,
    /// Control is held.
    pub ctrl: bool,
    /// Some modifier other than control (shift, alt, ...) is held.
    pub other_mods: bool,
    /// A press or a repeat; releases are ignored.
    pub press: bool,
}

/// `q` and Esc quit from the normal mode.
pub open spec fn is_quit_key(k: KeyInput) -> bool {
    k.code == KeyCode::Char('q') || k.code == KeyCode::Esc
}

/// Ctrl-U with no other modifier.
pub open spec fn is_ctrl_u(k: KeyInput) -> bool {
    k.code == KeyCode::Char('u') && k.ctrl && !k.other_mods
}

/// A character typed without control.
pub open spec fn typed(k: KeyInput) -> bool {
    k.code is Char && !k.ctrl
}

/// The parts of the state a transition may change.
#[derive(Clone, Copy, Debug, PartialEq, Eq, Structural)]
pub enum Field {
    Rows,
    ImgCol,
    TrkCol,
    Focus,
    Mode,
    Backup,
    Status,
    Pending,
    Edit,
    Unresolved,
    QuitPending,
    ShouldQuit,
}

/// `n` agrees with `o` on every part not in `f`.
pub open spec fn keeps(o: App, n: App, f: Set<Field>) -> bool {
    &&& !f.contains(Field::Rows) ==> n.root == o.root && n.recurse == o.recurse && n.tracks
        == o.tracks && n.images == o.images
    &&& !f.contains(Field::ImgCol) ==> n.img_col == o.img_col
    &&& !f.contains(Field::TrkCol) ==> n.trk_col == o.trk_col
    &&& !f.contains(Field::Focus) ==> n.focus == o.focus
    &&& !f.contains(Field::Mode) ==> n.mode == o.mode
    &&& !f.contains(Field::Backup) ==> n.backup == o.backup
    &&& !f.contains(Field::Status) ==> n.status == o.status
    &&& !f.contains(Field::Pending) ==> n.pending == o.pending
    &&& !f.contains(Field::Edit) ==> n.edit == o.edit
    &&& !f.contains(Field::Unresolved) ==> n.unresolved_errors == o.unresolved_errors
    &&& !f.contains(Field::QuitPending) ==> n.quit_pending == o.quit_pending
    &&& !f.contains(Field::ShouldQuit) ==> n.should_quit == o.should_quit
}

/// The status line reads `text` at `level`.
pub open spec fn says(n: App, level: StatusLevel, text: Seq<char>) -> bool {
    n.status.level == level && n.status.text@ == text
}

/// Work the state asks its caller to do.
#[allow(inconsistent_fields)]
pub enum Action {
    /// Nothing to do.
    Nothing,
    /// Read the tags of the track at `path` and pass them to `open_edit`
    /// (or pass nothing if they cannot be read).
    ReadForEdit { path: String },
    /// Rescan the root and pass the rows to `finish_rescan`.
    Rescan,
    /// Load the image at `image_path`; on failure pass the message to
    /// `cover_load_failed`, else build a cover plan for each target (path,
    /// title) and pass them to `finish_cover_batch`.
    BuildCoverBatch { image_path: String, image_name: String, targets: Vec<(String, String)> },
    /// Build a plan of `changes` for each target (path, title) and pass them
    /// to `finish_edit_batch` with the summary.
    BuildEditBatch { summary: String, changes: Changes, targets: Vec<(String, String)> },
    /// Apply each plan of the batch (backing files up when `backup`), rescan,
    /// and pass the results to `finish_apply`.
    Apply { batch: PendingBatch, backup: bool },
}

/// The rows of the ids that name a track, in id order (first row per id).
pub open spec fn rows_for(tracks: Seq<TrackRow>, ids: Seq<Seq<char>>) -> Seq<int>
    decreases ids.len(),
{
    if ids.len() == 0 {
        Seq::empty()
    } else {
        rows_for(tracks, ids.drop_last()) + match first_track(tracks, ids.last()) {
            Some(i) => seq![i],
            None => Seq::empty(),
        }
    }
}

/// The (path, title) of each of these rows.
pub open spec fn path_titles(tracks: Seq<TrackRow>, rows: Seq<int>) -> Seq<(Seq<char>, Seq<char>)> {
    rows.map_values(|i: int| (tracks[i].path@, tracks[i].title@))
}

/// The views of (path, title) pairs.
pub open spec fn pair_views(v: Seq<(String, String)>) -> Seq<(Seq<char>, Seq<char>)> {
    v.map_values(|p: (String, String)| (p.0@, p.1@))
}

/// The (path, title) of the tracks that ids name, in id order.
pub fn targets_for(tracks: &Vec<TrackRow>, ids: &Vec<String>) -> (r: Vec<(String, String)>)
    ensures
        pair_views(r@) == path_titles(tracks@, rows_for(tracks@, views(ids@))),
{
    let mut out: Vec<(String, String)> = Vec::new();
    let mut i: usize = 0;
    while i < ids.len()
        invariant
            i <= ids@.len(),
            pair_views(out@) == path_titles(tracks@, rows_for(tracks@, views(ids@.take(i as int)))),
        decreases ids@.len() - i,
    {
        let ghost before = out@;
        let ghost pre = views(ids@.take(i as int));
        let ghost now = views(ids@.take(i + 1));
        assert(now.drop_last() =~= pre);
        assert(now.last() == ids@[i as int]@);
        let mut k: usize = 0;
        while k < tracks.len() && !crate::text::str_eq(tracks[k].id.as_str(), ids[i].as_str())
            invariant
                k <= tracks@.len(),
                i < ids@.len(),
                forall|j: int| 0 <= j < k ==> tracks@[j].id@ != ids@[i as int]@,
            decreases tracks@.len() - k,
        {
            k += 1;
        }
        let found: Option<usize> = if k < tracks.len() {
            Some(k)
        } else {
            None
        };
        match found {
            Some(j) => {
                proof {
                    crate::tui::app::lemma_first_track(tracks@, ids@[i as int]@, j as int);
                }
                out.push((tracks[j].path.clone(), tracks[j].title.clone()));
                assert(pair_views(out@) =~= pair_views(before).push(
                    (tracks@[j as int].path@, tracks@[j as int].title@),
                ));
            },
            None => {
                assert(!exists|j: int| 0 <= j < tracks@.len() && tracks@[j].id@ == ids@[i as int]@);
                assert(first_track(tracks@, ids@[i as int]@) is None);
                assert(pair_views(out@) =~= pair_views(before));
            },
        }
        proof {
            assert(rows_for(tracks@, now) == rows_for(tracks@, pre) + match first_track(
                tracks@,
                now.last(),
            ) {
                Some(x) => seq![x],
                None => Seq::empty(),
            });
            assert(path_titles(tracks@, rows_for(tracks@, now)) =~= pair_views(out@));
        }
        i += 1;
    }
    assert(ids@.take(ids@.len() as int) =~= ids@);
    out
}

/// A text field's value: trimmed, absent when blank.
pub open spec fn field_of(v: Seq<char>) -> Option<Seq<char>> {
    if trim(v).len() == 0 {
        None
    } else {
        Some(trim(v))
    }
}

/// A number field's value: absent when blank, else its parse.
pub open spec fn number_of(v: Seq<char>) -> Option<u32> {
    if trim(v).len() == 0 {
        None
    } else {
        u32_of(trim(v))
    }
}

/// A number field is blank or parses.
pub open spec fn number_ok(v: Seq<char>) -> bool {
    trim(v).len() == 0 || u32_of(trim(v)) is Some
}

/// The message for a number field that does not parse.
pub open spec fn not_a_number(name: Seq<char>, t: Seq<char>) -> Seq<char> {
    name + " '"@ + t + "' is not a number"@
}

/// Why the edit panel's values do not make a change set: the year, then the
/// track, when not a number.
pub open spec fn edit_error(values: Seq<Seq<char>>) -> Option<Seq<char>> {
    if !number_ok(values[5]) {
        Some(not_a_number("year"@, trim(values[5])))
    } else if !number_ok(values[6]) {
        Some(not_a_number("track"@, trim(values[6])))
    } else {
        None
    }
}

/// The change set the edit panel's values make.
pub open spec fn changes_of_values(c: Changes, values: Seq<Seq<char>>) -> bool {
    &&& opt_view(c.title) == field_of(values[0])
    &&& opt_view(c.artist) == field_of(values[1])
    &&& opt_view(c.album) == field_of(values[2])
    &&& opt_view(c.album_artist) == field_of(values[3])
    &&& opt_view(c.genre) == field_of(values[4])
    &&& c.year == number_of(values[5])
    &&& c.track_no == number_of(values[6])
    &&& c.art is None
}

fn text_field(v: &String) -> (r: Option<String>)
    ensures
        opt_view(r) == field_of(v@),
{
    let t = trim_str(v.as_str());
    if t.as_str().is_empty() {
        None
    } else {
        Some(t)
    }
}

fn number_field(v: &String, name: &str) -> (r: Result<Option<u32>, String>)
    ensures
        match r {
            Ok(n) => number_ok(v@) && n == number_of(v@),
            Err(m) => !number_ok(v@) && m@ == not_a_number(name@, trim(v@)),
        },
{
    let t = trim_str(v.as_str());
    if t.as_str().is_empty() {
        return Ok(None);
    }
    match parse_u32(t.as_str()) {
        Some(n) => Ok(Some(n)),
        None => {
            let mut m = String::from_str(name);
            push_str(&mut m, " '");
            push_str(&mut m, t.as_str());
            push_str(&mut m, "' is not a number");
            Err(m)
        },
    }
}

/// Translates the edit panel's text fields into a change set. Blank fields
/// are left unchanged; `year` and `track` must parse as numbers.
pub fn changes_from_edit(edit: &EditState) -> (r: Result<Changes, String>)
    requires
        edit.wf(),
    ensures
        match r {
            Ok(c) => edit_error(views(edit.values@)) is None && changes_of_values(
                c,
                views(edit.values@),
            ),
            Err(m) => edit_error(views(edit.values@)) == Some(m@),
        },
{
    let ghost vs = views(edit.values@);
    assert(vs[5] == edit.values@[5]@ && vs[6] == edit.values@[6]@);
    let title = text_field(&edit.values[0]);
    let artist = text_field(&edit.values[1]);
    let album = text_field(&edit.values[2]);
    let album_artist = text_field(&edit.values[3]);
    let genre = text_field(&edit.values[4]);
    let year = number_field(&edit.values[5], "year")?;
    let track_no = number_field(&edit.values[6], "track")?;
    Ok(Changes { title, artist, album, album_artist, genre, year, track_no, art: None })
}

/// The names of the fields a change set touches, in display order, the
/// cover last and marked `+cover`.
pub open spec fn summary_parts(c: Changes) -> Seq<Seq<char>> {
    (if c.title is Some {
        seq!["title"@]
    } else {
        Seq::empty()
    }) + (if c.artist is Some {
        seq!["artist"@]
    } else {
        Seq::empty()
    }) + (if c.album is Some {
        seq!["album"@]
    } else {
        Seq::empty()
    }) + (if c.album_artist is Some {
        seq!["album-artist"@]
    } else {
        Seq::empty()
    }) + (if c.genre is Some {
        seq!["genre"@]
    } else {
        Seq::empty()
    }) + (if c.year is Some {
        seq!["year"@]
    } else {
        Seq::empty()
    }) + (if c.track_no is Some {
        seq!["track"@]
    } else {
        Seq::empty()
    }) + (if c.art is Some {
        seq!["+cover"@]
    } else {
        Seq::empty()
    })
}

fn push_part(parts: &mut Vec<String>, on: bool, name: &str)
    ensures
        views(final(parts)@) == views(old(parts)@) + (if on {
            seq![name@]
        } else {
            Seq::empty()
        }),
{
    if on {
        parts.push(String::from_str(name));
        assert(views(parts@) =~= views(old(parts)@).push(name@));
    } else {
        assert(views(parts@) =~= views(old(parts)@));
    }
}

/// A short "title, artist, +cover" description of a change set.
pub fn changes_summary(c: &Changes) -> (r: String)
    ensures
        r@ == join_seq(summary_parts(*c), ", "@),
{
    let mut parts: Vec<String> = Vec::new();
    assert(views(parts@) =~= Seq::<Seq<char>>::empty());
    push_part(&mut parts, c.title.is_some(), "title");
    push_part(&mut parts, c.artist.is_some(), "artist");
    push_part(&mut parts, c.album.is_some(), "album");
    push_part(&mut parts, c.album_artist.is_some(), "album-artist");
    push_part(&mut parts, c.genre.is_some(), "genre");
    push_part(&mut parts, c.year.is_some(), "year");
    push_part(&mut parts, c.track_no.is_some(), "track");
    push_part(&mut parts, c.art.is_some(), "+cover");
    assert(views(parts@) =~= summary_parts(*c));
    join_strings(&parts, ", ")
}

// ----- the transition relation -----

/// The other column.
pub open spec fn other_focus(f: Focus) -> Focus {
    match f {
        Focus::Images => Focus::Tracks,
        Focus::Tracks => Focus::Images,
    }
}

/// The warning a first `q` gives while there is pending work.
pub open spec fn quit_warning(selected: nat, unresolved: bool) -> Seq<char> {
    let bits = (if selected > 0 {
        seq![dec(selected) + " track(s) selected"@]
    } else {
        Seq::empty()
    }) + (if unresolved {
        seq!["unresolved errors"@]
    } else {
        Seq::empty()
    });
    join_seq(bits, ", "@) + ". Press 'q' again to quit."@
}

/// A quit key asks again instead of quitting: no quit is pending yet and
/// tracks are selected or errors are unresolved.
pub open spec fn quit_warns(o: App) -> bool {
    !o.quit_pending && (o.trk_col.selected@.len() > 0 || o.unresolved_errors)
}

/// `q` / Esc in the normal mode.
pub open spec fn quit_step(o: App, n: App) -> bool {
    if quit_warns(o) {
        keeps(o, n, set![Field::QuitPending, Field::Status]) && says(
            n,
            StatusLevel::Warn,
            quit_warning(o.trk_col.selected@.len(), o.unresolved_errors),
        )
    } else {
        keeps(o, n, set![Field::QuitPending, Field::ShouldQuit]) && n.should_quit
    }
}

/// `n` is `o` with the cursor at `c`.
pub open spec fn cursor_at(o: crate::tui::app::ColumnState, n: crate::tui::app::ColumnState, c: int) -> bool {
    n.query == o.query && n.visible == o.visible && n.selected == o.selected && n.cursor == c
}

/// The focused column's cursor goes to `img` (IMAGES) or `trk` (TRACKS).
pub open spec fn focused_cursor(o: App, n: App, img: int, trk: int) -> bool {
    if o.focus == Focus::Images {
        keeps(o, n, set![Field::ImgCol, Field::QuitPending]) && cursor_at(o.img_col, n.img_col, img)
    } else {
        keeps(o, n, set![Field::TrkCol, Field::QuitPending]) && cursor_at(o.trk_col, n.trk_col, trk)
    }
}

/// The focused column's cursor moves by `d` rows.
pub open spec fn moved(o: App, n: App, d: int) -> bool {
    focused_cursor(
        o,
        n,
        clamp(o.img_col.cursor + d, o.img_col.visible@.len() as int),
        clamp(o.trk_col.cursor + d, o.trk_col.visible@.len() as int),
    )
}

/// Where `jump_bottom` puts a cursor.
pub open spec fn bottom(c: crate::tui::app::ColumnState) -> int {
    if c.visible@.len() > 0 {
        c.visible@.len() - 1
    } else {
        c.cursor as int
    }
}

/// Space: the cursor track joins the selection, or leaves it.
pub open spec fn toggle_step(o: App, n: App) -> bool {
    if o.focus == Focus::Tracks && o.track_at_cursor() is Some {
        let id = o.tracks@[o.track_at_cursor()->0].id@;
        &&& keeps(o, n, set![Field::TrkCol, Field::QuitPending])
        &&& n.trk_col.query == o.trk_col.query
        &&& n.trk_col.visible == o.trk_col.visible
        &&& n.trk_col.cursor == o.trk_col.cursor
        &&& n.trk_col.selected.wf()
        &&& n.trk_col.selected@.to_set() == toggled(o.trk_col.selected@.to_set(), id)
    } else {
        keeps(o, n, set![Field::QuitPending])
    }
}

/// A freshly opened, blank edit of `targets`.
pub open spec fn blank_edit(e: EditState, targets: Seq<Seq<char>>) -> bool {
    &&& views(e.targets@) == targets
    &&& e.values@.len() == EDIT_FIELDS
    &&& forall|i: int| 0 <= i < EDIT_FIELDS ==> (#[trigger] e.values@[i])@.len() == 0
    &&& e.focus == 0
    &&& e.error is None
    &&& e.batch == (targets.len() > 1)
}

/// `e` is the edit panel opened for `targets`: prefilled from `track` when
/// there is one target and its tags were read, blank otherwise.
pub open spec fn edit_made(e: EditState, targets: Seq<Seq<char>>, track: Option<Track>) -> bool {
    match track {
        Some(t) if targets.len() <= 1 => {
            &&& views(e.targets@) == targets
            &&& e.values@.len() == EDIT_FIELDS
            &&& views(e.values@) == prefill(t)
            &&& e.focus == 0
            &&& e.error is None
            &&& e.batch == (targets.len() > 1)
        },
        _ => blank_edit(e, targets),
    }
}

/// The status text when the edit panel opens.
pub open spec fn editing_label(n: nat) -> Seq<char> {
    if n > 1 {
        "editing "@ + dec(n) + " tracks"@
    } else {
        "editing 1 track"@
    }
}

/// The action reads the tags at `path` to open the edit panel.
pub open spec fn asks_read(a: Action, path: Seq<char>) -> bool {
    match a {
        Action::ReadForEdit { path: p } => p@ == path,
        _ => false,
    }
}

/// `e`: the edit panel opens for the targets, prefilled from the one
/// target's tags (read by the caller), blank for several.
pub open spec fn edit_open_step(o: App, n: App, a: Action) -> bool {
    let t = o.targets();
    if t.len() == 0 {
        keeps(o, n, set![Field::Status, Field::QuitPending]) && says(
            n,
            StatusLevel::Error,
            "no tracks to edit"@,
        ) && a is Nothing
    } else if t.len() > 1 || first_track(o.tracks@, t[0]) is None {
        &&& keeps(o, n, set![Field::Edit, Field::Mode, Field::Status, Field::QuitPending])
        &&& (n.edit matches Some(e) && blank_edit(e, t))
        &&& n.mode == InputMode::Edit
        &&& says(n, StatusLevel::Info, editing_label(t.len()))
        &&& a is Nothing
    } else {
        keeps(o, n, set![Field::QuitPending]) && asks_read(
            a,
            o.tracks@[first_track(o.tracks@, t[0])->0].path@,
        )
    }
}

/// The action builds a cover batch of `image` for these targets.
pub open spec fn asks_cover(a: Action, image: ImageRow, targets: Seq<(Seq<char>, Seq<char>)>) -> bool {
    match a {
        Action::BuildCoverBatch { image_path, image_name, targets: t } => image_path == image.path
            && image_name == image.name && pair_views(t@) == targets,
        _ => false,
    }
}

/// Enter in the normal mode: assign the cursor image to the targets.
pub open spec fn cover_step(o: App, n: App, a: Action) -> bool {
    match o.image_at_cursor() {
        None => keeps(o, n, set![Field::Status, Field::QuitPending]) && says(
            n,
            StatusLevel::Error,
            "no image to assign"@,
        ) && a is Nothing,
        Some(i) => if o.targets().len() == 0 {
            keeps(o, n, set![Field::Status, Field::QuitPending]) && says(
                n,
                StatusLevel::Error,
                "no tracks selected"@,
            ) && a is Nothing
        } else {
            keeps(o, n, set![Field::QuitPending]) && asks_cover(
                a,
                o.images@[i],
                path_titles(o.tracks@, rows_for(o.tracks@, o.targets())),
            )
        },
    }
}

/// What a key does in the normal mode.
pub open spec fn normal_step(o: App, n: App, k: KeyInput, a: Action) -> bool {
    let c = k.code;
    if c == KeyCode::Tab || c == KeyCode::BackTab {
        keeps(o, n, set![Field::Focus, Field::QuitPending]) && n.focus == other_focus(o.focus)
            && a is Nothing
    } else if c == KeyCode::Char('q') || c == KeyCode::Esc {
        quit_step(o, n) && a is Nothing
    } else if c == KeyCode::Char('?') {
        keeps(o, n, set![Field::Mode, Field::QuitPending]) && n.mode == InputMode::Help
            && a is Nothing
    } else if c == KeyCode::Up || c == KeyCode::Char('k') {
        moved(o, n, -1) && a is Nothing
    } else if c == KeyCode::Down || c == KeyCode::Char('j') {
        moved(o, n, 1) && a is Nothing
    } else if c == KeyCode::PageUp {
        moved(o, n, -10) && a is Nothing
    } else if c == KeyCode::PageDown {
        moved(o, n, 10) && a is Nothing
    } else if c == KeyCode::Char('g') {
        focused_cursor(o, n, 0, 0) && a is Nothing
    } else if c == KeyCode::Char('G') {
        focused_cursor(o, n, bottom(o.img_col), bottom(o.trk_col)) && a is Nothing
    } else if c == KeyCode::Char('/') {
        keeps(o, n, set![Field::Mode, Field::QuitPending]) && n.mode == InputMode::Search(o.focus)
            && a is Nothing
    } else if c == KeyCode::Char(' ') {
        toggle_step(o, n) && a is Nothing
    } else if c == KeyCode::Char('c') {
        &&& keeps(o, n, set![Field::TrkCol, Field::Status, Field::QuitPending])
        &&& n.trk_col.query == o.trk_col.query && n.trk_col.visible == o.trk_col.visible
            && n.trk_col.cursor == o.trk_col.cursor
        &&& n.trk_col.selected@.len() == 0 && n.trk_col.selected.wf()
        &&& says(n, StatusLevel::Info, "cleared selection"@)
        &&& a is Nothing
    } else if c == KeyCode::Char('b') {
        &&& keeps(o, n, set![Field::Backup, Field::Status, Field::QuitPending])
        &&& n.backup == !o.backup
        &&& says(
            n,
            StatusLevel::Info,
            "backup = "@ + if n.backup {
                "ON"@
            } else {
                "off"@
            },
        )
        &&& a is Nothing
    } else if c == KeyCode::Char('e') {
        edit_open_step(o, n, a)
    } else if c == KeyCode::Char('R') {
        keeps(o, n, set![Field::QuitPending]) && a is Rescan
    } else if c == KeyCode::Enter {
        cover_step(o, n, a)
    } else {
        keeps(o, n, set![Field::QuitPending]) && a is Nothing
    }
}

/// The column a search edits.
pub open spec fn col_of(o: App, f: Focus) -> crate::tui::app::ColumnState {
    if f == Focus::Images {
        o.img_col
    } else {
        o.trk_col
    }
}

/// A search edit: the searched column's query becomes `q` and its cursor
/// `c` (clamped to the rows it now shows); both columns are recomputed.
pub open spec fn searched(o: App, n: App, f: Focus, q: Seq<char>, c: int) -> bool {
    let (no, nn, oo, on) = if f == Focus::Images {
        (o.img_col, n.img_col, o.trk_col, n.trk_col)
    } else {
        (o.trk_col, n.trk_col, o.img_col, n.img_col)
    };
    &&& keeps(o, n, set![Field::ImgCol, Field::TrkCol, Field::QuitPending])
    &&& nn.query@ == q && nn.selected == no.selected
    &&& nn.cursor == clamp(c, nn.visible@.len() as int)
    &&& on.query == oo.query && on.selected == oo.selected
    &&& on.cursor == clamp(oo.cursor as int, on.visible@.len() as int)
}

/// What a key does while searching the column `f`.
pub open spec fn search_step(o: App, f: Focus, n: App, k: KeyInput, a: Action) -> bool {
    let col = col_of(o, f);
    let len = col.visible@.len() as int;
    let c = k.code;
    &&& a is Nothing
    &&& if c == KeyCode::Esc || c == KeyCode::Enter {
        keeps(o, n, set![Field::Mode, Field::QuitPending]) && n.mode == InputMode::Normal
    } else if c == KeyCode::Backspace {
        searched(
            o,
            n,
            f,
            if col.query@.len() > 0 {
                col.query@.drop_last()
            } else {
                col.query@
            },
            col.cursor as int,
        )
    } else if is_ctrl_u(k) {
        searched(o, n, f, Seq::empty(), col.cursor as int)
    } else if typed(k) {
        searched(o, n, f, col.query@.push(c->0), col.cursor as int)
    } else if c == KeyCode::Up {
        searched(o, n, f, col.query@, clamp(col.cursor - 1, len))
    } else if c == KeyCode::Down {
        searched(o, n, f, col.query@, clamp(col.cursor + 1, len))
    } else {
        keeps(o, n, set![Field::QuitPending])
    }
}

/// `ne` is `e` with the focus on `focus` and these values.
pub open spec fn edit_with(e: EditState, ne: EditState, focus: int, values: Seq<Seq<char>>) -> bool {
    &&& ne.targets == e.targets
    &&& ne.error == e.error
    &&& ne.batch == e.batch
    &&& ne.focus == focus
    &&& views(ne.values@) == values
}

/// The edit changes to `ne`, nothing else.
pub open spec fn edit_becomes(o: App, n: App, f: spec_fn(EditState) -> bool) -> bool {
    keeps(o, n, set![Field::Edit, Field::QuitPending]) && (n.edit matches Some(ne) && f(ne))
}

/// No field of the edit panel has a value.
pub open spec fn values_touch_nothing(values: Seq<Seq<char>>) -> bool {
    &&& field_of(values[0]) is None && field_of(values[1]) is None && field_of(values[2]) is None
    &&& field_of(values[3]) is None && field_of(values[4]) is None
    &&& number_of(values[5]) is None && number_of(values[6]) is None
}

/// The action builds an edit batch of the panel's values for these targets.
pub open spec fn asks_edit_batch(
    a: Action,
    values: Seq<Seq<char>>,
    targets: Seq<(Seq<char>, Seq<char>)>,
) -> bool {
    match a {
        Action::BuildEditBatch { summary, changes, targets: t } => changes_of_values(
            changes,
            values,
        ) && summary@ == join_seq(summary_parts(changes), ", "@) && pair_views(t@) == targets,
        _ => false,
    }
}

/// Enter in the edit panel.
pub open spec fn submit_step(o: App, e: EditState, n: App, a: Action) -> bool {
    let values = views(e.values@);
    match edit_error(values) {
        Some(m) => edit_becomes(
            o,
            n,
            |ne: EditState|
                ne.targets == e.targets && ne.values == e.values && ne.focus == e.focus && ne.batch
                    == e.batch && opt_view(ne.error) == Some(m),
        ) && a is Nothing,
        None => if values_touch_nothing(values) {
            edit_becomes(
                o,
                n,
                |ne: EditState|
                    ne.targets == e.targets && ne.values == e.values && ne.focus == e.focus
                        && ne.batch == e.batch && opt_view(ne.error) == Some(
                        "nothing to change — fill at least one field"@,
                    ),
            ) && a is Nothing
        } else {
            keeps(o, n, set![Field::QuitPending]) && asks_edit_batch(
                a,
                values,
                path_titles(o.tracks@, rows_for(o.tracks@, views(e.targets@))),
            )
        },
    }
}

/// What a key does in the edit panel.
pub open spec fn edit_step(o: App, n: App, k: KeyInput, a: Action) -> bool {
    match o.edit {
        None => keeps(o, n, set![Field::Mode, Field::QuitPending]) && n.mode == InputMode::Normal
            && a is Nothing,
        Some(e) => {
            let c = k.code;
            let vs = views(e.values@);
            let cur = vs[e.focus as int];
            if c == KeyCode::Esc {
                keeps(o, n, set![Field::Edit, Field::Mode, Field::Status, Field::QuitPending])
                    && n.edit is None && n.mode == InputMode::Normal && says(
                    n,
                    StatusLevel::Info,
                    "edit cancelled"@,
                ) && a is Nothing
            } else if c == KeyCode::Tab || c == KeyCode::Down {
                edit_becomes(
                    o,
                    n,
                    |ne: EditState| edit_with(e, ne, (e.focus + 1) % 7, vs),
                ) && a is Nothing
            } else if c == KeyCode::BackTab || c == KeyCode::Up {
                edit_becomes(
                    o,
                    n,
                    |ne: EditState| edit_with(e, ne, (e.focus + 6) % 7, vs),
                ) && a is Nothing
            } else if c == KeyCode::Backspace {
                edit_becomes(
                    o,
                    n,
                    |ne: EditState|
                        edit_with(
                            e,
                            ne,
                            e.focus as int,
                            vs.update(
                                e.focus as int,
                                if cur.len() > 0 {
                                    cur.drop_last()
                                } else {
                                    cur
                                },
                            ),
                        ),
                ) && a is Nothing
            } else if is_ctrl_u(k) {
                edit_becomes(
                    o,
                    n,
                    |ne: EditState| edit_with(e, ne, e.focus as int, vs.update(e.focus as int, Seq::empty())),
                ) && a is Nothing
            } else if c == KeyCode::Enter {
                submit_step(o, e, n, a)
            } else if typed(k) {
                edit_becomes(
                    o,
                    n,
                    |ne: EditState| edit_with(e, ne, e.focus as int, vs.update(e.focus as int, cur.push(c->0))),
                ) && a is Nothing
            } else {
                keeps(o, n, set![Field::QuitPending]) && a is Nothing
            }
        },
    }
}

/// The action applies this batch.
pub open spec fn asks_apply(a: Action, batch: PendingBatch, backup: bool) -> bool {
    match a {
        Action::Apply { batch: b, backup: bk } => b == batch && bk == backup,
        _ => false,
    }
}

/// What a key does in the confirm popup.
pub open spec fn confirm_step(o: App, n: App, k: KeyInput, a: Action) -> bool {
    let c = k.code;
    if c == KeyCode::Char('y') || c == KeyCode::Enter {
        match o.pending {
            None => keeps(o, n, set![Field::Mode, Field::QuitPending]) && n.mode
                == InputMode::Normal && a is Nothing,
            Some(b) => keeps(o, n, set![Field::Pending, Field::QuitPending]) && n.pending is None
                && asks_apply(a, b, o.backup),
        }
    } else if c == KeyCode::Char('n') || c == KeyCode::Esc || c == KeyCode::Char('q') {
        keeps(o, n, set![Field::Pending, Field::Mode, Field::QuitPending]) && n.pending is None
            && n.mode == (if o.edit is Some {
            InputMode::Edit
        } else {
            InputMode::Normal
        }) && a is Nothing
    } else {
        keeps(o, n, set![Field::QuitPending]) && a is Nothing
    }
}

/// The state a key press acts on: a pending quit is dropped unless the key
/// is itself a quit key.
pub open spec fn unquit(o: App, k: KeyInput) -> App {
    if is_quit_key(k) {
        o
    } else {
        App { quit_pending: false, ..o }
    }
}

/// What a key event does: releases nothing; a press first drops a pending
/// quit unless it is itself a quit key, then acts by mode.
pub open spec fn step(o: App, n: App, k: KeyInput, a: Action) -> bool {
    if !k.press {
        n == o && a is Nothing
    } else {
        let m = unquit(o, k);
        &&& n.quit_pending == if m.mode == InputMode::Normal && is_quit_key(k) && quit_warns(m) {
            true
        } else {
            m.quit_pending
        }
        &&& match m.mode {
            InputMode::Normal => normal_step(m, n, k, a),
            InputMode::Search(f) => search_step(m, f, n, k, a),
            InputMode::Edit => edit_step(m, n, k, a),
            InputMode::Confirm => confirm_step(m, n, k, a),
            InputMode::Help => keeps(m, n, set![Field::Mode, Field::QuitPending]) && n.mode
                == InputMode::Normal && a is Nothing,
        }
    }
}

// ----- the transitions -----

/// The values the edit panel opens with for one track: its text fields, and
/// its year and track number in decimal, blank where absent.
pub open spec fn prefill(t: Track) -> Seq<Seq<char>> {
    let txt = |o: Option<String>| -> Seq<char> {
        match o {
            Some(v) => v@,
            None => Seq::empty(),
        }
    };
    let num = |o: Option<u32>| -> Seq<char> {
        match o {
            Some(v) => dec(v as nat),
            None => Seq::empty(),
        }
    };
    seq![
        txt(t.title),
        txt(t.artist),
        txt(t.album),
        txt(t.album_artist),
        txt(t.genre),
        num(t.year),
        num(t.track_no),
    ]
}

fn text_or_blank(o: &Option<String>) -> (r: String)
    ensures
        r@ == (match *o {
            Some(v) => v@,
            None => Seq::<char>::empty(),
        }),
{
    match o {
        Some(v) => v.clone(),
        None => String::new(),
    }
}

fn number_or_blank(o: Option<u32>) -> (r: String)
    ensures
        r@ == (match o {
            Some(v) => dec(v as nat),
            None => Seq::<char>::empty(),
        }),
{
    match o {
        Some(v) => {
            let mut s = String::new();
            push_dec(&mut s, v as u64);
            s
        },
        None => String::new(),
    }
}

/// The message when an apply wrote every plan.
pub open spec fn applied_text(summary: Seq<char>, ok: nat, total: nat, hint: Seq<char>) -> Seq<char> {
    "Wrote "@ + summary + " to "@ + dec(ok) + "/"@ + dec(total) + "."@ + hint
}

/// The message when some plans failed: the first failure, and how many more.
pub open spec fn failed_text(ok: nat, total: nat, first: Seq<char>, failed: nat, hint: Seq<char>) -> Seq<
    char,
> {
    "Wrote "@ + dec(ok) + "/"@ + dec(total) + ". Failed → "@ + first + (if failed > 1 {
        " (+"@ + dec((failed - 1) as nat) + " more)"@
    } else {
        Seq::empty()
    }) + hint
}

/// The first backup an apply wrote, by plan order.
pub open spec fn first_backup(outcomes: Seq<Result<Option<String>, String>>) -> Option<Seq<char>>
    decreases outcomes.len(),
{
    if outcomes.len() == 0 {
        None
    } else {
        match first_backup(outcomes.drop_last()) {
            Some(p) => Some(p),
            None => match outcomes.last() {
                Ok(Some(p)) => Some(p@),
                _ => None,
            },
        }
    }
}

/// Where the backups went, when any was written: the directory of the first
/// one.
pub open spec fn hint_text(first: Option<Seq<char>>) -> Seq<char> {
    match first {
        Some(p) => " Backups in "@ + match parent_of(p) {
            Some(d) => d,
            None => Seq::empty(),
        },
        None => Seq::empty(),
    }
}

/// One line per plan that failed to apply: its track's title, quoted, and
/// the error.
pub open spec fn apply_errors(plans: Seq<Plan>, outcomes: Seq<Result<Option<String>, String>>) -> Seq<
    Seq<char>,
>
    decreases outcomes.len(),
{
    if outcomes.len() == 0 || plans.len() < outcomes.len() {
        Seq::empty()
    } else {
        apply_errors(plans, outcomes.drop_last()) + match outcomes.last() {
            Err(e) => seq!["\""@ + title_text(plans[outcomes.len() - 1].track) + "\": "@ + e@],
            Ok(_) => Seq::empty(),
        }
    }
}

/// The rows are replaced by a fresh scan: queries and the image selection
/// are kept and cursors put back on shown rows.
pub open spec fn reloaded(o: App, n: App, tracks: Seq<TrackRow>, images: Seq<ImageRow>) -> bool {
    &&& n.root == o.root && n.recurse == o.recurse
    &&& n.tracks@ == tracks && n.images@ == images
    &&& n.img_col.selected == o.img_col.selected
    &&& n.img_col.query == o.img_col.query && n.trk_col.query == o.trk_col.query
    &&& n.img_col.cursor == clamp(o.img_col.cursor as int, n.img_col.visible@.len() as int)
    &&& n.trk_col.cursor == clamp(o.trk_col.cursor as int, n.trk_col.visible@.len() as int)
}

impl App {
    /// Whether quitting should ask first: tracks are selected or errors are
    /// unresolved.
    pub fn has_pending_work(&self) -> (r: bool)
        ensures
            r == (self.trk_col.selected@.len() > 0 || self.unresolved_errors),
    {
        !self.trk_col.selected.is_empty() || self.unresolved_errors
    }

    /// The row index under the IMAGES cursor.
    pub fn image_index(&self) -> (r: Option<usize>)
        ensures
            match self.image_at_cursor() {
                Some(i) => r == Some(i as usize) && i < self.images@.len(),
                None => r is None,
            },
    {
        if self.img_col.cursor < self.img_col.visible.len() {
            let i = self.img_col.visible[self.img_col.cursor];
            if i < self.images.len() {
                return Some(i);
            }
        }
        None
    }

    /// The row index under the TRACKS cursor.
    pub fn track_index(&self) -> (r: Option<usize>)
        ensures
            match self.track_at_cursor() {
                Some(i) => r == Some(i as usize) && i < self.tracks@.len(),
                None => r is None,
            },
    {
        if self.trk_col.cursor < self.trk_col.visible.len() {
            let i = self.trk_col.visible[self.trk_col.cursor];
            if i < self.tracks.len() {
                return Some(i);
            }
        }
        None
    }

    /// `q` / Esc: quit at once, or ask again when there is pending work.
    pub fn try_quit(&mut self)
        requires
            old(self).wf(),
        ensures
            final(self).wf(),
            quit_step(*old(self), *final(self)),
            final(self).quit_pending == (if quit_warns(*old(self)) {
                true
            } else {
                old(self).quit_pending
            }),
    {
        if self.quit_pending || !self.has_pending_work() {
            self.should_quit = true;
            return;
        }
        self.quit_pending = true;
        let mut bits: Vec<String> = Vec::new();
        let ghost b0 = views(bits@);
        if !self.trk_col.selected.is_empty() {
            let mut b = String::new();
            push_dec(&mut b, self.trk_col.selected.len() as u64);
            push_str(&mut b, " track(s) selected");
            bits.push(b);
        }
        let ghost b1 = views(bits@);
        if self.unresolved_errors {
            bits.push(String::from_str("unresolved errors"));
        }
        proof {
            let n = self.trk_col.selected@.len();
            let expect = (if n > 0 {
                seq![dec(n) + " track(s) selected"@]
            } else {
                Seq::empty()
            }) + (if self.unresolved_errors {
                seq!["unresolved errors"@]
            } else {
                Seq::empty()
            });
            assert(views(bits@) =~= expect);
        }
        let mut msg = join_strings(&bits, ", ");
        push_str(&mut msg, ". Press 'q' again to quit.");
        self.status.warn(msg);
    }

    /// Moves the focused column's cursor by `delta` rows.
    fn move_focused(&mut self, delta: isize)
        requires
            old(self).wf(),
        ensures
            final(self).wf(),
            moved(*old(self), *final(self), delta as int),
            final(self).quit_pending == old(self).quit_pending,
    {
        match self.focus {
            Focus::Images => self.img_col.move_by(delta),
            Focus::Tracks => self.trk_col.move_by(delta),
        }
    }

    /// The edit panel for the current targets, prefilled from `track` (the
    /// tags of the single target, when they could be read); a batch of
    /// several targets starts blank so untouched fields are left unchanged.
    /// None when there is no target.
    pub fn make_edit_state(&self, track: Option<Track>) -> (r: Option<EditState>)
        requires
            self.wf(),
        ensures
            r is None <==> self.targets().len() == 0,
            r matches Some(e) ==> e.wf() && edit_made(e, self.targets(), track),
    {
        let targets = self.target_track_ids();
        if targets.len() == 0 {
            return None;
        }
        let batch = targets.len() > 1;
        let mut values: Vec<String> = Vec::new();
        match (&track, batch) {
            (Some(t), false) => {
                values.push(text_or_blank(&t.title));
                values.push(text_or_blank(&t.artist));
                values.push(text_or_blank(&t.album));
                values.push(text_or_blank(&t.album_artist));
                values.push(text_or_blank(&t.genre));
                values.push(number_or_blank(t.year));
                values.push(number_or_blank(t.track_no));
                assert(views(values@) =~= prefill(*t));
            },
            _ => {
                let mut i: usize = 0;
                while i < EDIT_FIELDS
                    invariant
                        i <= EDIT_FIELDS,
                        values@.len() == i,
                        forall|j: int| 0 <= j < i ==> (#[trigger] values@[j])@.len() == 0,
                    decreases EDIT_FIELDS - i,
                {
                    values.push(String::new());
                    i += 1;
                }
            },
        }
        Some(EditState { targets, values, focus: 0, error: None, batch })
    }

    /// Opens the edit panel for the current targets, prefilled from `track`
    /// as `make_edit_state` does; with no target, the status says so.
    pub fn open_edit(&mut self, track: Option<Track>)
        requires
            old(self).wf(),
        ensures
            final(self).wf(),
            old(self).targets().len() == 0 ==> keeps(*old(self), *final(self), set![Field::Status])
                && says(*final(self), StatusLevel::Error, "no tracks to edit"@),
            old(self).targets().len() > 0 ==> {
                &&& keeps(*old(self), *final(self), set![Field::Edit, Field::Mode, Field::Status])
                &&& final(self).mode == InputMode::Edit
                &&& says(*final(self), StatusLevel::Info, editing_label(old(self).targets().len()))
                &&& (final(self).edit matches Some(e) && edit_made(e, old(self).targets(), track))
            },
    {
        match self.make_edit_state(track) {
            None => {
                self.status.err(String::from_str("no tracks to edit"));
            },
            Some(state) => {
                let n = state.targets.len();
                let label = if state.batch {
                    let mut l = String::from_str("editing ");
                    push_dec(&mut l, n as u64);
                    push_str(&mut l, " tracks");
                    l
                } else {
                    String::from_str("editing 1 track")
                };
                self.edit = Some(state);
                self.mode = InputMode::Edit;
                self.status.info(label);
            },
        }
    }

    /// `e`: opens the edit panel, or asks for the one target's tags first.
    fn start_edit(&mut self) -> (a: Action)
        requires
            old(self).wf(),
        ensures
            final(self).wf(),
            edit_open_step(*old(self), *final(self), a),
            final(self).quit_pending == old(self).quit_pending,
    {
        let targets = self.target_track_ids();
        if targets.len() == 1 {
            assert(views(targets@)[0] == targets@[0]@);
            match self.find_track(targets[0].as_str()) {
                Some(i) => {
                    let path = self.tracks[i].path.clone();
                    return Action::ReadForEdit { path };
                },
                None => {},
            }
        }
        self.open_edit(None);
        Action::Nothing
    }

    /// Enter: asks for a cover batch of the cursor image onto the targets.
    fn build_pending(&mut self) -> (a: Action)
        requires
            old(self).wf(),
        ensures
            final(self).wf(),
            cover_step(*old(self), *final(self), a),
            final(self).quit_pending == old(self).quit_pending,
    {
        let i = match self.image_index() {
            None => {
                self.status.err(String::from_str("no image to assign"));
                return Action::Nothing;
            },
            Some(i) => i,
        };
        let ids = self.target_track_ids();
        if ids.len() == 0 {
            self.status.err(String::from_str("no tracks selected"));
            return Action::Nothing;
        }
        let targets = targets_for(&self.tracks, &ids);
        Action::BuildCoverBatch {
            image_path: self.images[i].path.clone(),
            image_name: self.images[i].name.clone(),
            targets,
        }
    }

    /// A key in the normal mode.
    pub fn handle_normal(&mut self, key: KeyInput) -> (a: Action)
        requires
            old(self).wf(),
        ensures
            final(self).wf(),
            normal_step(*old(self), *final(self), key, a),
            final(self).quit_pending == (if is_quit_key(key) && quit_warns(*old(self)) {
                true
            } else {
                old(self).quit_pending
            }),
    {
        let c = key.code;
        if c == KeyCode::Tab || c == KeyCode::BackTab {
            self.focus = match self.focus {
                Focus::Images => Focus::Tracks,
                Focus::Tracks => Focus::Images,
            };
            Action::Nothing
        } else if c == KeyCode::Char('q') || c == KeyCode::Esc {
            self.try_quit();
            Action::Nothing
        } else if c == KeyCode::Char('?') {
            self.mode = InputMode::Help;
            Action::Nothing
        } else if c == KeyCode::Up || c == KeyCode::Char('k') {
            self.move_focused(-1);
            Action::Nothing
        } else if c == KeyCode::Down || c == KeyCode::Char('j') {
            self.move_focused(1);
            Action::Nothing
        } else if c == KeyCode::PageUp {
            self.move_focused(-10);
            Action::Nothing
        } else if c == KeyCode::PageDown {
            self.move_focused(10);
            Action::Nothing
        } else if c == KeyCode::Char('g') {
            match self.focus {
                Focus::Images => self.img_col.jump_top(),
                Focus::Tracks => self.trk_col.jump_top(),
            }
            Action::Nothing
        } else if c == KeyCode::Char('G') {
            match self.focus {
                Focus::Images => self.img_col.jump_bottom(),
                Focus::Tracks => self.trk_col.jump_bottom(),
            }
            Action::Nothing
        } else if c == KeyCode::Char('/') {
            self.mode = InputMode::Search(self.focus);
            Action::Nothing
        } else if c == KeyCode::Char(' ') {
            if self.focus == Focus::Tracks {
                if let Some(i) = self.track_index() {
                    let id = self.tracks[i].id.clone();
                    self.trk_col.selected.toggle(id);
                }
            }
            Action::Nothing
        } else if c == KeyCode::Char('c') {
            self.trk_col.selected.clear();
            self.status.info(String::from_str("cleared selection"));
            Action::Nothing
        } else if c == KeyCode::Char('b') {
            self.backup = !self.backup;
            let mut msg = String::from_str("backup = ");
            if self.backup {
                push_str(&mut msg, "ON");
            } else {
                push_str(&mut msg, "off");
            }
            self.status.info(msg);
            Action::Nothing
        } else if c == KeyCode::Char('e') {
            self.start_edit()
        } else if c == KeyCode::Char('R') {
            Action::Rescan
        } else if c == KeyCode::Enter {
            self.build_pending()
        } else {
            Action::Nothing
        }
    }

    /// A key while searching the column `f`.
    pub fn handle_search(&mut self, key: KeyInput, f: Focus) -> (a: Action)
        requires
            old(self).wf(),
        ensures
            final(self).wf(),
            search_step(*old(self), f, *final(self), key, a),
            final(self).quit_pending == old(self).quit_pending,
    {
        let c = key.code;
        if c == KeyCode::Esc || c == KeyCode::Enter {
            self.mode = InputMode::Normal;
            return Action::Nothing;
        }
        let handled = match f {
            Focus::Images => search_edit(&mut self.img_col, key),
            Focus::Tracks => search_edit(&mut self.trk_col, key),
        };
        if handled {
            self.recompute_visible();
        }
        Action::Nothing
    }

    /// Enter in the edit panel: asks for a batch of the edit, or records why
    /// the values do not make one.
    fn build_edit_pending(&mut self) -> (a: Action)
        requires
            old(self).wf(),
            old(self).edit is Some,
        ensures
            final(self).wf(),
            submit_step(*old(self), old(self).edit->0, *final(self), a),
            final(self).quit_pending == old(self).quit_pending,
    {
        let result = match &self.edit {
            Some(e) => changes_from_edit(e),
            None => {
                return Action::Nothing;
            },
        };
        match result {
            Err(m) => {
                match &mut self.edit {
                    Some(e) => {
                        e.error = Some(m);
                    },
                    None => {},
                }
                Action::Nothing
            },
            Ok(changes) => {
                if changes.is_empty() {
                    match &mut self.edit {
                        Some(e) => {
                            e.error = Some(
                                String::from_str("nothing to change — fill at least one field"),
                            );
                        },
                        None => {},
                    }
                    return Action::Nothing;
                }
                let summary = changes_summary(&changes);
                let targets = match &self.edit {
                    Some(e) => targets_for(&self.tracks, &e.targets),
                    None => Vec::new(),
                };
                Action::BuildEditBatch { summary, changes, targets }
            },
        }
    }

    /// A key in the edit panel.
    pub fn handle_edit(&mut self, key: KeyInput) -> (a: Action)
        requires
            old(self).wf(),
        ensures
            final(self).wf(),
            edit_step(*old(self), *final(self), key, a),
            final(self).quit_pending == old(self).quit_pending,
    {
        if self.edit.is_none() {
            self.mode = InputMode::Normal;
            return Action::Nothing;
        }
        let c = key.code;
        if c == KeyCode::Esc {
            self.edit = None;
            self.mode = InputMode::Normal;
            self.status.info(String::from_str("edit cancelled"));
            return Action::Nothing;
        }
        if c == KeyCode::Enter {
            return self.build_edit_pending();
        }
        match &mut self.edit {
            Some(e) => edit_key(e, key),
            None => {},
        }
        Action::Nothing
    }

    /// A key in the confirm popup.
    pub fn handle_confirm(&mut self, key: KeyInput) -> (a: Action)
        requires
            old(self).wf(),
        ensures
            final(self).wf(),
            confirm_step(*old(self), *final(self), key, a),
            final(self).quit_pending == old(self).quit_pending,
    {
        let c = key.code;
        if c == KeyCode::Char('y') || c == KeyCode::Enter {
            match self.pending.take() {
                None => {
                    self.mode = InputMode::Normal;
                    Action::Nothing
                },
                Some(batch) => Action::Apply { batch, backup: self.backup },
            }
        } else if c == KeyCode::Char('n') || c == KeyCode::Esc || c == KeyCode::Char('q') {
            self.pending = None;
            self.mode = if self.edit.is_some() {
                InputMode::Edit
            } else {
                InputMode::Normal
            };
            Action::Nothing
        } else {
            Action::Nothing
        }
    }
}

pub proof fn lemma_apply_errors_len(plans: Seq<Plan>, outcomes: Seq<Result<Option<String>, String>>)
    ensures
        apply_errors(plans, outcomes).len() <= outcomes.len(),
    decreases outcomes.len(),
{
    if outcomes.len() > 0 && plans.len() >= outcomes.len() {
        lemma_apply_errors_len(plans, outcomes.drop_last());
    }
}

impl App {
    /// After `R`: the rows of the rescan replace the old ones, or the status
    /// tells why it failed.
    pub fn finish_rescan(&mut self, scan: Result<(Vec<TrackRow>, Vec<ImageRow>), String>)
        requires
            old(self).wf(),
        ensures
            final(self).wf(),
            match scan {
                Ok((t, i)) => {
                    &&& keeps(
                        *old(self),
                        *final(self),
                        set![Field::Rows, Field::ImgCol, Field::TrkCol, Field::Status],
                    )
                    &&& reloaded(*old(self), *final(self), t@, i@)
                    &&& final(self).trk_col.selected@ == old(self).trk_col.selected@.filter(
                        |x: Seq<char>| exists|j: int| 0 <= j < t@.len() && t@[j].id@ == x,
                    )
                    &&& says(
                        *final(self),
                        StatusLevel::Success,
                        "Rescanned: "@ + dec(t@.len()) + " tracks, "@ + dec(i@.len()) + " images."@,
                    )
                },
                Err(e) => keeps(*old(self), *final(self), set![Field::Status]) && says(
                    *final(self),
                    StatusLevel::Error,
                    "rescan failed: "@ + e@,
                ),
            },
    {
        match scan {
            Ok((tracks, images)) => {
                self.reload(tracks, images);
                let mut msg = String::from_str("Rescanned: ");
                push_dec(&mut msg, self.tracks.len() as u64);
                push_str(&mut msg, " tracks, ");
                push_dec(&mut msg, self.images.len() as u64);
                push_str(&mut msg, " images.");
                self.status.ok(msg);
            },
            Err(e) => {
                let mut msg = String::from_str("rescan failed: ");
                push_str(&mut msg, e.as_str());
                self.status.err(msg);
            },
        }
    }

    /// After Enter, when the cursor image could not be loaded.
    pub fn cover_load_failed(&mut self, msg: &str)
        requires
            old(self).wf(),
        ensures
            final(self).wf(),
            keeps(*old(self), *final(self), set![Field::Status]),
            says(*final(self), StatusLevel::Error, "load image failed: "@ + msg@),
    {
        let mut m = String::from_str("load image failed: ");
        push_str(&mut m, msg);
        self.status.err(m);
    }

    /// After Enter, with the cover plans built for the targets: they await
    /// confirmation, unless none could be built.
    pub fn finish_cover_batch(
        &mut self,
        image_name: &str,
        plans: Vec<Plan>,
        failures: Vec<(String, String)>,
    )
        requires
            old(self).wf(),
        ensures
            final(self).wf(),
            if plans@.len() == 0 {
                keeps(*old(self), *final(self), set![Field::Status]) && says(
                    *final(self),
                    StatusLevel::Error,
                    "no applicable tracks"@,
                )
            } else {
                &&& keeps(*old(self), *final(self), set![Field::Pending, Field::Mode])
                &&& final(self).mode == InputMode::Confirm
                &&& (final(self).pending matches Some(b) && b.summary@ == "cover: "@ + image_name@
                    && b.plans == plans && b.failures == failures)
            },
    {
        if plans.len() == 0 {
            self.status.err(String::from_str("no applicable tracks"));
            return;
        }
        let mut summary = String::from_str("cover: ");
        push_str(&mut summary, image_name);
        self.pending = Some(PendingBatch { summary, plans, failures });
        self.mode = InputMode::Confirm;
    }

    /// After Enter in the edit panel, with the plans built for the targets:
    /// they await confirmation, unless none could be built.
    pub fn finish_edit_batch(
        &mut self,
        summary: String,
        plans: Vec<Plan>,
        failures: Vec<(String, String)>,
    )
        requires
            old(self).wf(),
        ensures
            final(self).wf(),
            if plans@.len() == 0 {
                &&& keeps(*old(self), *final(self), set![Field::Edit])
                &&& match old(self).edit {
                    None => final(self).edit is None,
                    Some(e) => (final(self).edit matches Some(ne) && ne.targets == e.targets
                        && ne.values == e.values && ne.focus == e.focus && ne.batch == e.batch
                        && opt_view(ne.error) == Some("no applicable tracks"@)),
                }
            } else {
                &&& keeps(*old(self), *final(self), set![Field::Pending, Field::Mode])
                &&& final(self).mode == InputMode::Confirm
                &&& (final(self).pending matches Some(b) && b.summary == summary && b.plans == plans
                    && b.failures == failures)
            },
    {
        if plans.len() == 0 {
            match &mut self.edit {
                Some(e) => {
                    e.error = Some(String::from_str("no applicable tracks"));
                },
                None => {},
            }
            return;
        }
        self.pending = Some(PendingBatch { summary, plans, failures });
        self.mode = InputMode::Confirm;
    }

    /// After a confirmed batch was applied: `outcomes` holds, per plan, the
    /// backup written (if any) or the error, and `scan` the rescan that
    /// followed. The selection and the edit are dropped and the status tells
    /// how many files were written; a failure leaves errors unresolved.
    pub fn finish_apply(
        &mut self,
        batch: PendingBatch,
        outcomes: Vec<Result<Option<String>, String>>,
        scan: Result<(Vec<TrackRow>, Vec<ImageRow>), String>,
    )
        requires
            old(self).wf(),
            outcomes@.len() == batch.plans@.len(),
        ensures
            final(self).wf(),
            final(self).trk_col.selected@.len() == 0,
            final(self).edit is None,
            final(self).mode == InputMode::Normal,
            final(self).focus == old(self).focus,
            final(self).backup == old(self).backup,
            final(self).pending == old(self).pending,
            final(self).quit_pending == old(self).quit_pending,
            final(self).should_quit == old(self).should_quit,
            match scan {
                Ok((t, i)) => reloaded(*old(self), *final(self), t@, i@),
                Err(_) => {
                    &&& final(self).root == old(self).root && final(self).recurse == old(
                        self,
                    ).recurse
                    &&& final(self).tracks == old(self).tracks
                    &&& final(self).images == old(self).images
                    &&& final(self).img_col == old(self).img_col
                    &&& final(self).trk_col.query == old(self).trk_col.query
                    &&& final(self).trk_col.visible == old(self).trk_col.visible
                    &&& final(self).trk_col.cursor == old(self).trk_col.cursor
                },
            },
            ({
                let errs = apply_errors(batch.plans@, outcomes@);
                let total = batch.plans@.len();
                let ok = (total - errs.len()) as nat;
                let hint = hint_text(first_backup(outcomes@));
                if errs.len() == 0 {
                    says(*final(self), StatusLevel::Success, applied_text(batch.summary@, ok, total, hint))
                        && final(self).unresolved_errors == old(self).unresolved_errors
                } else {
                    says(
                        *final(self),
                        StatusLevel::Error,
                        failed_text(ok, total, errs[0], errs.len(), hint),
                    ) && final(self).unresolved_errors
                }
            }),
    {
        let total = batch.plans.len();
        let mut errs: Vec<String> = Vec::new();
        let mut first: Option<String> = None;
        let mut i: usize = 0;
        while i < outcomes.len()
            invariant
                i <= outcomes@.len(),
                outcomes@.len() == batch.plans@.len(),
                views(errs@) == apply_errors(batch.plans@, outcomes@.take(i as int)),
                opt_view(first) == first_backup(outcomes@.take(i as int)),
            decreases outcomes@.len() - i,
        {
            let ghost e0 = views(errs@);
            let ghost cur = outcomes@.take(i + 1);
            assert(cur.drop_last() =~= outcomes@.take(i as int));
            assert(cur.last() == outcomes@[i as int]);
            match &outcomes[i] {
                Ok(Some(p)) => {
                    if first.is_none() {
                        first = Some(p.clone());
                    }
                },
                Ok(None) => {},
                Err(e) => {
                    let mut m = String::from_str("\"");
                    push_str(&mut m, batch.plans[i].track.display_title());
                    push_str(&mut m, "\": ");
                    push_str(&mut m, e.as_str());
                    errs.push(m);
                    assert(views(errs@) =~= e0.push(errs@.last()@));
                },
            }
            assert(views(errs@) =~= apply_errors(batch.plans@, cur));
            i += 1;
        }
        assert(outcomes@.take(outcomes@.len() as int) =~= outcomes@);
        proof {
            lemma_apply_errors_len(batch.plans@, outcomes@);
        }
        let ok = total - errs.len();
        self.trk_col.selected.clear();
        self.edit = None;
        self.mode = InputMode::Normal;
        match scan {
            Ok((tracks, images)) => {
                self.reload(tracks, images);
            },
            Err(e) => {
                let mut m = String::from_str("reload after apply failed: ");
                push_str(&mut m, e.as_str());
                self.status.warn(m);
            },
        }
        let mut hint = String::new();
        match &first {
            Some(p) => {
                push_str(&mut hint, " Backups in ");
                match parent(p.as_str()) {
                    Some(d) => push_str(&mut hint, d.as_str()),
                    None => {},
                }
            },
            None => {},
        }
        assert(hint@ == hint_text(first_backup(outcomes@)));
        if errs.len() == 0 {
            let mut msg = String::from_str("Wrote ");
            push_str(&mut msg, batch.summary.as_str());
            push_str(&mut msg, " to ");
            push_dec(&mut msg, ok as u64);
            push_str(&mut msg, "/");
            push_dec(&mut msg, total as u64);
            push_str(&mut msg, ".");
            push_str(&mut msg, hint.as_str());
            assert(msg@ == applied_text(batch.summary@, ok as nat, total as nat, hint@));
            self.status.ok(msg);
        } else {
            self.unresolved_errors = true;
            let mut msg = String::from_str("Wrote ");
            push_dec(&mut msg, ok as u64);
            push_str(&mut msg, "/");
            push_dec(&mut msg, total as u64);
            push_str(&mut msg, ". Failed → ");
            assert(views(errs@)[0] == errs@[0]@);
            push_str(&mut msg, errs[0].as_str());
            if errs.len() > 1 {
                push_str(&mut msg, " (+");
                push_dec(&mut msg, (errs.len() - 1) as u64);
                push_str(&mut msg, " more)");
            }
            push_str(&mut msg, hint.as_str());
            assert(msg@ == failed_text(ok as nat, total as nat, views(errs@)[0], errs@.len(), hint@));
            self.status.err(msg);
        }
    }
}

/// A search-mode key applied to the searched column: edits the query or
/// moves the cursor; tells whether the key was one of those.
fn search_edit(col: &mut crate::tui::app::ColumnState, key: KeyInput) -> (handled: bool)
    ensures
        final(col).selected == old(col).selected,
        final(col).visible == old(col).visible,
        ({
            let c = key.code;
            let q = old(col).query@;
            let len = old(col).visible@.len() as int;
            if c == KeyCode::Backspace {
                handled && final(col).query@ == (if q.len() > 0 {
                    q.drop_last()
                } else {
                    q
                }) && final(col).cursor == old(col).cursor
            } else if is_ctrl_u(key) {
                handled && final(col).query@ == Seq::<char>::empty() && final(col).cursor == old(
                    col,
                ).cursor
            } else if typed(key) {
                handled && final(col).query@ == q.push(c->0) && final(col).cursor == old(col).cursor
            } else if c == KeyCode::Up {
                handled && final(col).query == old(col).query && final(col).cursor == clamp(
                    old(col).cursor - 1,
                    len,
                )
            } else if c == KeyCode::Down {
                handled && final(col).query == old(col).query && final(col).cursor == clamp(
                    old(col).cursor + 1,
                    len,
                )
            } else {
                !handled && *final(col) == *old(col)
            }
        }),
{
    match key.code {
        KeyCode::Backspace => {
            pop_char(&mut col.query);
            true
        },
        KeyCode::Char(ch) => {
            if ch == 'u' && key.ctrl && !key.other_mods {
                col.query = String::new();
                true
            } else if !key.ctrl {
                push_char(&mut col.query, ch);
                true
            } else {
                false
            }
        },
        KeyCode::Up => {
            col.move_by(-1);
            true
        },
        KeyCode::Down => {
            col.move_by(1);
            true
        },
        _ => false,
    }
}

/// An edit-panel key other than Esc and Enter applied to the edit.
fn edit_key(e: &mut EditState, key: KeyInput)
    requires
        old(e).wf(),
    ensures
        final(e).wf(),
        ({
            let c = key.code;
            let vs = views(old(e).values@);
            let cur = vs[old(e).focus as int];
            if c == KeyCode::Tab || c == KeyCode::Down {
                edit_with(*old(e), *final(e), (old(e).focus + 1) % 7, vs)
            } else if c == KeyCode::BackTab || c == KeyCode::Up {
                edit_with(*old(e), *final(e), (old(e).focus + 6) % 7, vs)
            } else if c == KeyCode::Backspace {
                edit_with(
                    *old(e),
                    *final(e),
                    old(e).focus as int,
                    vs.update(
                        old(e).focus as int,
                        if cur.len() > 0 {
                            cur.drop_last()
                        } else {
                            cur
                        },
                    ),
                )
            } else if is_ctrl_u(key) {
                edit_with(*old(e), *final(e), old(e).focus as int, vs.update(old(e).focus as int, Seq::empty()))
            } else if typed(key) && c != KeyCode::Enter {
                edit_with(*old(e), *final(e), old(e).focus as int, vs.update(old(e).focus as int, cur.push(c->0)))
            } else {
                *final(e) == *old(e)
            }
        }),
{
    let c = key.code;
    if c == KeyCode::Tab || c == KeyCode::Down {
        e.focus = (e.focus + 1) % EDIT_FIELDS;
        assert(views(e.values@) == views(old(e).values@));
    } else if c == KeyCode::BackTab || c == KeyCode::Up {
        e.focus = (e.focus + EDIT_FIELDS - 1) % EDIT_FIELDS;
    } else if c == KeyCode::Backspace {
        let v = e.focused_value_mut();
        pop_char(v);
        assert(views(e.values@) =~= views(old(e).values@).update(
            old(e).focus as int,
            e.values@[old(e).focus as int]@,
        ));
    } else if let KeyCode::Char(ch) = c {
        if ch == 'u' && key.ctrl && !key.other_mods {
            let v = e.focused_value_mut();
            *v = String::new();
            assert(views(e.values@) =~= views(old(e).values@).update(
                old(e).focus as int,
                e.values@[old(e).focus as int]@,
            ));
        } else if !key.ctrl {
            let v = e.focused_value_mut();
            push_char(v, ch);
            assert(views(e.values@) =~= views(old(e).values@).update(
                old(e).focus as int,
                e.values@[old(e).focus as int]@,
            ));
        }
    }
}

/// What a key event does to the interface, and the work it asks for.
pub fn handle_key(app: &mut App, key: KeyInput) -> (a: Action)
    requires
        old(app).wf(),
    ensures
        final(app).wf(),
        step(*old(app), *final(app), key, a),
{
    if !key.press {
        return Action::Nothing;
    }
    let is_quit = key.code == KeyCode::Char('q') || key.code == KeyCode::Esc;
    if !is_quit {
        app.quit_pending = false;
    }
    assert(*app == unquit(*old(app), key));
    match app.mode {
        InputMode::Normal => app.handle_normal(key),
        InputMode::Search(f) => app.handle_search(key, f),
        InputMode::Edit => app.handle_edit(key),
        InputMode::Confirm => app.handle_confirm(key),
        InputMode::Help => {
            app.mode = InputMode::Normal;
            Action::Nothing
        },
    }
}

// ----- laws of the key handling -----

/// A key release changes nothing and asks for nothing.
pub proof fn law_release_ignored(o: App, n: App, k: KeyInput, a: Action)
    requires
        step(o, n, k, a),
        !k.press,
    ensures
        n == o,
        a is Nothing,
{
}

/// In the normal mode two presses of a quit key (`q` or Esc) quit, whatever
/// is pending: the first may only warn and ask for the second.
pub proof fn law_quit_twice(o: App, m: App, n: App, k1: KeyInput, k2: KeyInput, a1: Action, a2: Action)
    requires
        o.mode == InputMode::Normal,
        k1.press && is_quit_key(k1),
        k2.press && is_quit_key(k2),
        step(o, m, k1, a1),
        step(m, n, k2, a2),
    ensures
        n.should_quit,
{
}

/// With tracks selected, a single quit key in the normal mode does not quit
/// (unless a quit was already pending): it warns instead.
pub proof fn law_quit_warns_first(o: App, n: App, k: KeyInput, a: Action)
    requires
        o.mode == InputMode::Normal,
        k.press && is_quit_key(k),
        o.trk_col.selected@.len() > 0,
        !o.quit_pending,
        !o.should_quit,
        step(o, n, k, a),
    ensures
        !n.should_quit,
        n.quit_pending,
        n.status.level == StatusLevel::Warn,
{
}

/// In the normal mode `c` empties the track selection, whatever was
/// selected, and says so; the rows themselves stay as they were.
pub proof fn law_clear_empties_selection(o: App, n: App, k: KeyInput, a: Action)
    requires
        o.mode == InputMode::Normal,
        k.press,
        k.code == KeyCode::Char('c'),
        step(o, n, k, a),
    ensures
        n.trk_col.selected@.len() == 0,
        n.trk_col.selected.wf(),
        n.targets().len() <= 1,
        n.status.text@ == "cleared selection"@,
        n.tracks == o.tracks,
        n.images == o.images,
        a is Nothing,
{
}

/// The text a tag shows in the edit panel: its value, or nothing.
pub open spec fn tag_text(o: Option<String>) -> Seq<char> {
    match o {
        Some(v) => v@,
        None => Seq::empty(),
    }
}

/// The edit panel of one track opens each field with that track's own tag:
/// the field labelled `title` with its title, `artist` with its artist,
/// `album` with its album, `album-artist` with its album artist and `genre`
/// with its genre (blank when the tag is absent), and `year` and `track`
/// with its year and track number in decimal.
pub proof fn law_prefill_by_label(t: Track)
    ensures
        prefill(t).len() == EDIT_FIELDS,
        edit_label_text(0) == "title"@ && prefill(t)[0] == tag_text(t.title),
        edit_label_text(1) == "artist"@ && prefill(t)[1] == tag_text(t.artist),
        edit_label_text(2) == "album"@ && prefill(t)[2] == tag_text(t.album),
        edit_label_text(3) == "album-artist"@ && prefill(t)[3] == tag_text(t.album_artist),
        edit_label_text(4) == "genre"@ && prefill(t)[4] == tag_text(t.genre),
        edit_label_text(5) == "year"@ && (t.year matches Some(y) ==> prefill(t)[5] == dec(
            y as nat,
        )) && (t.year is None ==> prefill(t)[5].len() == 0),
        edit_label_text(6) == "track"@ && (t.track_no matches Some(y) ==> prefill(t)[6] == dec(
            y as nat,
        )) && (t.track_no is None ==> prefill(t)[6].len() == 0),
{
}

/// A tag value the edit panel gives back as it is: absent, or non-empty
/// without surrounding whitespace.
pub open spec fn tidy(o: Option<String>) -> bool {
    match o {
        Some(v) => v@.len() > 0 && trim(v@) == v@,
        None => true,
    }
}

/// Opening the edit panel on one track and submitting it untouched writes
/// each tidy text tag back as it was: nothing is moved from one field to
/// another, and absent tags stay absent.
pub proof fn law_untouched_edit_keeps_tags(t: Track, c: Changes)
    requires
        changes_of_values(c, prefill(t)),
        tidy(t.title),
        tidy(t.artist),
        tidy(t.album),
        tidy(t.album_artist),
        tidy(t.genre),
    ensures
        opt_view(c.title) == opt_view(t.title),
        opt_view(c.artist) == opt_view(t.artist),
        opt_view(c.album) == opt_view(t.album),
        opt_view(c.album_artist) == opt_view(t.album_artist),
        opt_view(c.genre) == opt_view(t.genre),
{
    let e = Seq::<char>::empty();
    assert(trim_start(e) == e);
    assert(trim_end(e) == e);
    assert(trim(e) == e);
}

/// Any key pressed on the help screen closes it, and does nothing else.
pub proof fn law_help_closes(o: App, n: App, k: KeyInput, a: Action)
    requires
        o.mode == InputMode::Help,
        k.press,
        step(o, n, k, a),
    ensures
        n.mode == InputMode::Normal,
        a is Nothing,
        n.tracks == o.tracks && n.trk_col == o.trk_col && n.img_col == o.img_col,
{
}

/// Cancelling the confirm popup drops the batch and returns to the edit
/// panel it came from, so the typing there is not lost; otherwise to the
/// normal mode.
pub proof fn law_cancel_keeps_edit(o: App, n: App, k: KeyInput, a: Action)
    requires
        o.mode == InputMode::Confirm,
        k.press,
        k.code == KeyCode::Char('n') || k.code == KeyCode::Esc || k.code == KeyCode::Char('q'),
        step(o, n, k, a),
    ensures
        n.pending is None,
        n.edit == o.edit,
        n.mode == if o.edit is Some {
            InputMode::Edit
        } else {
            InputMode::Normal
        },
        a is Nothing,
{
}

/// The targets of an edit are fixed when the panel opens: no key changes
/// them while it is open, whatever happens to the selection.
pub proof fn law_edit_targets_fixed(o: App, n: App, k: KeyInput, a: Action)
    requires
        o.mode == InputMode::Edit,
        step(o, n, k, a),
        o.edit matches Some(e),
        n.edit matches Some(ne),
    ensures
        n.edit->0.targets == o.edit->0.targets,
{
}

/// Cursors never leave the rows their column shows: in a well-formed state
/// (which every key keeps) each cursor is on a shown row, or at the top of
/// an empty column.
pub proof fn law_cursor_on_rows(o: App)
    requires
        o.wf(),
    ensures
        o.img_col.visible@.len() == 0 ==> o.img_col.cursor == 0,
        o.img_col.visible@.len() > 0 ==> o.img_col.cursor < o.img_col.visible@.len(),
        o.trk_col.visible@.len() == 0 ==> o.trk_col.cursor == 0,
        o.trk_col.visible@.len() > 0 ==> o.trk_col.cursor < o.trk_col.visible@.len(),
{
}

} // verus!
