//! The text the interface draws: the top bar, the column titles and rows,
//! the preview pane's description and the popups. Colours, layout and the
//! drawing itself are left to the caller.
use vstd::prelude::*;
use vstd::string::StringExecFns;

use crate::format::{duration_text, format_duration, format_size, opt_view, size_text, DASH};
use crate::meta::{dims_text, title_text};
use crate::text::{dec, push_dec, push_str, views};
use crate::tui::app::{
    edit_label, edit_label_text, App, EditState, Focus, InputMode, PendingBatch, EDIT_FIELDS,
};
use crate::tui::data::{ImageRow, TrackRow};

verus! {

/// `ON` or `off`.
pub open spec fn on_off(b: bool) -> Seq<char> {
    if b {
        "ON"@
    } else {
        "off"@
    }
}

fn push_on_off(s: &mut String, b: bool)
    ensures
        final(s)@ == old(s)@ + on_off(b),
{
    if b {
        push_str(s, "ON");
    } else {
        push_str(s, "off");
    }
}

/// The counts shown beside the program name.
pub open spec fn top_bar_text(tracks: nat, images: nat, selected: nat, backup: bool) -> Seq<char> {
    "  "@ + dec(tracks) + " tracks  "@ + dec(images) + " images  selected="@ + dec(selected)
        + "  backup="@ + on_off(backup)
}

pub fn top_bar(app: &App) -> (r: String)
    ensures
        r@ == top_bar_text(
            app.tracks@.len(),
            app.images@.len(),
            app.trk_col.selected@.len(),
            app.backup,
        ),
{
    let mut s = String::from_str("  ");
    push_dec(&mut s, app.tracks.len() as u64);
    push_str(&mut s, " tracks  ");
    push_dec(&mut s, app.images.len() as u64);
    push_str(&mut s, " images  selected=");
    push_dec(&mut s, app.trk_col.selected.len() as u64);
    push_str(&mut s, "  backup=");
    push_on_off(&mut s, app.backup);
    s
}

/// A column's border title: its label and how many rows it shows.
pub open spec fn column_title_text(label: Seq<char>, count: nat) -> Seq<char> {
    " "@ + label + " ("@ + dec(count) + ") "@
}

pub fn column_title(label: &str, count: usize) -> (r: String)
    ensures
        r@ == column_title_text(label@, count as nat),
{
    let mut s = String::from_str(" ");
    push_str(&mut s, label);
    push_str(&mut s, " (");
    push_dec(&mut s, count as u64);
    push_str(&mut s, ") ");
    s
}

/// A column's search bar: the query, with a caret while it is being typed.
pub open spec fn search_bar_text(query: Seq<char>, active: bool) -> Seq<char> {
    " / "@ + query + if active {
        "_"@
    } else {
        Seq::empty()
    }
}

pub fn search_bar(query: &str, active: bool) -> (r: String)
    ensures
        r@ == search_bar_text(query@, active),
{
    let mut s = String::from_str(" / ");
    push_str(&mut s, query);
    if active {
        push_str(&mut s, "_");
    }
    s
}

/// Whether the search bar of the column `f` is being typed in.
pub open spec fn searching(mode: InputMode, f: Focus) -> bool {
    mode == InputMode::Search(f)
}

pub fn search_active(app: &App, f: Focus) -> (r: bool)
    ensures
        r == searching(app.mode, f),
{
    match app.mode {
        InputMode::Search(g) => g == f,
        _ => false,
    }
}

/// Pixel dimensions as `W×H`, or `unknown` when they are not known.
pub open spec fn dims_or(d: Option<(u32, u32)>, unknown: Seq<char>) -> Seq<char> {
    match d {
        Some(_) => dims_text(d),
        None => unknown,
    }
}

fn push_dims(s: &mut String, d: Option<(u32, u32)>, unknown: &str)
    ensures
        final(s)@ == old(s)@ + dims_or(d, unknown@),
{
    match d {
        Some((w, h)) => {
            push_dec(s, w as u64);
            push_str(s, "×");
            push_dec(s, h as u64);
        },
        None => push_str(s, unknown),
    }
}

/// One row of the IMAGES column.
pub struct ImageLine {
    /// The row is under the cursor (drawn with a check mark).
    pub marked: bool,
    pub name: String,
    /// Dimensions and size, after the name.
    pub detail: String,
}

/// The detail after an image's name.
pub open spec fn image_detail_text(r: ImageRow) -> Seq<char> {
    "  "@ + dims_or(r.dims, "?"@) + "  "@ + size_text(r.size as nat)
}

/// The rows of the IMAGES column, one per shown image, in order.
pub fn image_lines(app: &App) -> (r: Vec<ImageLine>)
    requires
        app.wf(),
    ensures
        r@.len() == app.img_col.visible@.len(),
        forall|p: int|
            0 <= p < r@.len() ==> {
                let row = app.images@[app.img_col.visible@[p] as int];
                &&& (#[trigger] r@[p]).marked == (p == app.img_col.cursor)
                &&& r@[p].name@ == row.name@
                &&& r@[p].detail@ == image_detail_text(row)
            },
{
    let mut out: Vec<ImageLine> = Vec::new();
    let mut p: usize = 0;
    while p < app.img_col.visible.len()
        invariant
            app.wf(),
            p <= app.img_col.visible@.len(),
            out@.len() == p,
            forall|q: int|
                0 <= q < p ==> {
                    let row = app.images@[app.img_col.visible@[q] as int];
                    &&& (#[trigger] out@[q]).marked == (q == app.img_col.cursor)
                    &&& out@[q].name@ == row.name@
                    &&& out@[q].detail@ == image_detail_text(row)
                },
        decreases app.img_col.visible@.len() - p,
    {
        let idx = app.img_col.visible[p];
        assert(idx < app.images@.len());
        let row = &app.images[idx];
        let mut detail = String::from_str("  ");
        push_dims(&mut detail, row.dims, "?");
        push_str(&mut detail, "  ");
        let size = format_size(row.size);
        push_str(&mut detail, size.as_str());
        out.push(ImageLine { marked: p == app.img_col.cursor, name: row.name.clone(), detail });
        p += 1;
    }
    out
}

/// One row of the TRACKS column (drawn as two lines).
pub struct TrackLine {
    /// The track is in the selection (drawn with a check mark).
    pub selected: bool,
    /// An apply would touch it: selected, or under the cursor when nothing
    /// is selected.
    pub target: bool,
    pub title: String,
    /// `  —  ` and the artist (a dash when there is none).
    pub artist: String,
    /// The container, in brackets.
    pub format: String,
    /// How many pictures are embedded, or `no art`.
    pub art: String,
    pub has_art: bool,
    pub duration: String,
}

/// The artist part of a track row.
pub open spec fn artist_text(a: Seq<char>) -> Seq<char> {
    "  —  "@ + if a.len() == 0 {
        DASH@
    } else {
        a
    }
}

/// The art part of a track row.
pub open spec fn art_count_text(n: nat) -> Seq<char> {
    if n > 0 {
        dec(n) + " art"@
    } else {
        "no art"@
    }
}

/// `l` shows the track row `row` at position `p` of the column.
pub open spec fn track_line_of(app: App, p: int, row: TrackRow, l: TrackLine) -> bool {
    let sel = app.trk_col.selected@.contains(row.id@);
    &&& l.selected == sel
    &&& l.target == (sel || (app.trk_col.selected@.len() == 0 && p == app.trk_col.cursor))
    &&& l.title@ == row.title@
    &&& l.artist@ == artist_text(row.artist@)
    &&& l.format@ == "  ["@ + row.format@ + "]"@
    &&& l.art@ == art_count_text(row.art_count as nat)
    &&& l.has_art == (row.art_count > 0)
    &&& l.duration@ == duration_text(row.duration_secs as nat)
}

/// The rows of the TRACKS column, one per shown track, in order.
pub fn track_lines(app: &App) -> (r: Vec<TrackLine>)
    requires
        app.wf(),
    ensures
        r@.len() == app.trk_col.visible@.len(),
        forall|p: int|
            0 <= p < r@.len() ==> track_line_of(
                *app,
                p,
                app.tracks@[app.trk_col.visible@[p] as int],
                #[trigger] r@[p],
            ),
{
    let mut out: Vec<TrackLine> = Vec::new();
    let none_selected = app.trk_col.selected.is_empty();
    let mut p: usize = 0;
    while p < app.trk_col.visible.len()
        invariant
            app.wf(),
            none_selected == (app.trk_col.selected@.len() == 0),
            p <= app.trk_col.visible@.len(),
            out@.len() == p,
            forall|q: int|
                0 <= q < p ==> track_line_of(
                    *app,
                    q,
                    app.tracks@[app.trk_col.visible@[q] as int],
                    #[trigger] out@[q],
                ),
        decreases app.trk_col.visible@.len() - p,
    {
        let idx = app.trk_col.visible[p];
        assert(idx < app.tracks@.len());
        let row = &app.tracks[idx];
        let selected = app.trk_col.selected.contains(row.id.as_str());
        let mut artist = String::from_str("  —  ");
        if row.artist.as_str().is_empty() {
            push_str(&mut artist, DASH);
        } else {
            push_str(&mut artist, row.artist.as_str());
        }
        let mut format = String::from_str("  [");
        push_str(&mut format, row.format.as_str());
        push_str(&mut format, "]");
        let art = if row.art_count > 0 {
            let mut a = String::new();
            push_dec(&mut a, row.art_count as u64);
            push_str(&mut a, " art");
            a
        } else {
            String::from_str("no art")
        };
        out.push(
            TrackLine {
                selected,
                target: selected || (none_selected && p == app.trk_col.cursor),
                title: row.title.clone(),
                artist,
                format,
                art,
                has_art: row.art_count > 0,
                duration: format_duration(row.duration_secs),
            },
        );
        p += 1;
    }
    out
}

/// The preview pane's title: which cover it shows.
pub open spec fn preview_title_text(app: App) -> Seq<char> {
    match app.focus {
        Focus::Images => " PREVIEW "@,
        Focus::Tracks => match app.track_at_cursor() {
            Some(i) => " PREVIEW · "@ + app.tracks@[i].title@ + " (embedded) "@,
            None => " PREVIEW "@,
        },
    }
}

pub fn preview_title(app: &App) -> (r: String)
    ensures
        r@ == preview_title_text(*app),
{
    match app.focus {
        Focus::Images => String::from_str(" PREVIEW "),
        Focus::Tracks => match app.current_track() {
            Some(t) => {
                let mut s = String::from_str(" PREVIEW · ");
                push_str(&mut s, t.title.as_str());
                push_str(&mut s, " (embedded) ");
                s
            },
            None => String::from_str(" PREVIEW "),
        },
    }
}

/// What the preview pane says beside the picture.
pub struct PreviewInfo {
    /// The name of the image, or the title of the track, when there is one
    /// under the cursor.
    pub heading: Option<String>,
    /// Dimensions and size of the image, or container and art of the track.
    pub detail: Option<String>,
    /// `no image` or `no track` when there is none.
    pub missing: Option<String>,
    /// How many tracks an assignment would touch, and which.
    pub assign: String,
    /// The cursor track, as a bullet.
    pub bullet: Option<String>,
}

/// How many tracks an assignment touches, and which.
pub open spec fn assign_text(app: App) -> Seq<char> {
    dec(app.targets().len()) + if app.trk_col.selected@.len() == 0 {
        " cursor track"@
    } else {
        " selected"@
    }
}

/// The description of a track's embedded art in the preview pane.
pub open spec fn embedded_text(n: nat) -> Seq<char> {
    if n > 0 {
        dec(n) + " embedded"@
    } else {
        "no cover"@
    }
}

/// `v` is the text `t`, or absent when `t` is.
pub open spec fn shows(v: Option<String>, t: Option<Seq<char>>) -> bool {
    opt_view(v) == t
}

/// What the preview pane says for this state.
pub open spec fn preview_info_of(app: App, r: PreviewInfo) -> bool {
    &&& match app.focus {
        Focus::Images => match app.image_at_cursor() {
            Some(i) => {
                let img = app.images@[i];
                &&& shows(r.heading, Some(img.name@))
                &&& shows(
                    r.detail,
                    Some(dims_or(img.dims, "unknown"@) + "   "@ + size_text(img.size as nat)),
                )
                &&& r.missing is None
            },
            None => r.heading is None && r.detail is None && shows(r.missing, Some("no image"@)),
        },
        Focus::Tracks => match app.track_at_cursor() {
            Some(i) => {
                let t = app.tracks@[i];
                &&& shows(r.heading, Some(t.title@))
                &&& shows(
                    r.detail,
                    Some("["@ + t.format@ + "]   "@ + embedded_text(t.art_count as nat)),
                )
                &&& r.missing is None
            },
            None => r.heading is None && r.detail is None && shows(r.missing, Some("no track"@)),
        },
    }
    &&& r.assign@ == assign_text(app)
    &&& shows(
        r.bullet,
        match app.track_at_cursor() {
            Some(i) => Some("• "@ + app.tracks@[i].title@),
            None => None,
        },
    )
}

pub fn preview_info(app: &App) -> (r: PreviewInfo)
    requires
        app.wf(),
    ensures
        preview_info_of(*app, r),
{
    let (heading, detail, missing) = match app.focus {
        Focus::Images => match app.current_image() {
            Some(img) => {
                let mut d = String::new();
                push_dims(&mut d, img.dims, "unknown");
                push_str(&mut d, "   ");
                let size = format_size(img.size);
                push_str(&mut d, size.as_str());
                assert(d@ =~= dims_or(img.dims, "unknown"@) + "   "@ + size_text(img.size as nat));
                (Some(img.name.clone()), Some(d), None)
            },
            None => (None, None, Some(String::from_str("no image"))),
        },
        Focus::Tracks => match app.current_track() {
            Some(t) => {
                let mut d = String::from_str("[");
                push_str(&mut d, t.format.as_str());
                push_str(&mut d, "]   ");
                if t.art_count > 0 {
                    push_dec(&mut d, t.art_count as u64);
                    push_str(&mut d, " embedded");
                } else {
                    push_str(&mut d, "no cover");
                }
                assert(d@ =~= "["@ + t.format@ + "]   "@ + embedded_text(t.art_count as nat));
                (Some(t.title.clone()), Some(d), None)
            },
            None => (None, None, Some(String::from_str("no track"))),
        },
    };
    let targets = app.target_track_ids();
    let mut assign = String::new();
    push_dec(&mut assign, targets.len() as u64);
    if app.trk_col.selected.is_empty() {
        push_str(&mut assign, " cursor track");
    } else {
        push_str(&mut assign, " selected");
    }
    let bullet = match app.current_track() {
        Some(t) => {
            let mut b = String::from_str("• ");
            push_str(&mut b, t.title.as_str());
            Some(b)
        },
        None => None,
    };
    PreviewInfo { heading, detail, missing, assign, bullet }
}

/// What the confirm popup lists.
pub struct ConfirmView {
    /// What the batch changes.
    pub summary: String,
    /// The title of each track a plan was built for.
    pub titles: Vec<String>,
    /// The targets skipped, each as `  title: error`.
    pub skipped: Vec<String>,
    /// The keys and the backup setting.
    pub footer: String,
}

/// The confirm popup's last line.
pub open spec fn confirm_footer_text(n: nat, backup: bool) -> Seq<char> {
    "[y/enter] assign to "@ + dec(n) + "     [n/esc] cancel    backup="@ + on_off(backup)
}

pub fn confirm_view(batch: &PendingBatch, backup: bool) -> (r: ConfirmView)
    ensures
        r.summary@ == batch.summary@,
        views(r.titles@) == batch.plans@.map_values(|p: crate::meta::Plan| title_text(p.track)),
        views(r.skipped@) == batch.failures@.map_values(
            |f: (String, String)| "  "@ + f.0@ + ": "@ + f.1@,
        ),
        r.footer@ == confirm_footer_text(batch.plans@.len(), backup),
{
    let mut titles: Vec<String> = Vec::new();
    let mut i: usize = 0;
    while i < batch.plans.len()
        invariant
            i <= batch.plans@.len(),
            views(titles@) == batch.plans@.take(i as int).map_values(
                |p: crate::meta::Plan| title_text(p.track),
            ),
        decreases batch.plans@.len() - i,
    {
        let ghost t0 = views(titles@);
        titles.push(String::from_str(batch.plans[i].track.display_title()));
        assert(views(titles@) =~= t0.push(title_text(batch.plans@[i as int].track)));
        assert(batch.plans@.take(i + 1).map_values(|p: crate::meta::Plan| title_text(p.track))
            =~= batch.plans@.take(i as int).map_values(|p: crate::meta::Plan| title_text(p.track)).push(
            title_text(batch.plans@[i as int].track),
        ));
        i += 1;
    }
    assert(batch.plans@.take(batch.plans@.len() as int) =~= batch.plans@);
    let mut skipped: Vec<String> = Vec::new();
    let mut j: usize = 0;
    while j < batch.failures.len()
        invariant
            j <= batch.failures@.len(),
            views(skipped@) == batch.failures@.take(j as int).map_values(
                |f: (String, String)| "  "@ + f.0@ + ": "@ + f.1@,
            ),
        decreases batch.failures@.len() - j,
    {
        let ghost s0 = views(skipped@);
        let mut line = String::from_str("  ");
        push_str(&mut line, batch.failures[j].0.as_str());
        push_str(&mut line, ": ");
        push_str(&mut line, batch.failures[j].1.as_str());
        skipped.push(line);
        let ghost f = batch.failures@[j as int];
        assert(views(skipped@) =~= s0.push("  "@ + f.0@ + ": "@ + f.1@));
        assert(batch.failures@.take(j + 1).map_values(
            |f: (String, String)| "  "@ + f.0@ + ": "@ + f.1@,
        ) =~= batch.failures@.take(j as int).map_values(
            |f: (String, String)| "  "@ + f.0@ + ": "@ + f.1@,
        ).push("  "@ + f.0@ + ": "@ + f.1@));
        j += 1;
    }
    assert(batch.failures@.take(batch.failures@.len() as int) =~= batch.failures@);
    let mut footer = String::from_str("[y/enter] assign to ");
    push_dec(&mut footer, batch.plans.len() as u64);
    push_str(&mut footer, "     [n/esc] cancel    backup=");
    push_on_off(&mut footer, backup);
    ConfirmView { summary: batch.summary.clone(), titles, skipped, footer }
}

/// One field of the edit popup.
pub struct EditLine {
    /// The field's name, right-aligned, and a colon.
    pub label: String,
    /// The value, with a caret on the focused field; a dash for an empty
    /// field that is not focused.
    pub value: String,
    pub focused: bool,
    /// The value is the placeholder dash.
    pub placeholder: bool,
}

/// `s` right-aligned in `width` characters (`{:>width}`).
pub open spec fn right_aligned(s: Seq<char>, width: nat) -> Seq<char> {
    if s.len() >= width {
        s
    } else {
        Seq::new((width - s.len()) as nat, |i: int| ' ') + s
    }
}

/// The label of edit field `i`.
pub open spec fn edit_label_line(i: int) -> Seq<char> {
    right_aligned(edit_label_text(i), 13) + ": "@
}

/// `l` shows field `i` of the edit `e`.
pub open spec fn edit_line_of(e: EditState, i: int, l: EditLine) -> bool {
    let focused = i == e.focus;
    let v = e.values@[i]@;
    &&& l.label@ == edit_label_line(i)
    &&& l.focused == focused
    &&& l.placeholder == (v.len() == 0 && !focused)
    &&& l.value@ == if v.len() == 0 && !focused {
        DASH@
    } else if focused {
        v + "_"@
    } else {
        v
    }
}

/// What the edit popup shows.
pub struct EditView {
    /// The popup's title: how many tracks are edited.
    pub scope: String,
    /// Several tracks are edited (blank fields are left unchanged).
    pub batch: bool,
    pub fields: Vec<EditLine>,
    /// Why the last submit was refused, as `⚠ message`.
    pub error: Option<String>,
}

/// The edit popup's title.
pub open spec fn edit_scope_text(batch: bool, n: nat) -> Seq<char> {
    if batch {
        " EDIT "@ + dec(n) + " TRACKS "@
    } else {
        " EDIT TRACK "@
    }
}

fn spaces(n: usize) -> (r: String)
    ensures
        r@ == Seq::new(n as nat, |i: int| ' '),
{
    let mut s = String::new();
    let mut i: usize = 0;
    while i < n
        invariant
            i <= n,
            s@ == Seq::new(i as nat, |k: int| ' '),
        decreases n - i,
    {
        crate::text::push_char(&mut s, ' ');
        assert(s@ =~= Seq::new((i + 1) as nat, |k: int| ' '));
        i += 1;
    }
    s
}

pub fn edit_view(e: &EditState) -> (r: EditView)
    requires
        e.wf(),
    ensures
        r.scope@ == edit_scope_text(e.batch, e.targets@.len()),
        r.batch == e.batch,
        r.fields@.len() == EDIT_FIELDS,
        forall|i: int| 0 <= i < EDIT_FIELDS ==> edit_line_of(*e, i, #[trigger] r.fields@[i]),
        shows(
            r.error,
            match e.error {
                Some(m) => Some("⚠ "@ + m@),
                None => None,
            },
        ),
{
    let scope = if e.batch {
        let mut s = String::from_str(" EDIT ");
        push_dec(&mut s, e.targets.len() as u64);
        push_str(&mut s, " TRACKS ");
        s
    } else {
        String::from_str(" EDIT TRACK ")
    };
    let mut fields: Vec<EditLine> = Vec::new();
    let mut i: usize = 0;
    while i < EDIT_FIELDS
        invariant
            e.wf(),
            i <= EDIT_FIELDS,
            fields@.len() == i,
            forall|k: int| 0 <= k < i ==> edit_line_of(*e, k, #[trigger] fields@[k]),
        decreases EDIT_FIELDS - i,
    {
        let name = edit_label(i);
        let n = name.unicode_len();
        let mut label = if n < 13 {
            spaces(13 - n)
        } else {
            String::new()
        };
        push_str(&mut label, name);
        push_str(&mut label, ": ");
        let focused = i == e.focus;
        let v = e.values[i].as_str();
        let empty = v.is_empty();
        let value = if empty && !focused {
            String::from_str(DASH)
        } else {
            let mut s = String::from_str(v);
            if focused {
                push_str(&mut s, "_");
            }
            s
        };
        let ghost ln = edit_label_text(i as int);
        assert(label@ == right_aligned(ln, 13) + ": "@) by {
            if ln.len() < 13 {
                assert(label@ =~= Seq::new((13 - ln.len()) as nat, |k: int| ' ') + ln + ": "@);
            } else {
                assert(label@ =~= ln + ": "@);
            }
        }
        fields.push(EditLine { label, value, focused, placeholder: empty && !focused });
        i += 1;
    }
    let error = match &e.error {
        Some(m) => {
            let mut s = String::from_str("⚠ ");
            push_str(&mut s, m.as_str());
            Some(s)
        },
        None => None,
    };
    EditView { scope, batch: e.batch, fields, error }
}

} // verus!
