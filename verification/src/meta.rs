//! The metadata model and the read / plan / apply pipeline: what a track's
//! tags say, which changes a plan carries, how a plan previews, which tag
//! writes apply it, and where the backup of a file goes.
use vstd::prelude::*;
use std::hash::{Hash, Hasher};
use vstd::string::{StrSliceExecFns, StringExecFns};

use crate::art::{mime_text, Art, MimeType};
use crate::format::{opt_view, DASH};
use crate::path::{file_name, file_name_of, file_name_range, join, join_of};
use crate::text::{
    all_plain, debug_quoted, debug_str, dec, no_newline, digit_value, hex_fixed, is_digit, join_seq, join_strings,
    push_char, push_dec, push_hex_fixed, push_str, views,
};

verus! {

/// The audio container of a file (`lofty::file::FileType`).
#[derive(Clone, Copy, Debug, PartialEq, Eq, Structural)]
pub enum AudioFormat {
    Aac,
    Aiff,
    Ape,
    Flac,
    Mpeg,
    Mp4,
    Opus,
    Vorbis,
    Speex,
    Wav,
    WavPack,
    Other,
}

/// The short display name of a container.
pub open spec fn format_name(ft: AudioFormat) -> Seq<char> {
    match ft {
        AudioFormat::Aac => "AAC"@,
        AudioFormat::Aiff => "AIFF"@,
        AudioFormat::Ape => "APE"@,
        AudioFormat::Flac => "FLAC"@,
        AudioFormat::Mpeg => "MP3"@,
        AudioFormat::Mp4 => "M4A"@,
        AudioFormat::Opus => "OPUS"@,
        AudioFormat::Vorbis => "OGG"@,
        AudioFormat::Speex => "SPEEX"@,
        AudioFormat::Wav => "WAV"@,
        AudioFormat::WavPack => "WV"@,
        AudioFormat::Other => "AUDIO"@,
    }
}

/// The short display name of a container.
pub fn file_type_name(ft: AudioFormat) -> (r: String)
    ensures
        r@ == format_name(ft),
{
    let s = match ft {
        AudioFormat::Aac => "AAC",
        AudioFormat::Aiff => "AIFF",
        AudioFormat::Ape => "APE",
        AudioFormat::Flac => "FLAC",
        AudioFormat::Mpeg => "MP3",
        AudioFormat::Mp4 => "M4A",
        AudioFormat::Opus => "OPUS",
        AudioFormat::Vorbis => "OGG",
        AudioFormat::Speex => "SPEEX",
        AudioFormat::Wav => "WAV",
        AudioFormat::WavPack => "WV",
        AudioFormat::Other => "AUDIO",
    };
    String::from_str(s)
}

/// The year a text begins with: its first four characters, when they are all
/// ASCII digits.
pub open spec fn year_of(s: Seq<char>) -> Option<u32> {
    if s.len() >= 4 && is_digit(s[0]) && is_digit(s[1]) && is_digit(s[2]) && is_digit(s[3]) {
        Some(
            (digit_value(s[0]) * 1000 + digit_value(s[1]) * 100 + digit_value(s[2]) * 10
                + digit_value(s[3])) as u32,
        )
    } else {
        None
    }
}

/// The leading year of a date-like text (`"1999-03-01"` gives 1999).
pub fn parse_year(s: &str) -> (r: Option<u32>)
    ensures
        r == year_of(s@),
{
    if s.unicode_len() < 4 {
        return None;
    }
    let c0 = s.get_char(0);
    let c1 = s.get_char(1);
    let c2 = s.get_char(2);
    let c3 = s.get_char(3);
    if '0' <= c0 && c0 <= '9' && '0' <= c1 && c1 <= '9' && '0' <= c2 && c2 <= '9' && '0' <= c3
        && c3 <= '9' {
        let d0 = (c0 as u32) - 48;
        let d1 = (c1 as u32) - 48;
        let d2 = (c2 as u32) - 48;
        let d3 = (c3 as u32) - 48;
        Some(d0 * 1000 + d1 * 100 + d2 * 10 + d3)
    } else {
        None
    }
}

/// The year of a tag: its `Year` item when present, else its recording date;
/// whichever is used must begin with a four-digit year.
pub open spec fn tag_year(year: Option<Seq<char>>, recording_date: Option<Seq<char>>) -> Option<
    u32,
> {
    match year {
        Some(y) => year_of(y),
        None => match recording_date {
            Some(d) => year_of(d),
            None => None,
        },
    }
}

/// The year of a tag, read across formats: `Year` where the format has it,
/// else the leading year of the recording date.
pub fn read_year(year: &Option<String>, recording_date: &Option<String>) -> (r: Option<u32>)
    ensures
        r == tag_year(opt_view(*year), opt_view(*recording_date)),
{
    match year {
        Some(y) => parse_year(y.as_str()),
        None => match recording_date {
            Some(d) => parse_year(d.as_str()),
            None => None,
        },
    }
}

/// The items of one tag that a track snapshot reads.
#[derive(Clone, Debug)]
pub struct TagData {
    pub title: Option<String>,
    pub artist: Option<String>,
    pub album: Option<String>,
    pub album_artist: Option<String>,
    pub genre: Option<String>,
    /// The `Year` item as text.
    pub year: Option<String>,
    /// The `RecordingDate` item as text.
    pub recording_date: Option<String>,
    pub track: Option<u32>,
    pub picture_count: u32,
}

/// A snapshot of a track's current tag state, read once.
#[derive(Clone, Debug)]
pub struct Track {
    pub path: String,
    pub title: Option<String>,
    pub artist: Option<String>,
    pub album: Option<String>,
    pub album_artist: Option<String>,
    pub genre: Option<String>,
    pub year: Option<u32>,
    pub track_no: Option<u32>,
    pub duration_secs: u64,
    pub format: String,
    pub art_count: usize,
    pub file_size: u64,
}

/// The name a track is shown by: its title when present and non-empty, else
/// its file name, else `(unknown)`.
pub open spec fn title_text(t: Track) -> Seq<char> {
    match t.title {
        Some(s) if s@.len() > 0 => s@,
        _ => match file_name_of(t.path@) {
            Some(n) => n,
            None => "(unknown)"@,
        },
    }
}

/// The file name of a path, or `(unknown)`.
pub fn file_stem(path: &str) -> (r: &str)
    ensures
        r@ == (match file_name_of(path@) {
            Some(n) => n,
            None => "(unknown)"@,
        }),
{
    match file_name_range(path) {
        Some((k, e)) => path.substring_char(k, e),
        None => "(unknown)",
    }
}

fn copy_opt(s: &Option<String>) -> (r: Option<String>)
    ensures
        r == *s,
{
    match s {
        Some(v) => Some(v.clone()),
        None => None,
    }
}

impl Track {
    /// The snapshot of the file at `path`, given its container, its length,
    /// its size and the tag it is read from (the primary tag, else the first
    /// one; none when the file has no tag at all).
    pub fn from_tag(
        path: String,
        ft: AudioFormat,
        duration_secs: u64,
        file_size: u64,
        tag: &Option<TagData>,
    ) -> (r: Track)
        ensures
            r.path == path,
            r.format@ == format_name(ft),
            r.duration_secs == duration_secs,
            r.file_size == file_size,
            match tag {
                Some(t) => {
                    &&& r.title == t.title
                    &&& r.artist == t.artist
                    &&& r.album == t.album
                    &&& r.album_artist == t.album_artist
                    &&& r.genre == t.genre
                    &&& r.year == tag_year(opt_view(t.year), opt_view(t.recording_date))
                    &&& r.track_no == t.track
                    &&& r.art_count == t.picture_count
                },
                None => {
                    &&& r.title is None
                    &&& r.artist is None
                    &&& r.album is None
                    &&& r.album_artist is None
                    &&& r.genre is None
                    &&& r.year is None
                    &&& r.track_no is None
                    &&& r.art_count == 0
                },
            },
    {
        let format = file_type_name(ft);
        match tag {
            Some(t) => Track {
                path,
                title: copy_opt(&t.title),
                artist: copy_opt(&t.artist),
                album: copy_opt(&t.album),
                album_artist: copy_opt(&t.album_artist),
                genre: copy_opt(&t.genre),
                year: read_year(&t.year, &t.recording_date),
                track_no: t.track,
                duration_secs,
                format,
                art_count: t.picture_count as usize,
                file_size,
            },
            None => Track {
                path,
                title: None,
                artist: None,
                album: None,
                album_artist: None,
                genre: None,
                year: None,
                track_no: None,
                duration_secs,
                format,
                art_count: 0,
                file_size,
            },
        }
    }

    /// The name the track is shown by.
    pub fn display_title(&self) -> (r: &str)
        ensures
            r@ == title_text(*self),
    {
        match &self.title {
            Some(t) => {
                if t.as_str().is_empty() {
                    file_stem(self.path.as_str())
                } else {
                    t.as_str()
                }
            },
            None => file_stem(self.path.as_str()),
        }
    }
}

/// A copy of the bytes of `v`.
pub fn copy_bytes(v: &Vec<u8>) -> (r: Vec<u8>)
    ensures
        r@ == v@,
{
    let mut r: Vec<u8> = Vec::new();
    let mut i: usize = 0;
    while i < v.len()
        invariant
            i <= v.len(),
            r@ == v@.take(i as int),
        decreases v.len() - i,
    {
        r.push(v[i]);
        i += 1;
        assert(r@ =~= v@.take(i as int));
    }
    assert(v@.take(v.len() as int) =~= v@);
    r
}

/// Two images with the same bytes, type and dimensions.
pub open spec fn same_art(a: Art, b: Art) -> bool {
    a.bytes@ == b.bytes@ && a.mime == b.mime && a.dimensions == b.dimensions
}

impl Art {
    /// A copy of this image.
    pub fn copy(&self) -> (r: Art)
        ensures
            same_art(r, *self),
    {
        let mime = match &self.mime {
            MimeType::Png => MimeType::Png,
            MimeType::Jpeg => MimeType::Jpeg,
            MimeType::Tiff => MimeType::Tiff,
            MimeType::Bmp => MimeType::Bmp,
            MimeType::Gif => MimeType::Gif,
            MimeType::Unknown(s) => MimeType::Unknown(s.clone()),
        };
        Art { bytes: copy_bytes(&self.bytes), mime, dimensions: self.dimensions }
    }
}

/// The set of mutations to apply. `None` fields are left untouched; this is
/// a merge, not a replace, so a batch art assignment never clobbers titles.
pub struct Changes {
    pub title: Option<String>,
    pub artist: Option<String>,
    pub album: Option<String>,
    pub album_artist: Option<String>,
    pub genre: Option<String>,
    pub year: Option<u32>,
    pub track_no: Option<u32>,
    pub art: Option<Art>,
}

/// A change set that touches nothing.
pub open spec fn no_changes(c: Changes) -> bool {
    c.title is None && c.artist is None && c.album is None && c.album_artist is None && c.genre is None
        && c.year is None && c.track_no is None && c.art is None
}

/// Two change sets with the same fields (the cover compared by its bytes,
/// type and dimensions).
pub open spec fn same_changes(a: Changes, b: Changes) -> bool {
    &&& a.title == b.title
    &&& a.artist == b.artist
    &&& a.album == b.album
    &&& a.album_artist == b.album_artist
    &&& a.genre == b.genre
    &&& a.year == b.year
    &&& a.track_no == b.track_no
    &&& match (a.art, b.art) {
        (Some(x), Some(y)) => same_art(x, y),
        (None, None) => true,
        _ => false,
    }
}

impl Default for Changes {
    fn default() -> (r: Changes)
        ensures
            no_changes(r),
    {
        Changes {
            title: None,
            artist: None,
            album: None,
            album_artist: None,
            genre: None,
            year: None,
            track_no: None,
            art: None,
        }
    }
}

impl Changes {
    /// A change set that only assigns `art` as the front cover.
    pub fn art_only(art: Art) -> (r: Changes)
        ensures
            r.title is None && r.artist is None && r.album is None && r.album_artist is None
                && r.genre is None && r.year is None && r.track_no is None,
            r.art == Some(art),
    {
        Changes {
            title: None,
            artist: None,
            album: None,
            album_artist: None,
            genre: None,
            year: None,
            track_no: None,
            art: Some(art),
        }
    }

    /// Whether the change set touches nothing.
    pub fn is_empty(&self) -> (r: bool)
        ensures
            r == no_changes(*self),
    {
        self.title.is_none() && self.artist.is_none() && self.album.is_none()
            && self.album_artist.is_none() && self.genre.is_none() && self.year.is_none()
            && self.track_no.is_none() && self.art.is_none()
    }

    /// A copy of this change set.
    pub fn copy(&self) -> (r: Changes)
        ensures
            same_changes(r, *self),
    {
        Changes {
            title: copy_opt(&self.title),
            artist: copy_opt(&self.artist),
            album: copy_opt(&self.album),
            album_artist: copy_opt(&self.album_artist),
            genre: copy_opt(&self.genre),
            year: self.year,
            track_no: self.track_no,
            art: match &self.art {
                Some(a) => Some(a.copy()),
                None => None,
            },
        }
    }
}

/// A validated, ready-to-apply change for a single file.
pub struct Plan {
    pub track: Track,
    pub changes: Changes,
}

/// The message a plan with nothing to change is refused with.
pub open spec fn nothing_to_change_text(path: Seq<char>) -> Seq<char> {
    "nothing to change for "@ + path
}

/// Builds the plan for the file at `path`: refused when `changes` touches
/// nothing; otherwise the plan of `changes` against the snapshot that reading
/// the file gave, or the read's error.
pub fn build_plan(path: &str, changes: Changes, track: Result<Track, String>) -> (r: Result<
    Plan,
    String,
>)
    ensures
        no_changes(changes) ==> (r matches Err(e) && e@ == nothing_to_change_text(path@)),
        !no_changes(changes) ==> match track {
            Ok(t) => (r matches Ok(p) && p.track == t && p.changes == changes),
            Err(e) => (r matches Err(e2) && e2 == e),
        },
{
    if changes.is_empty() {
        let mut msg = String::from_str("nothing to change for ");
        push_str(&mut msg, path);
        return Err(msg);
    }
    match track {
        Ok(t) => Ok(Plan { track: t, changes }),
        Err(e) => Err(e),
    }
}

/// The plans a batch builds from `changes`, given each target's (path,
/// title) and what reading it gave: a plan for each target that could be
/// read (in target order), and the title and error of each other one.
pub open spec fn batch_of(
    changes: Changes,
    targets: Seq<(Seq<char>, Seq<char>)>,
    reads: Seq<Result<Track, String>>,
) -> (Seq<Track>, Seq<(Seq<char>, Seq<char>)>)
    decreases targets.len(),
{
    if targets.len() == 0 || reads.len() != targets.len() {
        (Seq::empty(), Seq::empty())
    } else {
        let (ps, fs) = batch_of(changes, targets.drop_last(), reads.drop_last());
        let (path, title) = targets.last();
        if no_changes(changes) {
            (ps, fs.push((title, nothing_to_change_text(path))))
        } else {
            match reads.last() {
                Ok(t) => (ps.push(t), fs),
                Err(e) => (ps, fs.push((title, e@))),
            }
        }
    }
}

/// The (title, error) pairs as plain text.
pub open spec fn failure_views(v: Seq<(String, String)>) -> Seq<(Seq<char>, Seq<char>)> {
    v.map_values(|p: (String, String)| (p.0@, p.1@))
}

/// Builds the plan of `changes` for each target (path, title), from what
/// reading each gave; the targets whose plan cannot be built are listed with
/// their error.
pub fn plan_batch(
    changes: &Changes,
    targets: &Vec<(String, String)>,
    reads: Vec<Result<Track, String>>,
) -> (r: (Vec<Plan>, Vec<(String, String)>))
    requires
        reads@.len() == targets@.len(),
    ensures
        r.0@.map_values(|p: Plan| p.track) == batch_of(
            *changes,
            targets@.map_values(|p: (String, String)| (p.0@, p.1@)),
            reads@,
        ).0,
        forall|i: int| 0 <= i < r.0@.len() ==> same_changes(#[trigger] r.0@[i].changes, *changes),
        failure_views(r.1@) == batch_of(
            *changes,
            targets@.map_values(|p: (String, String)| (p.0@, p.1@)),
            reads@,
        ).1,
{
    let ghost tv = targets@.map_values(|p: (String, String)| (p.0@, p.1@));
    let ghost all = reads@;
    let mut reads = reads;
    let mut plans: Vec<Plan> = Vec::new();
    let mut failures: Vec<(String, String)> = Vec::new();
    let mut i: usize = 0;
    while i < targets.len()
        invariant
            i <= targets@.len(),
            all.len() == targets@.len(),
            tv == targets@.map_values(|p: (String, String)| (p.0@, p.1@)),
            reads@ == all.skip(i as int),
            plans@.map_values(|p: Plan| p.track) == batch_of(
                *changes,
                tv.take(i as int),
                all.take(i as int),
            ).0,
            forall|j: int| 0 <= j < plans@.len() ==> same_changes(#[trigger] plans@[j].changes, *changes),
            failure_views(failures@) == batch_of(*changes, tv.take(i as int), all.take(i as int)).1,
        decreases targets@.len() - i,
    {
        let ghost ps0 = plans@;
        let ghost fs0 = failures@;
        let read = reads.remove(0);
        assert(read == all[i as int]);
        assert(reads@ =~= all.skip(i + 1));
        let ghost before = batch_of(*changes, tv.take(i as int), all.take(i as int));
        assert(tv.take(i + 1).drop_last() =~= tv.take(i as int));
        assert(all.take(i + 1).drop_last() =~= all.take(i as int));
        assert(tv.take(i + 1).last() == tv[i as int]);
        let path = &targets[i].0;
        let title = &targets[i].1;
        match build_plan(path.as_str(), changes.copy(), read) {
            Ok(p) => {
                plans.push(p);
                assert(plans@.map_values(|p: Plan| p.track) =~= ps0.map_values(|p: Plan| p.track).push(
                    plans@.last().track,
                ));
            },
            Err(e) => {
                failures.push((title.clone(), e));
                assert(failure_views(failures@) =~= failure_views(fs0).push(
                    (failures@.last().0@, failures@.last().1@),
                ));
            },
        }
        i += 1;
    }
    assert(tv.take(targets@.len() as int) =~= tv);
    assert(all.take(targets@.len() as int) =~= all);
    (plans, failures)
}

/// The preview line of a text field being changed: old and new values quoted,
/// the old one a dash when absent.
pub open spec fn field_line(name: Seq<char>, before: Option<Seq<char>>, after: Seq<char>) -> Seq<
    char,
> {
    let old = match before {
        Some(b) => b,
        None => DASH@,
    };
    "    "@ + name + ": "@ + debug_quoted(old) + " → "@ + debug_quoted(after)
}

/// The preview line of a number field being changed.
pub open spec fn number_line(name: Seq<char>, before: Option<u32>, after: u32) -> Seq<char> {
    match before {
        Some(b) => "    "@ + name + ": "@ + dec(b as nat) + " → "@ + dec(after as nat),
        None => "    "@ + name + ": — → "@ + dec(after as nat),
    }
}

/// `w×h`, or `?` when the dimensions are unknown.
pub open spec fn dims_text(d: Option<(u32, u32)>) -> Seq<char> {
    match d {
        Some((w, h)) => dec(w as nat) + "×"@ + dec(h as nat),
        None => "?"@,
    }
}

/// The preview line of a cover assignment: picture count before and after,
/// type and dimensions of the new cover.
pub open spec fn art_line(count: nat, art: Art) -> Seq<char> {
    let after: nat = if count >= 1 {
        count
    } else {
        1
    };
    "    art: "@ + dec(count) + " → "@ + dec(after) + " ("@ + mime_text(art.mime) + ", "@
        + dims_text(art.dimensions) + ")"@
}

/// The cover line of a preview counts pictures as replacing the front
/// cover does: a track that already has pictures keeps their number (the
/// new front cover replaces the old one), and a track with none goes to one.
/// The line always ends with the cover's type and dimensions.
pub proof fn law_cover_replaces(count: nat, art: Art)
    ensures
        count >= 1 ==> art_line(count, art) == "    art: "@ + dec(count) + " → "@ + dec(count)
            + " ("@ + mime_text(art.mime) + ", "@ + dims_text(art.dimensions) + ")"@,
        count == 0 ==> art_line(count, art) == "    art: 0 → 1 ("@ + mime_text(art.mime) + ", "@
            + dims_text(art.dimensions) + ")"@,
{
    if count == 0 {
        reveal_strlit("    art: ");
        reveal_strlit(" → ");
        reveal_strlit(" (");
        reveal_strlit("    art: 0 → 1 (");
        assert(dec(0) == seq!['0']);
        assert(dec(1) == seq!['1']);
        assert("    art: "@ + dec(0) + " → "@ + dec(1) + " ("@ =~= "    art: 0 → 1 ("@);
    }
}

pub open spec fn text_field(name: Seq<char>, before: Option<String>, after: Option<String>) -> Seq<
    Seq<char>,
> {
    match after {
        Some(a) => seq![field_line(name, opt_view(before), a@)],
        None => Seq::empty(),
    }
}

pub open spec fn number_field(name: Seq<char>, before: Option<u32>, after: Option<u32>) -> Seq<
    Seq<char>,
> {
    match after {
        Some(a) => seq![number_line(name, before, a)],
        None => Seq::empty(),
    }
}

/// The lines of a plan's preview: the track's name and format, then one line
/// per field the plan changes, in display order, then the cover line.
pub open spec fn plan_lines(p: Plan) -> Seq<Seq<char>> {
    let t = p.track;
    let c = p.changes;
    seq![title_text(t) + "  ["@ + t.format@ + "]"@] + text_field("title"@, t.title, c.title)
        + text_field("artist"@, t.artist, c.artist) + text_field("album"@, t.album, c.album)
        + text_field("album-artist"@, t.album_artist, c.album_artist) + text_field(
        "genre"@,
        t.genre,
        c.genre,
    ) + number_field("year"@, t.year, c.year) + number_field("track"@, t.track_no, c.track_no)
        + match c.art {
        Some(a) => seq![art_line(t.art_count as nat, a)],
        None => Seq::empty(),
    }
}

/// `a` and `b` free of line feeds make their concatenation free of them.
pub proof fn lemma_clean_concat(a: Seq<char>, b: Seq<char>)
    requires
        no_newline(a),
        no_newline(b),
    ensures
        no_newline(a + b),
{
    assert forall|i: int| 0 <= i < (a + b).len() implies (#[trigger] (a + b)[i]) != '\n' by {
        if i >= a.len() {
            assert((a + b)[i] == b[i - a.len()]);
        }
    }
}

/// Decimal text has no line feed.
pub proof fn lemma_dec_clean(n: nat)
    ensures
        no_newline(dec(n)),
    decreases n,
{
    if n >= 10 {
        lemma_dec_clean(n / 10);
        assert((n % 10 + 48) as u32 != 10u32);
        assert(dec(n) == dec(n / 10).push(crate::text::digit_char(n % 10)));
        lemma_clean_concat(dec(n / 10), seq![crate::text::digit_char(n % 10)]);
        assert(dec(n / 10).push(crate::text::digit_char(n % 10)) =~= dec(n / 10) + seq![
            crate::text::digit_char(n % 10),
        ]);
    } else {
        assert((n + 48) as u32 != 10u32);
    }
}

/// Every line after the first is free of line feeds.
pub open spec fn clean_after_first(s: Seq<Seq<char>>) -> bool {
    forall|i: int| 1 <= i < s.len() ==> no_newline(#[trigger] s[i])
}

/// The preview line of a text field whose old and new values are written
/// as they are, in quotes.
pub open spec fn quoted_line(name: Seq<char>, before: Seq<char>, after: Seq<char>) -> Seq<char> {
    "    "@ + name + ": \""@ + before + "\" → \""@ + after + "\""@
}

/// A text field's change whose values `{:?}` writes as they are: no
/// change, or a change from a present value, both plain ASCII.
pub open spec fn plain_change(before: Option<String>, after: Option<String>) -> bool {
    match after {
        None => true,
        Some(a) => before matches Some(b) && all_plain(b@) && all_plain(a@),
    }
}

/// The preview lines of a plain text field's change.
pub open spec fn quoted_field(name: Seq<char>, before: Option<String>, after: Option<String>) -> Seq<
    Seq<char>,
> {
    match (before, after) {
        (Some(b), Some(a)) => seq![quoted_line(name, b@, a@)],
        _ => Seq::empty(),
    }
}

/// Every text field of the plan changes plainly.
pub open spec fn plain_values(p: Plan) -> bool {
    let t = p.track;
    let c = p.changes;
    &&& plain_change(t.title, c.title)
    &&& plain_change(t.artist, c.artist)
    &&& plain_change(t.album, c.album)
    &&& plain_change(t.album_artist, c.album_artist)
    &&& plain_change(t.genre, c.genre)
}

/// The preview lines of a plan whose text values are plain: each changed
/// text field as `name: "old" → "new"`.
pub open spec fn plain_plan_lines(p: Plan) -> Seq<Seq<char>> {
    let t = p.track;
    let c = p.changes;
    seq![title_text(t) + "  ["@ + t.format@ + "]"@] + quoted_field("title"@, t.title, c.title)
        + quoted_field("artist"@, t.artist, c.artist) + quoted_field("album"@, t.album, c.album)
        + quoted_field("album-artist"@, t.album_artist, c.album_artist) + quoted_field(
        "genre"@,
        t.genre,
        c.genre,
    ) + number_field("year"@, t.year, c.year) + number_field("track"@, t.track_no, c.track_no)
        + match c.art {
        Some(a) => seq![art_line(t.art_count as nat, a)],
        None => Seq::empty(),
    }
}

/// The cover's type text, if a cover is assigned, is free of line feeds.
pub open spec fn cover_text_clean(p: Plan) -> bool {
    match p.changes.art {
        Some(a) => no_newline(mime_text(a.mime)),
        None => true,
    }
}

/// Appending at most one clean line keeps every line after the first clean.
proof fn lemma_append_clean(old: Seq<Seq<char>>, new: Seq<Seq<char>>, extra: Seq<Seq<char>>)
    requires
        old.len() >= 1,
        clean_after_first(old),
        new == old + extra,
        extra.len() <= 1,
        extra.len() == 1 ==> no_newline(new.last()),
    ensures
        clean_after_first(new),
{
    assert forall|i: int| 1 <= i < new.len() implies no_newline(#[trigger] new[i]) by {
        if i < old.len() {
            assert(new[i] == old[i]);
        }
    }
}

/// Appends the preview line of a text field being changed.
pub fn field(lines: &mut Vec<String>, name: &str, before: &Option<String>, after: &Option<String>)
    ensures
        views(final(lines)@) == views(old(lines)@) + text_field(name@, *before, *after),
        after is Some && no_newline(name@) ==> no_newline(final(lines)@.last()@),
        (after matches Some(a) && before matches Some(b) && all_plain(a@) && all_plain(b@))
            ==> final(lines)@.last()@ == "    "@ + name@ + ": \""@ + before->0@ + "\" → \""@
            + after->0@ + "\""@,
{
    if let Some(new) = after {
        let old_v: &str = match before {
            Some(b) => b.as_str(),
            None => DASH,
        };
        let mut line = String::from_str("    ");
        push_str(&mut line, name);
        push_str(&mut line, ": ");
        let q_old = debug_str(old_v);
        push_str(&mut line, q_old.as_str());
        push_str(&mut line, " → ");
        let q_new = debug_str(new.as_str());
        push_str(&mut line, q_new.as_str());
        proof {
            reveal_strlit("    ");
            reveal_strlit(": ");
            reveal_strlit(" → ");
            reveal_strlit(": \"");
            reveal_strlit("\" → \"");
            reveal_strlit("\"");
            if no_newline(name@) {
                assert forall|i: int| 0 <= i < line@.len() implies (#[trigger] line@[i]) != '\n' by {
                    let k0: int = 4;
                    let k1: int = k0 + name@.len();
                    let k2: int = k1 + 2;
                    let k3: int = k2 + q_old@.len();
                    let k4: int = k3 + 3;
                    if i < k0 {
                    } else if i < k1 {
                        assert(line@[i] == name@[i - k0]);
                    } else if i < k2 {
                    } else if i < k3 {
                        assert(line@[i] == q_old@[i - k2]);
                    } else if i < k4 {
                    } else {
                        assert(line@[i] == q_new@[i - k4]);
                    }
                }
            }
            if before is Some && all_plain(new@) && all_plain(old_v@) {
                assert(line@ =~= "    "@ + name@ + ": \""@ + old_v@ + "\" → \""@ + new@ + "\""@);
            }
        }
        lines.push(line);
        assert(views(lines@) =~= views(old(lines)@).push(line@));
    } else {
        assert(views(lines@) =~= views(old(lines)@));
    }
}

/// Appends the preview line of a number field being changed.
pub fn field_u32(lines: &mut Vec<String>, name: &str, before: Option<u32>, after: Option<u32>)
    ensures
        views(final(lines)@) == views(old(lines)@) + number_field(name@, before, after),
        after is Some && no_newline(name@) ==> no_newline(final(lines)@.last()@),
{
    if let Some(new) = after {
        let mut line = String::from_str("    ");
        push_str(&mut line, name);
        match before {
            Some(b) => {
                push_str(&mut line, ": ");
                push_dec(&mut line, b as u64);
                push_str(&mut line, " → ");
            },
            None => {
                push_str(&mut line, ": — → ");
            },
        }
        push_dec(&mut line, new as u64);
        proof {
            if no_newline(name@) {
                reveal_strlit("    ");
                reveal_strlit(": ");
                reveal_strlit(" → ");
                reveal_strlit(": — → ");
                lemma_dec_clean(new as nat);
                lemma_clean_concat("    "@, name@);
                match before {
                    Some(b) => {
                        lemma_dec_clean(b as nat);
                        lemma_clean_concat("    "@ + name@, ": "@);
                        lemma_clean_concat("    "@ + name@ + ": "@, dec(b as nat));
                        lemma_clean_concat("    "@ + name@ + ": "@ + dec(b as nat), " → "@);
                        lemma_clean_concat(
                            "    "@ + name@ + ": "@ + dec(b as nat) + " → "@,
                            dec(new as nat),
                        );
                        assert(line@ =~= "    "@ + name@ + ": "@ + dec(b as nat) + " → "@ + dec(
                            new as nat,
                        ));
                    },
                    None => {
                        lemma_clean_concat("    "@ + name@, ": — → "@);
                        lemma_clean_concat("    "@ + name@ + ": — → "@, dec(new as nat));
                        assert(line@ =~= "    "@ + name@ + ": — → "@ + dec(new as nat));
                    },
                }
            }
        }
        lines.push(line);
        assert(views(lines@) =~= views(old(lines)@).push(line@));
    } else {
        assert(views(lines@) =~= views(old(lines)@));
    }
}

/// The preview line of a cover is free of line feeds when the cover's type
/// text is.
proof fn lemma_art_line_clean(count: nat, art: Art)
    requires
        no_newline(mime_text(art.mime)),
    ensures
        no_newline(art_line(count, art)),
{
    let after: nat = if count >= 1 {
        count
    } else {
        1
    };
    reveal_strlit("    art: ");
    reveal_strlit(" → ");
    reveal_strlit(" (");
    reveal_strlit(", ");
    reveal_strlit(")");
    reveal_strlit("×");
    reveal_strlit("?");
    lemma_dec_clean(count);
    lemma_dec_clean(after);
    let d = dims_text(art.dimensions);
    match art.dimensions {
        Some((w, h)) => {
            lemma_dec_clean(w as nat);
            lemma_dec_clean(h as nat);
            lemma_clean_concat(dec(w as nat), "×"@);
            lemma_clean_concat(dec(w as nat) + "×"@, dec(h as nat));
        },
        None => {},
    }
    let p1 = "    art: "@ + dec(count);
    lemma_clean_concat("    art: "@, dec(count));
    lemma_clean_concat(p1, " → "@);
    lemma_clean_concat(p1 + " → "@, dec(after));
    lemma_clean_concat(p1 + " → "@ + dec(after), " ("@);
    lemma_clean_concat(p1 + " → "@ + dec(after) + " ("@, mime_text(art.mime));
    lemma_clean_concat(p1 + " → "@ + dec(after) + " ("@ + mime_text(art.mime), ", "@);
    lemma_clean_concat(p1 + " → "@ + dec(after) + " ("@ + mime_text(art.mime) + ", "@, d);
    lemma_clean_concat(p1 + " → "@ + dec(after) + " ("@ + mime_text(art.mime) + ", "@ + d, ")"@);
}

impl Plan {
    /// The preview lines of this plan.
    #[verifier::rlimit(100)]
    #[verifier::spinoff_prover]
    pub fn render_lines(&self) -> (r: Vec<String>)
        ensures
            views(r@) == plan_lines(*self),
            plain_values(*self) ==> plan_lines(*self) == plain_plan_lines(*self),
            cover_text_clean(*self) ==> clean_after_first(plan_lines(*self)),
    {
        let mut first = String::from_str(self.track.display_title());
        push_str(&mut first, "  [");
        push_str(&mut first, self.track.format.as_str());
        push_str(&mut first, "]");
        let ghost head = first@;
        assert(head == title_text(self.track) + "  ["@ + self.track.format@ + "]"@);
        let mut lines: Vec<String> = Vec::new();
        lines.push(first);
        assert(views(lines@) =~= seq![head]);
        let t = &self.track;
        let c = &self.changes;
        let ghost v0 = views(lines@);
        field(&mut lines, "title", &t.title, &c.title);
        proof {
            reveal_strlit("title");
            let ex = text_field("title"@, t.title, c.title);
            if c.title is Some {
                assert(views(lines@).last() == lines@.last()@);
            }
            lemma_append_clean(v0, views(lines@), ex);
            if plain_change(t.title, c.title) && c.title is Some {
                assert(ex =~= quoted_field("title"@, t.title, c.title));
            }
        }
        let ghost v0 = views(lines@);
        field(&mut lines, "artist", &t.artist, &c.artist);
        proof {
            reveal_strlit("artist");
            let ex = text_field("artist"@, t.artist, c.artist);
            if c.artist is Some {
                assert(views(lines@).last() == lines@.last()@);
            }
            lemma_append_clean(v0, views(lines@), ex);
            if plain_change(t.artist, c.artist) && c.artist is Some {
                assert(ex =~= quoted_field("artist"@, t.artist, c.artist));
            }
        }
        let ghost v0 = views(lines@);
        field(&mut lines, "album", &t.album, &c.album);
        proof {
            reveal_strlit("album");
            let ex = text_field("album"@, t.album, c.album);
            if c.album is Some {
                assert(views(lines@).last() == lines@.last()@);
            }
            lemma_append_clean(v0, views(lines@), ex);
            if plain_change(t.album, c.album) && c.album is Some {
                assert(ex =~= quoted_field("album"@, t.album, c.album));
            }
        }
        let ghost v0 = views(lines@);
        field(&mut lines, "album-artist", &t.album_artist, &c.album_artist);
        proof {
            reveal_strlit("album-artist");
            let ex = text_field("album-artist"@, t.album_artist, c.album_artist);
            if c.album_artist is Some {
                assert(views(lines@).last() == lines@.last()@);
            }
            lemma_append_clean(v0, views(lines@), ex);
            if plain_change(t.album_artist, c.album_artist) && c.album_artist is Some {
                assert(ex =~= quoted_field("album-artist"@, t.album_artist, c.album_artist));
            }
        }
        let ghost v0 = views(lines@);
        field(&mut lines, "genre", &t.genre, &c.genre);
        proof {
            reveal_strlit("genre");
            let ex = text_field("genre"@, t.genre, c.genre);
            if c.genre is Some {
                assert(views(lines@).last() == lines@.last()@);
            }
            lemma_append_clean(v0, views(lines@), ex);
            if plain_change(t.genre, c.genre) && c.genre is Some {
                assert(ex =~= quoted_field("genre"@, t.genre, c.genre));
            }
        }
        let ghost v0 = views(lines@);
        field_u32(&mut lines, "year", t.year, c.year);
        proof {
            reveal_strlit("year");
            if c.year is Some {
                assert(views(lines@).last() == lines@.last()@);
            }
            lemma_append_clean(v0, views(lines@), number_field("year"@, t.year, c.year));
        }
        let ghost v0 = views(lines@);
        field_u32(&mut lines, "track", t.track_no, c.track_no);
        proof {
            reveal_strlit("track");
            if c.track_no is Some {
                assert(views(lines@).last() == lines@.last()@);
            }
            lemma_append_clean(v0, views(lines@), number_field("track"@, t.track_no, c.track_no));
        }
        let ghost before = views(lines@);
        if let Some(art) = &c.art {
            let mut line = String::from_str("    art: ");
            push_dec(&mut line, t.art_count as u64);
            push_str(&mut line, " → ");
            let after = if t.art_count >= 1 {
                t.art_count
            } else {
                1
            };
            push_dec(&mut line, after as u64);
            push_str(&mut line, " (");
            push_str(&mut line, art.mime_str());
            push_str(&mut line, ", ");
            match art.dimensions {
                Some((w, h)) => {
                    push_dec(&mut line, w as u64);
                    push_str(&mut line, "×");
                    push_dec(&mut line, h as u64);
                },
                None => push_str(&mut line, "?"),
            }
            push_str(&mut line, ")");
            assert(line@ =~= art_line(t.art_count as nat, *art));
            proof {
                if cover_text_clean(*self) {
                    lemma_art_line_clean(t.art_count as nat, *art);
                }
            }
            lines.push(line);
            assert(views(lines@) =~= before.push(line@));
            proof {
                if cover_text_clean(*self) {
                    assert(views(lines@) =~= before + seq![line@]);
                    lemma_append_clean(before, views(lines@), seq![line@]);
                }
            }
        }
        assert(views(lines@) =~= plan_lines(*self));
        assert(plain_values(*self) ==> plan_lines(*self) =~= plain_plan_lines(*self));
        lines
    }

    /// One-line-per-field human preview, e.g. for a dry run.
    pub fn render(&self) -> (r: String)
        ensures
            r@ == join_seq(plan_lines(*self), "\n"@),
            plain_values(*self) ==> plan_lines(*self) == plain_plan_lines(*self),
            cover_text_clean(*self) ==> clean_after_first(plan_lines(*self)),
    {
        let lines = self.render_lines();
        join_strings(&lines, "\n")
    }
}

/// One write into a file's primary tag.
pub enum TagWrite {
    Title(String),
    Artist(String),
    Album(String),
    /// Text of the `AlbumArtist` item.
    AlbumArtist(String),
    Genre(String),
    /// Text of the `Year` item.
    Year(String),
    /// Text of the `RecordingDate` item.
    RecordingDate(String),
    Track(u32),
    /// Remove every front cover, then add this one.
    FrontCover(Art),
}

/// The writes that apply a change set, in order. The year is written both as
/// `Year` and as `RecordingDate` so that it reads back whichever one the
/// format keeps.
pub open spec fn writes_match(w: Seq<TagWrite>, c: Changes) -> bool {
    let texts = |s: Option<String>| -> int {
        if s is Some {
            1int
        } else {
            0int
        }
    };
    let n1 = texts(c.title);
    let n2 = n1 + texts(c.artist);
    let n3 = n2 + texts(c.album);
    let n4 = n3 + texts(c.album_artist);
    let n5 = n4 + texts(c.genre);
    let n6 = n5 + if c.year is Some {
        2int
    } else {
        0int
    };
    let n7 = n6 + if c.track_no is Some {
        1int
    } else {
        0int
    };
    let n8 = n7 + if c.art is Some {
        1int
    } else {
        0int
    };
    &&& w.len() == n8
    &&& c.title matches Some(v) ==> (match w[0] {
        TagWrite::Title(x) => x == v,
        _ => false,
    })
    &&& c.artist matches Some(v) ==> (match w[n1] {
        TagWrite::Artist(x) => x == v,
        _ => false,
    })
    &&& c.album matches Some(v) ==> (match w[n2] {
        TagWrite::Album(x) => x == v,
        _ => false,
    })
    &&& c.album_artist matches Some(v) ==> (match w[n3] {
        TagWrite::AlbumArtist(x) => x == v,
        _ => false,
    })
    &&& c.genre matches Some(v) ==> (match w[n4] {
        TagWrite::Genre(x) => x == v,
        _ => false,
    })
    &&& c.year matches Some(y) ==> (match w[n5] {
        TagWrite::Year(x) => x@ == dec(y as nat),
        _ => false,
    }) && (match w[n5 + 1] {
        TagWrite::RecordingDate(x) => x@ == dec(y as nat),
        _ => false,
    })
    &&& c.track_no matches Some(n) ==> (match w[n6] {
        TagWrite::Track(x) => x == n,
        _ => false,
    })
    &&& c.art matches Some(a) ==> (match w[n7] {
        TagWrite::FrontCover(x) => same_art(x, a),
        _ => false,
    })
}

/// A year written by a change set reads back: `tag_writes` writes it in
/// decimal as both `Year` and `RecordingDate`, and a tag carrying either
/// gives the same year again, for every four-digit year.
pub proof fn law_year_reads_back(c: Changes, w: Seq<TagWrite>, y: u32)
    requires
        writes_match(w, c),
        c.year == Some(y),
        1000 <= y <= 9999,
    ensures
        exists|k: int|
            0 <= k && k + 1 < w.len() && (#[trigger] w[k] matches TagWrite::Year(t) && (
            w[k + 1] matches TagWrite::RecordingDate(d) && t@ == d@ && tag_year(Some(t@), None)
                == Some(y) && tag_year(None, Some(d@)) == Some(y) && tag_year(
                Some(t@),
                Some(d@),
            ) == Some(y))),
{
    let texts = |s: Option<String>| -> int {
        if s is Some {
            1int
        } else {
            0int
        }
    };
    let k = texts(c.title) + texts(c.artist) + texts(c.album) + texts(c.album_artist) + texts(
        c.genre,
    );
    lemma_year_text(y);
    assert(w[k] matches TagWrite::Year(t) && t@ == dec(y as nat));
}

/// The decimal text of a four-digit year is read back as that year.
pub proof fn lemma_year_text(y: u32)
    requires
        1000 <= y <= 9999,
    ensures
        year_of(dec(y as nat)) == Some(y),
{
    let n = y as nat;
    reveal_with_fuel(dec, 4);
    assert(dec(n) == seq![
        crate::text::digit_char(n / 1000),
        crate::text::digit_char((n / 100) % 10),
        crate::text::digit_char((n / 10) % 10),
        crate::text::digit_char(n % 10),
    ]);
}

/// A change set that only assigns a cover writes only the cover: it is a
/// merge, so a batch cover assignment never clobbers titles or other tags.
pub proof fn law_cover_only_writes_cover(c: Changes, w: Seq<TagWrite>, a: Art)
    requires
        c.title is None && c.artist is None && c.album is None && c.album_artist is None
            && c.genre is None && c.year is None && c.track_no is None,
        c.art == Some(a),
        writes_match(w, c),
    ensures
        w.len() == 1,
        w[0] matches TagWrite::FrontCover(x) && same_art(x, a),
{
}

/// The field of a change set a tag write carries, with its value.
pub open spec fn write_carries(w: TagWrite, c: Changes) -> bool {
    match w {
        TagWrite::Title(x) => c.title == Some(x),
        TagWrite::Artist(x) => c.artist == Some(x),
        TagWrite::Album(x) => c.album == Some(x),
        TagWrite::AlbumArtist(x) => c.album_artist == Some(x),
        TagWrite::Genre(x) => c.genre == Some(x),
        TagWrite::Year(x) => c.year matches Some(y) && x@ == dec(y as nat),
        TagWrite::RecordingDate(x) => c.year matches Some(y) && x@ == dec(y as nat),
        TagWrite::Track(n) => c.track_no == Some(n),
        TagWrite::FrontCover(a) => c.art matches Some(b) && same_art(a, b),
    }
}

/// Every write that applies a change set goes to the item of the field it
/// comes from, with that field's value: the artist item is written only
/// when the artist changes, the album-artist item only when the album
/// artist does, and so on. Each field that changes is written.
pub proof fn law_writes_go_to_their_items(c: Changes, w: Seq<TagWrite>)
    requires
        writes_match(w, c),
    ensures
        forall|i: int| 0 <= i < w.len() ==> write_carries(#[trigger] w[i], c),
        c.title is Some ==> exists|i: int| 0 <= i < w.len() && #[trigger] w[i] is Title,
        c.artist is Some ==> exists|i: int| 0 <= i < w.len() && #[trigger] w[i] is Artist,
        c.album is Some ==> exists|i: int| 0 <= i < w.len() && #[trigger] w[i] is Album,
        c.album_artist is Some ==> exists|i: int| 0 <= i < w.len() && #[trigger] w[i] is AlbumArtist,
        c.genre is Some ==> exists|i: int| 0 <= i < w.len() && #[trigger] w[i] is Genre,
        c.year is Some ==> exists|i: int| 0 <= i < w.len() && #[trigger] w[i] is Year,
        c.track_no is Some ==> exists|i: int| 0 <= i < w.len() && #[trigger] w[i] is Track,
        c.art is Some ==> exists|i: int| 0 <= i < w.len() && #[trigger] w[i] is FrontCover,
{
    let texts = |s: Option<String>| -> int {
        if s is Some {
            1int
        } else {
            0int
        }
    };
    let n1 = texts(c.title);
    let n2 = n1 + texts(c.artist);
    let n3 = n2 + texts(c.album);
    let n4 = n3 + texts(c.album_artist);
    let n5 = n4 + texts(c.genre);
    let n6 = n5 + if c.year is Some {
        2int
    } else {
        0int
    };
    let n7 = n6 + if c.track_no is Some {
        1int
    } else {
        0int
    };
    assert forall|i: int| 0 <= i < w.len() implies write_carries(#[trigger] w[i], c) by {
        if i < n1 {
            assert(i == 0 && c.title is Some);
        } else if i < n2 {
            assert(i == n1 && c.artist is Some);
        } else if i < n3 {
            assert(i == n2 && c.album is Some);
        } else if i < n4 {
            assert(i == n3 && c.album_artist is Some);
        } else if i < n5 {
            assert(i == n4 && c.genre is Some);
        } else if i < n6 {
            assert(c.year is Some && (i == n5 || i == n5 + 1));
        } else if i < n7 {
            assert(i == n6 && c.track_no is Some);
        } else {
            assert(i == n7 && c.art is Some);
        }
    }
    if c.title is Some {
        assert(w[0] is Title);
    }
    if c.artist is Some {
        assert(w[n1] is Artist);
    }
    if c.album is Some {
        assert(w[n2] is Album);
    }
    if c.album_artist is Some {
        assert(w[n3] is AlbumArtist);
    }
    if c.genre is Some {
        assert(w[n4] is Genre);
    }
    if c.year is Some {
        assert(w[n5] is Year);
    }
    if c.track_no is Some {
        assert(w[n6] is Track);
    }
    if c.art is Some {
        assert(w[n7] is FrontCover);
    }
}

/// The tag writes that apply `c`.
pub fn tag_writes(c: &Changes) -> (r: Vec<TagWrite>)
    ensures
        writes_match(r@, *c),
{
    let mut w: Vec<TagWrite> = Vec::new();
    if let Some(v) = &c.title {
        w.push(TagWrite::Title(v.clone()));
    }
    let ghost n1 = w@.len();
    if let Some(v) = &c.artist {
        w.push(TagWrite::Artist(v.clone()));
    }
    let ghost n2 = w@.len();
    if let Some(v) = &c.album {
        w.push(TagWrite::Album(v.clone()));
    }
    let ghost n3 = w@.len();
    if let Some(v) = &c.album_artist {
        w.push(TagWrite::AlbumArtist(v.clone()));
    }
    let ghost n4 = w@.len();
    if let Some(v) = &c.genre {
        w.push(TagWrite::Genre(v.clone()));
    }
    let ghost n5 = w@.len();
    if let Some(y) = c.year {
        let mut a = String::new();
        push_dec(&mut a, y as u64);
        let mut b = String::new();
        push_dec(&mut b, y as u64);
        w.push(TagWrite::Year(a));
        w.push(TagWrite::RecordingDate(b));
    }
    let ghost n6 = w@.len();
    if let Some(n) = c.track_no {
        w.push(TagWrite::Track(n));
    }
    let ghost n7 = w@.len();
    if let Some(a) = &c.art {
        w.push(TagWrite::FrontCover(a.copy()));
    }
    w
}

/// The hash `std`'s default hasher (as `DefaultHasher::new` builds it, with
/// fixed keys) gives the path `p`.
pub uninterp spec fn path_hash(p: Seq<char>) -> u64;

/// Hashes `Path::new(p)` with a `DefaultHasher::new()` and returns `finish`;
/// the value is the named hash of the path, which this contract does not
/// spell out.
#[verifier::external_body]
fn hash_path(p: &str) -> (h: u64)
    ensures
        h == path_hash(p@),
{
    let mut hasher = std::collections::hash_map::DefaultHasher::new();
    std::path::Path::new(p).hash(&mut hasher);
    hasher.finish()
}

/// The name of the backup of `path`: eight hex digits of the hash of its
/// absolute form (its low 32 bits, so different paths can share them), its
/// file name (`track` when it has none), `.bak`.
pub open spec fn backup_name(abs: Seq<char>, path: Seq<char>) -> Seq<char> {
    let name = match file_name_of(path) {
        Some(n) => n,
        None => "track"@,
    };
    hex_fixed((path_hash(abs) % 0x1_0000_0000) as nat, 8) + seq!['.'] + name + ".bak"@
}

pub proof fn lemma_hex_fixed_len(n: nat, w: nat)
    ensures
        hex_fixed(n, w).len() == w,
    decreases w,
{
    if w > 0 {
        lemma_hex_fixed_len(n / 16, (w - 1) as nat);
    }
}

/// Backups of files with different names never share a name: the file name
/// is part of the backup's name, after the eight-digit hash. (Files of the
/// same name in different folders are told apart only by the low 32 bits
/// of the hash of their absolute paths, which can agree.)
pub proof fn law_backup_names_keep_file_names(a1: Seq<char>, p1: Seq<char>, a2: Seq<char>, p2: Seq<char>)
    requires
        backup_name(a1, p1) == backup_name(a2, p2),
    ensures
        file_name_of(p1) is Some && file_name_of(p2) is Some ==> file_name_of(p1) == file_name_of(
            p2,
        ),
        hex_fixed((path_hash(a1) % 0x1_0000_0000) as nat, 8) == hex_fixed(
            (path_hash(a2) % 0x1_0000_0000) as nat,
            8,
        ),
{
    let h1 = hex_fixed((path_hash(a1) % 0x1_0000_0000) as nat, 8);
    let h2 = hex_fixed((path_hash(a2) % 0x1_0000_0000) as nat, 8);
    lemma_hex_fixed_len((path_hash(a1) % 0x1_0000_0000) as nat, 8);
    lemma_hex_fixed_len((path_hash(a2) % 0x1_0000_0000) as nat, 8);
    let b1 = backup_name(a1, p1);
    let b2 = backup_name(a2, p2);
    assert(h1 =~= b1.subrange(0, 8));
    assert(h2 =~= b2.subrange(0, 8));
    reveal_strlit(".bak");
    if file_name_of(p1) is Some && file_name_of(p2) is Some {
        let n1 = file_name_of(p1)->0;
        let n2 = file_name_of(p2)->0;
        assert(b1 == h1 + seq!['.'] + n1 + ".bak"@);
        assert(b2 == h2 + seq!['.'] + n2 + ".bak"@);
        assert(n1 =~= b1.subrange(9, b1.len() - 4));
        assert(n2 =~= b2.subrange(9, b2.len() - 4));
    }
}

/// `16^w`.
pub open spec fn pow16(w: nat) -> nat
    decreases w,
{
    if w == 0 {
        1
    } else {
        16 * pow16((w - 1) as nat)
    }
}

/// Distinct numbers below `16^w` have distinct `w`-digit hex texts.
pub proof fn lemma_hex_fixed_injective(n1: nat, n2: nat, w: nat)
    requires
        n1 < pow16(w),
        n2 < pow16(w),
        hex_fixed(n1, w) == hex_fixed(n2, w),
    ensures
        n1 == n2,
    decreases w,
{
    if w > 0 {
        let a = hex_fixed(n1, w);
        let b = hex_fixed(n2, w);
        assert(a.last() == crate::text::hex_char(n1 % 16));
        assert(b.last() == crate::text::hex_char(n2 % 16));
        assert(n1 % 16 == n2 % 16);
        assert(a.drop_last() == hex_fixed(n1 / 16, (w - 1) as nat));
        assert(b.drop_last() == hex_fixed(n2 / 16, (w - 1) as nat));
        assert(n1 / 16 < pow16((w - 1) as nat));
        assert(n2 / 16 < pow16((w - 1) as nat));
        lemma_hex_fixed_injective(n1 / 16, n2 / 16, (w - 1) as nat);
    }
}

/// Backups of two files get different names when their file names differ,
/// or when the hashes of their absolute paths differ in the low 32 bits the
/// name keeps. (Paths whose hashes agree in those bits, with the same file
/// name, do get the same backup name: the hash is cut to eight hex digits.)
pub proof fn law_backup_names_differ(a1: Seq<char>, p1: Seq<char>, a2: Seq<char>, p2: Seq<char>)
    requires
        path_hash(a1) % 0x1_0000_0000 != path_hash(a2) % 0x1_0000_0000 || (file_name_of(p1) is Some
            && file_name_of(p2) is Some && file_name_of(p1) != file_name_of(p2)),
    ensures
        backup_name(a1, p1) != backup_name(a2, p2),
{
    if backup_name(a1, p1) == backup_name(a2, p2) {
        law_backup_names_keep_file_names(a1, p1, a2, p2);
        reveal_with_fuel(pow16, 9);
        assert(pow16(8) == 0x1_0000_0000);
        lemma_hex_fixed_injective(
            (path_hash(a1) % 0x1_0000_0000) as nat,
            (path_hash(a2) % 0x1_0000_0000) as nat,
            8,
        );
    }
}

/// Where the backup of the file at `path` goes inside the backup directory
/// `dir`, given the file's absolute path `abs` (the path itself when it
/// cannot be resolved). Files of the same name in different folders are
/// told apart by the hash of their absolute paths; as only the low 32 bits
/// of that hash are kept, two such files whose hashes agree in those bits
/// get the same backup name (`law_backup_names_differ` states when they
/// differ).
pub fn backup_target(dir: &str, abs: &str, path: &str) -> (r: String)
    ensures
        r@ == join_of(dir@, backup_name(abs@, path@)),
{
    let h = hash_path(abs);
    let mut name = String::new();
    push_hex_fixed(&mut name, h % 0x1_0000_0000, 8);
    push_char(&mut name, '.');
    match file_name(path) {
        Some(n) => push_str(&mut name, n.as_str()),
        None => push_str(&mut name, "track"),
    }
    push_str(&mut name, ".bak");
    join(dir, name.as_str())
}

/// The platform a program runs on, as far as where it keeps data goes.
#[derive(Clone, Copy, Debug, PartialEq, Eq, Structural)]
pub enum Platform {
    Windows,
    MacOs,
    /// Linux and the other Unix systems.
    Unix,
}

/// The environment variables the data directory is found from (each absent
/// when unset or not Unicode).
pub struct DataEnv {
    pub xdg_data_home: Option<String>,
    pub home: Option<String>,
    pub local_app_data: Option<String>,
}

/// The platform data directory, or why there is none: `%LOCALAPPDATA%` on
/// Windows, `$HOME/Library/Application Support` on macOS, and elsewhere
/// `$XDG_DATA_HOME` when set and non-empty, else `$HOME/.local/share`.
pub open spec fn data_base(p: Platform, env: DataEnv) -> Result<Seq<char>, Seq<char>> {
    match p {
        Platform::Windows => match env.local_app_data {
            Some(x) => Ok(x@),
            None => Err("LOCALAPPDATA not set"@),
        },
        Platform::MacOs => match env.home {
            Some(h) => Ok(join_of(h@, "Library/Application Support"@)),
            None => Err("HOME not set"@),
        },
        Platform::Unix => match env.xdg_data_home {
            Some(x) if x@.len() > 0 => Ok(x@),
            _ => match env.home {
                Some(h) => Ok(join_of(h@, ".local/share"@)),
                None => Err("HOME not set"@),
            },
        },
    }
}

/// The platform data directory.
pub fn data_base_dir(p: Platform, env: &DataEnv) -> (r: Result<String, String>)
    ensures
        match data_base(p, *env) {
            Ok(b) => (r matches Ok(s) && s@ == b),
            Err(m) => (r matches Err(e) && e@ == m),
        },
{
    match p {
        Platform::Windows => match &env.local_app_data {
            Some(x) => Ok(x.clone()),
            None => Err(String::from_str("LOCALAPPDATA not set")),
        },
        Platform::MacOs => match &env.home {
            Some(h) => Ok(join(h.as_str(), "Library/Application Support")),
            None => Err(String::from_str("HOME not set")),
        },
        Platform::Unix => {
            if let Some(x) = &env.xdg_data_home {
                if !x.as_str().is_empty() {
                    return Ok(x.clone());
                }
            }
            match &env.home {
                Some(h) => Ok(join(h.as_str(), ".local/share")),
                None => Err(String::from_str("HOME not set")),
            }
        },
    }
}

/// A Windows path starting with the verbatim prefix `\\?\`.
pub open spec fn verbatim(b: Seq<char>) -> bool {
    b.len() >= 4 && b[0] == '\\' && b[1] == '\\' && b[2] == '?' && b[3] == '\\'
}

/// `PathBuf::join` on Windows of a base that is not verbatim and a relative
/// name without prefix or root: a backslash between them, unless the base
/// is empty, ends in a separator, or is a bare drive such as `C:`.
pub open spec fn join_windows(b: Seq<char>, x: Seq<char>) -> Seq<char> {
    if b.len() == 0 || b.last() == '\\' || b.last() == '/' || (b.len() == 2 && b[1] == ':'
        && (('a' <= b[0] && b[0] <= 'z') || ('A' <= b[0] && b[0] <= 'Z'))) {
        b + x
    } else {
        b + seq!['\\'] + x
    }
}

fn join_win(b: &str, x: &str) -> (r: String)
    ensures
        r@ == join_windows(b@, x@),
{
    let v = crate::text::chars_of(b);
    let n = v.len();
    let mut r = String::from_str(b);
    let bare_drive = n == 2 && v[1] == ':' && (('a' <= v[0] && v[0] <= 'z') || ('A' <= v[0]
        && v[0] <= 'Z'));
    if !(n == 0 || v[n - 1] == '\\' || v[n - 1] == '/' || bare_drive) {
        push_char(&mut r, '\\');
    }
    push_str(&mut r, x);
    r
}

/// The backup directory within a data directory: `press-party/backups`.
pub open spec fn backups_under(p: Platform, b: Seq<char>) -> Seq<char> {
    match p {
        Platform::Windows => join_windows(join_windows(b, "press-party"@), "backups"@),
        _ => join_of(join_of(b, "press-party"@), "backups"@),
    }
}

/// The directory backups go to: `press-party/backups` under the platform
/// data directory. On Windows a verbatim (`\\?\`) data directory is joined
/// the same plain way; `std` would rebuild such a path from its components,
/// which this contract leaves unsaid.
pub fn backup_dir(p: Platform, env: &DataEnv) -> (r: Result<String, String>)
    ensures
        match data_base(p, *env) {
            Ok(b) => (r matches Ok(s) && ((p == Platform::Windows && verbatim(b)) || s@
                == backups_under(p, b))),
            Err(m) => (r matches Err(e) && e@ == m),
        },
        r is Ok <==> data_base(p, *env) is Ok,
{
    let base = data_base_dir(p, env)?;
    match p {
        Platform::Windows => {
            let app = join_win(base.as_str(), "press-party");
            Ok(join_win(app.as_str(), "backups"))
        },
        _ => {
            let app = join(base.as_str(), "press-party");
            Ok(join(app.as_str(), "backups"))
        },
    }
}

} // verus!
