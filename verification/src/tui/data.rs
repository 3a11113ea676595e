//! Row models for the two TUI columns, tracks (taggable audio) on one side
//! and images (candidate cover art) on the other, and the search filter that
//! decides which rows a column shows.
use vstd::prelude::*;
use vstd::string::StringExecFns;

use crate::format::opt_view;
use crate::meta::{title_text, Track};
use crate::path::{file_name, file_name_of};
use crate::scan::{scan_dir, Walk};
use crate::text::{
    all_ascii, ascii_lower_seq, chars_of, contains_chars, contains_seq, lowercase, push_char, push_str, to_lowercase, trim,
    trim_str,
};

verus! {

/// A single audio file shown in the TRACKS column.
#[derive(Clone, Debug)]
pub struct TrackRow {
    /// Stable identity for the selection set: the path as a string.
    pub id: String,
    pub path: String,
    pub title: String,
    pub artist: String,
    pub format: String,
    pub art_count: usize,
    pub duration_secs: u64,
    pub search_blob: String,
}

/// What a track row is searched by: its lowercased title and artist.
pub open spec fn track_blob(title: Seq<char>, artist: Seq<char>) -> Seq<char> {
    lowercase(title) + seq![' '] + lowercase(artist)
}

/// The row a track snapshot is shown as.
pub open spec fn track_row_of(r: TrackRow, t: Track) -> bool {
    let artist = match t.artist {
        Some(a) => a@,
        None => Seq::empty(),
    };
    &&& r.id@ == t.path@
    &&& r.path == t.path
    &&& r.title@ == title_text(t)
    &&& r.artist@ == artist
    &&& r.format == t.format
    &&& r.art_count == t.art_count
    &&& r.duration_secs == t.duration_secs
    &&& r.search_blob@ == track_blob(title_text(t), artist)
}

impl TrackRow {
    /// The row a track snapshot is shown as.
    pub fn from_track(t: Track) -> (r: TrackRow)
        ensures
            track_row_of(r, t),
            all_ascii(r.title@) ==> lowercase(r.title@) == ascii_lower_seq(r.title@),
            all_ascii(r.artist@) ==> lowercase(r.artist@) == ascii_lower_seq(r.artist@),
            all_ascii(r.title@) && all_ascii(r.artist@) ==> r.search_blob@ == ascii_lower_seq(
                r.title@,
            ) + seq![' '] + ascii_lower_seq(r.artist@),
    {
        let title = String::from_str(t.display_title());
        let artist = match &t.artist {
            Some(a) => a.clone(),
            None => String::new(),
        };
        let mut search_blob = to_lowercase(title.as_str());
        push_char(&mut search_blob, ' ');
        let la = to_lowercase(artist.as_str());
        push_str(&mut search_blob, la.as_str());
        let id = t.path.clone();
        assert(title@ == title_text(t));
        assert(artist@ == (match t.artist {
            Some(a) => a@,
            None => Seq::empty(),
        }));
        let ghost tv = t;
        let r = TrackRow {
            id,
            path: t.path,
            title,
            artist,
            format: t.format,
            art_count: t.art_count,
            duration_secs: t.duration_secs,
            search_blob,
        };
        assert(r.id@ == tv.path@);
        assert(r.path == tv.path);
        assert(r.format == tv.format);
        assert(r.search_blob@ == track_blob(title_text(tv), r.artist@));
        r
    }
}

/// A single image file shown in the IMAGES column.
#[derive(Clone, Debug)]
pub struct ImageRow {
    pub path: String,
    pub name: String,
    pub dims: Option<(u32, u32)>,
    pub size: u64,
    pub search_blob: String,
}

/// The file name an image row shows: the path's file name, or nothing.
pub open spec fn image_name(path: Seq<char>) -> Seq<char> {
    match file_name_of(path) {
        Some(n) => n,
        None => Seq::empty(),
    }
}

impl ImageRow {
    /// The row of the image file at `path`, given the dimensions its header
    /// gives (if readable) and its size on disk.
    pub fn from_parts(path: String, dims: Option<(u32, u32)>, size: u64) -> (r: ImageRow)
        ensures
            r.path == path,
            r.name@ == image_name(path@),
            r.dims == dims,
            r.size == size,
            r.search_blob@ == lowercase(image_name(path@)),
            all_ascii(image_name(path@)) ==> r.search_blob@ == ascii_lower_seq(image_name(path@)),
    {
        let name = match file_name(path.as_str()) {
            Some(n) => n,
            None => String::new(),
        };
        let search_blob = to_lowercase(name.as_str());
        ImageRow { path, name, dims, size, search_blob }
    }
}

/// Starts a fresh scan of the root the columns are built from.
pub fn rescan(root: String, recurse: bool) -> (w: Walk)
    ensures
        w.recurse == recurse,
        w.pending@ == seq![root],
        w.found.audio@.len() == 0,
        w.found.images@.len() == 0,
{
    scan_dir(root, recurse)
}

/// Whether a track's tags could be read.
pub open spec fn read_ok() -> spec_fn(Option<Track>) -> bool {
    |o: Option<Track>| o is Some
}

/// The rows of the tracks whose tags could be read, in scan order, with the
/// number of those that could not.
pub fn load_rows(reads: Vec<Option<Track>>, images: Vec<ImageRow>) -> (r: (
    Vec<TrackRow>,
    Vec<ImageRow>,
    usize,
))
    ensures
        r.1 == images,
        r.0@.len() + r.2 == reads@.len(),
        r.0@.len() == reads@.filter(read_ok()).len(),
        forall|i: int|
            0 <= i < r.0@.len() ==> track_row_of(
                #[trigger] r.0@[i],
                reads@.filter(read_ok())[i]->0,
            ),
{
    let mut tracks: Vec<TrackRow> = Vec::new();
    let mut skipped: usize = 0;
    let ghost all = reads@;
    let ghost pred = read_ok();
    let n = reads.len();
    for item in it: reads
        invariant
            it.seq() == all,
            n == all.len(),
            pred == read_ok(),
            tracks@.len() + skipped == it.index(),
            tracks@.len() == all.take(it.index() as int).filter(pred).len(),
            forall|j: int|
                0 <= j < tracks@.len() ==> track_row_of(
                    #[trigger] tracks@[j],
                    all.take(it.index() as int).filter(pred)[j]->0,
                ),
    {
        let ghost i = it.index();
        proof {
            assert(item == all[i as int]);
            assert(all.take(i + 1) =~= all.take(i as int).push(all[i as int]));
            reveal_with_fuel(Seq::filter, 1);
            assert(all.take(i + 1).drop_last() =~= all.take(i as int));
        }
        proof {
            reveal_with_fuel(Seq::filter, 1);
            if pred(all[i as int]) {
                assert(all.take(i + 1).filter(pred) =~= all.take(i as int).filter(pred).push(
                    all[i as int],
                ));
            } else {
                assert(all.take(i + 1).filter(pred) =~= all.take(i as int).filter(pred));
            }
        }
        match item {
            Some(t) => {
                tracks.push(TrackRow::from_track(t));
            },
            None => {
                skipped += 1;
            },
        }
    }
    assert(all.take(all.len() as int) =~= all);
    (tracks, images, skipped)
}

/// Whether a row with search text `blob` is shown for the prepared query `q`.
pub open spec fn shown(blob: Seq<char>, q: Seq<char>) -> bool {
    q.len() == 0 || contains_seq(blob, q)
}

/// A query prepared for matching: trimmed, then lowercased.
pub open spec fn prepared(query: Seq<char>) -> Seq<char> {
    lowercase(trim(query))
}

/// `v` lists, in increasing order, exactly the indices below `n` that
/// satisfy `keep`.
pub open spec fn lists_exactly(v: Seq<usize>, n: nat, keep: spec_fn(int) -> bool) -> bool {
    &&& forall|a: int, b: int| 0 <= a < b < v.len() ==> v[a] < v[b]
    &&& forall|a: int| 0 <= a < v.len() ==> v[a] < n && keep(v[a] as int)
    &&& forall|i: int| 0 <= i < n && #[trigger] keep(i) ==> v.contains(i as usize)
}

/// The visible indices of track rows for a search query.
pub open spec fn track_shown(rows: Seq<TrackRow>, query: Seq<char>) -> spec_fn(int) -> bool {
    |i: int| shown(rows[i].search_blob@, prepared(query))
}

/// The visible indices of image rows for a search query.
pub open spec fn image_shown(rows: Seq<ImageRow>, query: Seq<char>) -> spec_fn(int) -> bool {
    |i: int| shown(rows[i].search_blob@, prepared(query))
}

/// The rows a TRACKS search shows: all of them for a blank query, else those
/// whose title-and-artist text contains the query, trimmed and lowercased.
pub fn track_visible(rows: &Vec<TrackRow>, query: &str) -> (r: Vec<usize>)
    ensures
        lists_exactly(r@, rows@.len(), track_shown(rows@, query@)),
        trim(query@).len() == 0 ==> r@ == Seq::new(rows@.len(), |k: int| k as usize),
        all_ascii(trim(query@)) ==> prepared(query@) == ascii_lower_seq(trim(query@)),
{
    let t = trim_str(query);
    let q = to_lowercase(t.as_str());
    let qv = chars_of(q.as_str());
    let mut out: Vec<usize> = Vec::new();
    let mut i: usize = 0;
    let ghost keep = track_shown(rows@, query@);
    while i < rows.len()
        invariant
            i <= rows@.len(),
            qv@ == prepared(query@),
            trim(query@).len() == 0 ==> qv@.len() == 0,
            qv@.len() == 0 ==> out@ == Seq::new(i as nat, |k: int| k as usize),
            keep == track_shown(rows@, query@),
            forall|a: int, b: int| 0 <= a < b < out@.len() ==> out@[a] < out@[b],
            forall|a: int| 0 <= a < out@.len() ==> out@[a] < i && keep(out@[a] as int),
            forall|j: int| 0 <= j < i && #[trigger] keep(j) ==> out@.contains(j as usize),
        decreases rows@.len() - i,
    {
        let blob = chars_of(rows[i].search_blob.as_str());
        let hit = qv.len() == 0 || contains_chars(&blob, &qv);
        let ghost before = out@;
        if hit {
            out.push(i);
            assert(qv@.len() == 0 ==> out@ =~= Seq::new((i + 1) as nat, |k: int| k as usize));
            proof {
                assert(out@[out@.len() - 1] == i);
                assert forall|j: int| 0 <= j < i + 1 && #[trigger] keep(j) implies out@.contains(j as usize) by {
                    if j < i {
                        let k = choose|k: int| 0 <= k < before.len() && before[k] == j as usize;
                        assert(out@[k] == j as usize);
                    } else {
                        assert(out@[out@.len() - 1] == j as usize);
                    }
                }
            }
        }
        i += 1;
    }
    out
}

/// The rows an IMAGES search shows: all of them for a blank query, else those
/// whose lowercased file name contains the query, trimmed and lowercased.
pub fn image_visible(rows: &Vec<ImageRow>, query: &str) -> (r: Vec<usize>)
    ensures
        lists_exactly(r@, rows@.len(), image_shown(rows@, query@)),
        trim(query@).len() == 0 ==> r@ == Seq::new(rows@.len(), |k: int| k as usize),
        all_ascii(trim(query@)) ==> prepared(query@) == ascii_lower_seq(trim(query@)),
{
    let t = trim_str(query);
    let q = to_lowercase(t.as_str());
    let qv = chars_of(q.as_str());
    let mut out: Vec<usize> = Vec::new();
    let mut i: usize = 0;
    let ghost keep = image_shown(rows@, query@);
    while i < rows.len()
        invariant
            i <= rows@.len(),
            qv@ == prepared(query@),
            trim(query@).len() == 0 ==> qv@.len() == 0,
            qv@.len() == 0 ==> out@ == Seq::new(i as nat, |k: int| k as usize),
            keep == image_shown(rows@, query@),
            forall|a: int, b: int| 0 <= a < b < out@.len() ==> out@[a] < out@[b],
            forall|a: int| 0 <= a < out@.len() ==> out@[a] < i && keep(out@[a] as int),
            forall|j: int| 0 <= j < i && #[trigger] keep(j) ==> out@.contains(j as usize),
        decreases rows@.len() - i,
    {
        let blob = chars_of(rows[i].search_blob.as_str());
        let hit = qv.len() == 0 || contains_chars(&blob, &qv);
        let ghost before = out@;
        if hit {
            out.push(i);
            assert(qv@.len() == 0 ==> out@ =~= Seq::new((i + 1) as nat, |k: int| k as usize));
            proof {
                assert(out@[out@.len() - 1] == i);
                assert forall|j: int| 0 <= j < i + 1 && #[trigger] keep(j) implies out@.contains(j as usize) by {
                    if j < i {
                        let k = choose|k: int| 0 <= k < before.len() && before[k] == j as usize;
                        assert(out@[k] == j as usize);
                    } else {
                        assert(out@[out@.len() - 1] == j as usize);
                    }
                }
            }
        }
        i += 1;
    }
    out
}

} // verus!
