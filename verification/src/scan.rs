//! Which files of a directory tree are tracks and which are candidate cover
//! art, and the sorted result of a walk.
//!
//! Reading directories is the caller's part: it hands each entry to
//! [`classify_entry`], records what it is told to, and finally sorts with
//! [`Scan::finish`].
use vstd::prelude::*;

use crate::path::{
    extension, extension_of, lemma_path_order, path_le, path_lt, path_lt_exec, comps_of,
};
use crate::text::{ascii_lower_seq, ascii_lowercase, starts_with_char, str_eq};

verus! {

broadcast use vstd::seq_lib::to_multiset_insert;

/// Extensions of the audio formats whose tags can be read and written.
pub open spec fn is_audio_ext(e: Seq<char>) -> bool {
    e == "mp3"@ || e == "flac"@ || e == "m4a"@ || e == "m4b"@ || e == "mp4"@ || e == "aac"@ || e
        == "wav"@ || e == "wave"@ || e == "aiff"@ || e == "aif"@ || e == "aifc"@ || e == "ogg"@
        || e == "oga"@ || e == "opus"@ || e == "wv"@ || e == "ape"@
}

/// Extensions of the image formats treated as candidate cover art.
pub open spec fn is_image_ext(e: Seq<char>) -> bool {
    e == "jpg"@ || e == "jpeg"@ || e == "png"@ || e == "webp"@ || e == "gif"@ || e == "bmp"@ || e
        == "tif"@ || e == "tiff"@
}

/// The extension of a path, ASCII-lowercased.
pub open spec fn ext_lower_of(p: Seq<char>) -> Option<Seq<char>> {
    match extension_of(p) {
        Some(e) => Some(ascii_lower_seq(e)),
        None => None,
    }
}

pub open spec fn is_audio_path(p: Seq<char>) -> bool {
    match ext_lower_of(p) {
        Some(e) => is_audio_ext(e),
        None => false,
    }
}

pub open spec fn is_image_path(p: Seq<char>) -> bool {
    match ext_lower_of(p) {
        Some(e) => is_image_ext(e),
        None => false,
    }
}

/// A path is audio exactly when its extension, in any ASCII case, is one
/// of `mp3`, `flac`, `m4a`, `m4b`, `mp4`, `aac`, `wav`, `wave`, `aiff`,
/// `aif`, `aifc`, `ogg`, `oga`, `opus`, `wv` or `ape`; an image exactly when
/// it is one of `jpg`, `jpeg`, `png`, `webp`, `gif`, `bmp`, `tif` or `tiff`.
/// No path is both.
pub proof fn law_audio_and_image_extensions(p: Seq<char>)
    ensures
        is_audio_path(p) <==> (extension_of(p) matches Some(e) && set![
            "mp3"@,
            "flac"@,
            "m4a"@,
            "m4b"@,
            "mp4"@,
            "aac"@,
            "wav"@,
            "wave"@,
            "aiff"@,
            "aif"@,
            "aifc"@,
            "ogg"@,
            "oga"@,
            "opus"@,
            "wv"@,
            "ape"@,
        ].contains(ascii_lower_seq(e))),
        is_image_path(p) <==> (extension_of(p) matches Some(e) && set![
            "jpg"@,
            "jpeg"@,
            "png"@,
            "webp"@,
            "gif"@,
            "bmp"@,
            "tif"@,
            "tiff"@,
        ].contains(ascii_lower_seq(e))),
        !(is_audio_path(p) && is_image_path(p)),
{
    if let Some(e) = extension_of(p) {
        let x = ascii_lower_seq(e);
        reveal_strlit("mp3");
        reveal_strlit("flac");
        reveal_strlit("m4a");
        reveal_strlit("m4b");
        reveal_strlit("mp4");
        reveal_strlit("aac");
        reveal_strlit("wav");
        reveal_strlit("wave");
        reveal_strlit("aiff");
        reveal_strlit("aif");
        reveal_strlit("aifc");
        reveal_strlit("ogg");
        reveal_strlit("oga");
        reveal_strlit("opus");
        reveal_strlit("wv");
        reveal_strlit("ape");
        reveal_strlit("jpg");
        reveal_strlit("jpeg");
        reveal_strlit("png");
        reveal_strlit("webp");
        reveal_strlit("gif");
        reveal_strlit("bmp");
        reveal_strlit("tif");
        reveal_strlit("tiff");
        assert(is_image_ext(x) ==> x.len() >= 3 && (x[0] == 'j' || x[0] == 'p' || x[0] == 'g'
            || x[0] == 'b' || x[0] == 't' || (x[0] == 'w' && x[1] == 'e')));
        assert(is_audio_ext(x) ==> x.len() >= 2 && (x[0] == 'm' || x[0] == 'f' || x[0] == 'a'
            || x[0] == 'o' || (x[0] == 'w' && x[1] != 'e')));
    }
}

fn audio_ext(e: &str) -> (r: bool)
    ensures
        r == is_audio_ext(e@),
{
    str_eq(e, "mp3") || str_eq(e, "flac") || str_eq(e, "m4a") || str_eq(e, "m4b") || str_eq(
        e,
        "mp4",
    ) || str_eq(e, "aac") || str_eq(e, "wav") || str_eq(e, "wave") || str_eq(e, "aiff")
        || str_eq(e, "aif") || str_eq(e, "aifc") || str_eq(e, "ogg") || str_eq(e, "oga")
        || str_eq(e, "opus") || str_eq(e, "wv") || str_eq(e, "ape")
}

fn image_ext(e: &str) -> (r: bool)
    ensures
        r == is_image_ext(e@),
{
    str_eq(e, "jpg") || str_eq(e, "jpeg") || str_eq(e, "png") || str_eq(e, "webp") || str_eq(
        e,
        "gif",
    ) || str_eq(e, "bmp") || str_eq(e, "tif") || str_eq(e, "tiff")
}

/// The lowercased extension of a path.
pub fn ext_lower(path: &str) -> (r: Option<String>)
    ensures
        match r {
            Some(e) => ext_lower_of(path@) == Some(e@),
            None => ext_lower_of(path@) is None,
        },
{
    match extension(path) {
        Some(e) => Some(ascii_lowercase(e.as_str())),
        None => None,
    }
}

/// Whether a path names a taggable audio file, by its extension.
pub fn is_audio(path: &str) -> (r: bool)
    ensures
        r == is_audio_path(path@),
{
    match ext_lower(path) {
        Some(e) => audio_ext(e.as_str()),
        None => false,
    }
}

/// Whether a path names a candidate cover image, by its extension.
pub fn is_image(path: &str) -> (r: bool)
    ensures
        r == is_image_path(path@),
{
    match ext_lower(path) {
        Some(e) => image_ext(e.as_str()),
        None => false,
    }
}

/// The kind of a directory entry, as its file type reports it.
#[derive(Clone, Copy, Debug, PartialEq, Eq, Structural)]
pub enum EntryKind {
    Symlink,
    Dir,
    File,
}

/// What a walk does with one directory entry.
#[derive(Clone, Copy, Debug, PartialEq, Eq, Structural)]
pub enum EntryAction {
    /// Hidden, a symlink, a directory not descended into, or neither audio
    /// nor image.
    Skip,
    /// A directory to walk into.
    Descend,
    /// A track.
    Audio,
    /// A candidate cover image.
    Image,
}

/// The decision for one entry of a walk: hidden entries (name starting with
/// `.`) and symlinks are skipped, directories are descended into only when
/// recursing, other files are audio or image by extension.
pub open spec fn entry_action(
    name: Seq<char>,
    path: Seq<char>,
    kind: EntryKind,
    recurse: bool,
) -> EntryAction {
    if name.len() > 0 && name[0] == '.' {
        EntryAction::Skip
    } else if kind == EntryKind::Symlink {
        EntryAction::Skip
    } else if kind == EntryKind::Dir {
        if recurse {
            EntryAction::Descend
        } else {
            EntryAction::Skip
        }
    } else if is_audio_path(path) {
        EntryAction::Audio
    } else if is_image_path(path) {
        EntryAction::Image
    } else {
        EntryAction::Skip
    }
}

/// Decides what a walk does with the entry `name` found at `path`.
pub fn classify_entry(name: &str, path: &str, kind: EntryKind, recurse: bool) -> (r: EntryAction)
    ensures
        r == entry_action(name@, path@, kind, recurse),
{
    if starts_with_char(name, '.') {
        EntryAction::Skip
    } else if kind == EntryKind::Symlink {
        EntryAction::Skip
    } else if kind == EntryKind::Dir {
        if recurse {
            EntryAction::Descend
        } else {
            EntryAction::Skip
        }
    } else if is_audio(path) {
        EntryAction::Audio
    } else if is_image(path) {
        EntryAction::Image
    } else {
        EntryAction::Skip
    }
}

/// Paths in ascending `PathBuf` order.
pub open spec fn paths_sorted(s: Seq<String>) -> bool {
    forall|i: int, j: int| 0 <= i < j < s.len() ==> path_le(#[trigger] s[i]@, #[trigger] s[j]@)
}

/// The audio files and the images found by a walk.
pub struct Scan {
    pub audio: Vec<String>,
    pub images: Vec<String>,
}

impl Scan {
    /// An empty scan.
    pub fn new() -> (r: Scan)
        ensures
            r.audio@.len() == 0,
            r.images@.len() == 0,
    {
        Scan { audio: Vec::new(), images: Vec::new() }
    }

    /// Records the entry at `path` as the decision `action` says: audio and
    /// images are appended, anything else is left out.
    pub fn record(&mut self, path: String, action: EntryAction)
        ensures
            final(self).audio@ == (if action == EntryAction::Audio {
                old(self).audio@.push(path)
            } else {
                old(self).audio@
            }),
            final(self).images@ == (if action == EntryAction::Image {
                old(self).images@.push(path)
            } else {
                old(self).images@
            }),
    {
        match action {
            EntryAction::Audio => self.audio.push(path),
            EntryAction::Image => self.images.push(path),
            _ => {},
        }
    }

    /// Sorts both lists in `PathBuf` order, keeping every entry.
    pub fn finish(&mut self)
        ensures
            paths_sorted(final(self).audio@),
            paths_sorted(final(self).images@),
            final(self).audio@ == stable_sorted(old(self).audio@),
            final(self).images@ == stable_sorted(old(self).images@),
            final(self).audio@.to_multiset() == old(self).audio@.to_multiset(),
            final(self).images@.to_multiset() == old(self).images@.to_multiset(),
    {
        let a = sort_paths(&self.audio);
        let i = sort_paths(&self.images);
        self.audio = a;
        self.images = i;
    }
}

/// `s` with `x` put after every path that is not after it: where a stable
/// sort puts an element that comes after all of `s`.
pub open spec fn insert_sorted(s: Seq<String>, x: String) -> Seq<String>
    decreases s.len(),
{
    if s.len() == 0 {
        seq![x]
    } else if path_lt(x@, s.last()@) {
        insert_sorted(s.drop_last(), x).push(s.last())
    } else {
        s.push(x)
    }
}

/// `v` stably sorted by `PathBuf` order: paths with the same components
/// keep the order they had in `v`.
pub open spec fn stable_sorted(v: Seq<String>) -> Seq<String>
    decreases v.len(),
{
    if v.len() == 0 {
        Seq::empty()
    } else {
        insert_sorted(stable_sorted(v.drop_last()), v.last())
    }
}

/// Inserting at the first position whose path is after `x` is the stable
/// insertion.
proof fn lemma_insert_at_bound(s: Seq<String>, x: String, k: int)
    requires
        0 <= k <= s.len(),
        forall|i: int| 0 <= i < k ==> path_le(#[trigger] s[i]@, x@),
        forall|i: int| k <= i < s.len() ==> path_lt(x@, #[trigger] s[i]@),
    ensures
        insert_sorted(s, x) == s.insert(k, x),
    decreases s.len(),
{
    if s.len() == 0 {
        assert(s.insert(k, x) =~= seq![x]);
    } else if k == s.len() {
        assert(path_le(s[s.len() - 1]@, x@));
        assert(s.insert(k, x) =~= s.push(x));
    } else {
        assert(path_lt(x@, s[s.len() - 1]@));
        let t = s.drop_last();
        assert forall|i: int| 0 <= i < k implies path_le(#[trigger] t[i]@, x@) by {
            assert(t[i] == s[i]);
        }
        assert forall|i: int| k <= i < t.len() implies path_lt(x@, #[trigger] t[i]@) by {
            assert(t[i] == s[i]);
        }
        lemma_insert_at_bound(t, x, k);
        assert(t.insert(k, x).push(s.last()) =~= s.insert(k, x));
    }
}

proof fn lemma_lt_le(a: Seq<char>, b: Seq<char>, c: Seq<char>)
    requires
        path_lt(a, b),
        path_le(b, c),
    ensures
        path_lt(a, c),
{
    lemma_path_order(a, b, c);
    lemma_path_order(b, c, a);
    if comps_of(b) == comps_of(c) {
    } else {
        lemma_path_order(a, b, c);
    }
}

/// The position at which `p` goes into the sorted `out`: after every entry
/// that does not sort after it.
fn upper_bound(out: &Vec<String>, p: &String) -> (k: usize)
    requires
        paths_sorted(out@),
    ensures
        k <= out@.len(),
        forall|i: int| 0 <= i < k ==> path_le(#[trigger] out@[i]@, p@),
        forall|i: int| k <= i < out@.len() ==> path_lt(p@, #[trigger] out@[i]@),
{
    let mut lo: usize = 0;
    let mut hi: usize = out.len();
    while lo < hi
        invariant
            lo <= hi <= out@.len(),
            paths_sorted(out@),
            forall|i: int| 0 <= i < lo ==> path_le(#[trigger] out@[i]@, p@),
            forall|i: int| hi <= i < out@.len() ==> path_lt(p@, #[trigger] out@[i]@),
        decreases hi - lo,
    {
        let mid = lo + (hi - lo) / 2;
        if path_lt_exec(p.as_str(), out[mid].as_str()) {
            proof {
                assert forall|i: int| mid <= i < out@.len() implies path_lt(
                    p@,
                    #[trigger] out@[i]@,
                ) by {
                    if i > mid {
                        assert(path_le(out@[mid as int]@, out@[i]@));
                        lemma_lt_le(p@, out@[mid as int]@, out@[i]@);
                    }
                }
            }
            hi = mid;
        } else {
            proof {
                assert forall|i: int| 0 <= i < mid + 1 implies path_le(
                    #[trigger] out@[i]@,
                    p@,
                ) by {
                    if i < mid {
                        assert(path_le(out@[i]@, out@[mid as int]@));
                        lemma_path_order(out@[i]@, out@[mid as int]@, p@);
                    }
                }
            }
            lo = mid + 1;
        }
    }
    lo
}

/// A sorted copy of `v`: binary insertion of each entry after the entries
/// that do not sort after it.
pub fn sort_paths(v: &Vec<String>) -> (r: Vec<String>)
    ensures
        paths_sorted(r@),
        r@.to_multiset() == v@.to_multiset(),
        r@ == stable_sorted(v@),
{
    let mut out: Vec<String> = Vec::new();
    let mut i: usize = 0;
    assert(v@.take(0) =~= out@);
    while i < v.len()
        invariant
            i <= v.len(),
            paths_sorted(out@),
            out@.to_multiset() == v@.take(i as int).to_multiset(),
            out@ == stable_sorted(v@.take(i as int)),
        decreases v.len() - i,
    {
        let p = v[i].clone();
        let k = upper_bound(&out, &p);
        let ghost old_out = out@;
        out.insert(k, p);
        proof {
            lemma_insert_at_bound(old_out, p, k as int);
            assert(v@.take(i + 1).drop_last() =~= v@.take(i as int));
            assert(v@.take(i + 1).last() == v@[i as int]);
            assert(out@ == old_out.insert(k as int, p));
            assert forall|a: int, b: int| 0 <= a < b < out@.len() implies path_le(
                #[trigger] out@[a]@,
                #[trigger] out@[b]@,
            ) by {
                if a < k && b == k {
                } else if a < k && b > k {
                    assert(path_le(old_out[a]@, p@));
                    assert(path_lt(p@, old_out[b - 1]@));
                    lemma_path_order(p@, old_out[b - 1]@, old_out[b - 1]@);
                    lemma_path_order(old_out[a]@, p@, old_out[b - 1]@);
                } else if a == k {
                    assert(path_lt(p@, old_out[b - 1]@));
                    lemma_path_order(p@, old_out[b - 1]@, p@);
                    lemma_path_order(old_out[b - 1]@, p@, p@);
                } else if b < k {
                } else {
                    assert(path_le(old_out[a - 1]@, old_out[b - 1]@));
                }
            }
            assert(v@.take(i + 1) =~= v@.take(i as int).push(v@[i as int]));
            vstd::seq_lib::to_multiset_build(v@.take(i as int), v@[i as int]);
        }
        i += 1;
    }
    assert(v@.take(v.len() as int) =~= v@);
    out
}

/// One entry of a directory listing: its path, its file name and what it
/// is.
pub struct DirEntry {
    pub path: String,
    pub name: String,
    pub kind: EntryKind,
}

/// The paths of the entries the walk treats as `act`, in listing order.
pub open spec fn picked(entries: Seq<DirEntry>, recurse: bool, act: EntryAction) -> Seq<String>
    decreases entries.len(),
{
    if entries.len() == 0 {
        Seq::empty()
    } else {
        let e = entries.last();
        picked(entries.drop_last(), recurse, act) + if entry_action(
            e.name@,
            e.path@,
            e.kind,
            recurse,
        ) == act {
            seq![e.path]
        } else {
            Seq::empty()
        }
    }
}

/// Whatever a walk queues or records comes from a listed entry that is not
/// hidden and not a symlink: dotfiles are never taken and links never
/// followed; directories are entered only when recursing, and only files
/// with an audio (or image) extension are recorded as such.
pub proof fn law_walk_takes_only_visible(entries: Seq<DirEntry>, recurse: bool, act: EntryAction, k: int)
    requires
        act != EntryAction::Skip,
        0 <= k < picked(entries, recurse, act).len(),
    ensures
        exists|j: int|
            #![trigger entries[j]]
            0 <= j < entries.len() && entries[j].path == picked(entries, recurse, act)[k] && !(
            entries[j].name@.len() > 0 && entries[j].name@[0] == '.') && entries[j].kind
                != EntryKind::Symlink && (act == EntryAction::Descend ==> entries[j].kind
                == EntryKind::Dir && recurse) && (act == EntryAction::Audio ==> entries[j].kind
                == EntryKind::File && is_audio_path(entries[j].path@)) && (act == EntryAction::Image
                ==> entries[j].kind == EntryKind::File && is_image_path(entries[j].path@)),
    decreases entries.len(),
{
    let front = picked(entries.drop_last(), recurse, act);
    if k < front.len() {
        law_walk_takes_only_visible(entries.drop_last(), recurse, act, k);
        let j = choose|j: int|
            #![trigger entries.drop_last()[j]]
            0 <= j < entries.drop_last().len() && entries.drop_last()[j].path == front[k] && !(
            entries.drop_last()[j].name@.len() > 0 && entries.drop_last()[j].name@[0] == '.')
                && entries.drop_last()[j].kind != EntryKind::Symlink && (act
                == EntryAction::Descend ==> entries.drop_last()[j].kind == EntryKind::Dir
                && recurse) && (act == EntryAction::Audio ==> entries.drop_last()[j].kind
                == EntryKind::File && is_audio_path(entries.drop_last()[j].path@)) && (act
                == EntryAction::Image ==> entries.drop_last()[j].kind == EntryKind::File
                && is_image_path(entries.drop_last()[j].path@));
        assert(entries[j] == entries.drop_last()[j]);
    } else {
        let j = entries.len() - 1;
        assert(entries[j] == entries.last());
    }
}

/// A walk of a directory tree in progress: the directories still to be
/// listed, and the audio and image files found so far. Hidden entries and
/// symlinks are skipped; subdirectories are entered only when recursing.
pub struct Walk {
    pub recurse: bool,
    pub pending: Vec<String>,
    pub found: Scan,
}

/// Starts the scan of `root`: it is the one directory to list.
pub fn scan_dir(root: String, recurse: bool) -> (w: Walk)
    ensures
        w.recurse == recurse,
        w.pending@ == seq![root],
        w.found.audio@.len() == 0,
        w.found.images@.len() == 0,
{
    let mut pending: Vec<String> = Vec::new();
    pending.push(root);
    Walk { recurse, pending, found: Scan::new() }
}

impl Walk {
    /// The next directory to list, if any is left.
    pub fn next_dir(&mut self) -> (r: Option<String>)
        ensures
            final(self).recurse == old(self).recurse,
            final(self).found == old(self).found,
            old(self).pending@.len() == 0 ==> r is None && final(self).pending@ == old(self).pending@,
            old(self).pending@.len() > 0 ==> r == Some(old(self).pending@.last())
                && final(self).pending@ == old(self).pending@.drop_last(),
    {
        self.pending.pop()
    }

    /// Takes in the listing of a directory (empty when it cannot be read):
    /// audio and image files are recorded, subdirectories queued.
    pub fn visit(&mut self, entries: Vec<DirEntry>)
        ensures
            final(self).recurse == old(self).recurse,
            final(self).pending@ == old(self).pending@ + picked(
                entries@,
                old(self).recurse,
                EntryAction::Descend,
            ),
            final(self).found.audio@ == old(self).found.audio@ + picked(
                entries@,
                old(self).recurse,
                EntryAction::Audio,
            ),
            final(self).found.images@ == old(self).found.images@ + picked(
                entries@,
                old(self).recurse,
                EntryAction::Image,
            ),
    {
        let ghost all = entries@;
        let mut entries = entries;
        let mut i: usize = 0;
        let n = entries.len();
        while entries.len() > 0
            invariant
                entries@.len() + i == n,
                n == all.len(),
                entries@ == all.skip(i as int),
                self.recurse == old(self).recurse,
                self.pending@ == old(self).pending@ + picked(
                    all.take(i as int),
                    old(self).recurse,
                    EntryAction::Descend,
                ),
                self.found.audio@ == old(self).found.audio@ + picked(
                    all.take(i as int),
                    old(self).recurse,
                    EntryAction::Audio,
                ),
                self.found.images@ == old(self).found.images@ + picked(
                    all.take(i as int),
                    old(self).recurse,
                    EntryAction::Image,
                ),
            decreases entries@.len(),
        {
            let e = entries.remove(0);
            assert(e == all[i as int]);
            assert(entries@ =~= all.skip(i + 1));
            let ghost t = all.take(i + 1);
            assert(t.drop_last() =~= all.take(i as int));
            assert(t.last() == e);
            let act = classify_entry(e.name.as_str(), e.path.as_str(), e.kind, self.recurse);
            if act == EntryAction::Descend {
                self.pending.push(e.path);
            } else {
                self.found.record(e.path, act);
            }
            assert(self.pending@ =~= old(self).pending@ + picked(t, old(self).recurse, EntryAction::Descend));
            assert(self.found.audio@ =~= old(self).found.audio@ + picked(t, old(self).recurse, EntryAction::Audio));
            assert(self.found.images@ =~= old(self).found.images@ + picked(t, old(self).recurse, EntryAction::Image));
            i += 1;
        }
        assert(all.take(n as int) =~= all);
    }

    /// The files found, each list sorted as `PathBuf`s sort.
    pub fn finish(self) -> (r: Scan)
        ensures
            paths_sorted(r.audio@),
            paths_sorted(r.images@),
            r.audio@ == stable_sorted(self.found.audio@),
            r.images@ == stable_sorted(self.found.images@),
            r.audio@.to_multiset() == self.found.audio@.to_multiset(),
            r.images@.to_multiset() == self.found.images@.to_multiset(),
    {
        let mut s = self.found;
        s.finish();
        s
    }
}

} // verus!
