//! What the preview pane shows: the source it reads, the decision taken on
//! the bytes read from it, and when a decoded image is scaled down first.
use vstd::prelude::*;
use std::hash::Hasher;

use crate::art::{cover_index, pick_cover, PictureData};
use crate::path::{comps_of, path_eq_exec};

verus! {

/// What to preview: a standalone image file (the cover to assign) or the
/// cover already embedded in a track (when inspecting the TRACKS column).
#[derive(Clone, Debug, PartialEq, Eq, Hash)]
pub enum Source {
    ImageFile(String),
    EmbeddedArt(String),
}

/// The outcome of reading a source's encoded bytes.
pub enum SourceRead {
    /// Encoded image bytes plus a content hash for cheap equality checks.
    Image(Vec<u8>, u64),
    /// Resolved fine, but there is no image (a track with no embedded cover).
    NoImage,
    /// The source could not be read or parsed.
    Error,
}

/// The hash `DefaultHasher::new()` gives after writing `bytes`.
pub uninterp spec fn content_hash(bytes: Seq<u8>) -> u64;

/// Hashes the bytes with a fresh `DefaultHasher` (`write`, then `finish`);
/// the hash is the named one for these bytes. `DefaultHasher::new()` is not
/// randomly seeded, so the same bytes hash alike within a build; its
/// algorithm is left unstated.
#[verifier::external_body]
pub(crate) fn hash_bytes(bytes: &[u8]) -> (r: u64)
    ensures
        r == content_hash(bytes@),
{
    let mut hasher = std::collections::hash_map::DefaultHasher::new();
    hasher.write(bytes);
    hasher.finish()
}

/// The outcome for an image file, given its bytes (`None` when reading it
/// failed): an empty file is an error like an unreadable one.
pub fn file_read(bytes: Option<Vec<u8>>) -> (r: SourceRead)
    ensures
        match bytes {
            Some(b) if b@.len() > 0 => (r matches SourceRead::Image(v, h) && v@ == b@ && h
                == content_hash(b@)),
            _ => r is Error,
        },
{
    match bytes {
        Some(b) => {
            if b.len() > 0 {
                let h = hash_bytes(b.as_slice());
                SourceRead::Image(b, h)
            } else {
                SourceRead::Error
            }
        },
        None => SourceRead::Error,
    }
}

/// The outcome for a track's embedded cover, given what reading its tags
/// gave: an error when the file could not be read, no image when it has no
/// tag or the tag no picture, else the picture `cover_index` picks.
pub fn embedded_read(tag: Result<Option<Vec<PictureData>>, String>) -> (r: SourceRead)
    ensures
        match tag {
            Err(_) => r is Error,
            Ok(None) => r is NoImage,
            Ok(Some(p)) => match cover_index(p@) {
                None => r is NoImage,
                Some(i) => (r matches SourceRead::Image(v, h) && v@ == p@[i].data@ && h
                    == content_hash(p@[i].data@)),
            },
        },
{
    let mut pics = match tag {
        Err(_) => {
            return SourceRead::Error;
        },
        Ok(None) => {
            return SourceRead::NoImage;
        },
        Ok(Some(p)) => p,
    };
    match pick_cover(&pics) {
        None => SourceRead::NoImage,
        Some(i) => {
            let ghost before = pics@;
            let pic = pics.remove(i);
            let data = pic.data;
            assert(data@ == before[i as int].data@);
            let h = hash_bytes(data.as_slice());
            SourceRead::Image(data, h)
        },
    }
}

/// Longest side, in pixels, of a preview image. The preview pane is at most
/// a few hundred pixels wide, so anything larger is wasted work.
pub const PREVIEW_MAX_PX: u32 = 900;

/// A decoded image of these dimensions is previewed as it is; a larger one
/// is scaled down to fit `PREVIEW_MAX_PX` first.
pub fn fits_preview(w: u32, h: u32) -> (r: bool)
    ensures
        r == (w <= PREVIEW_MAX_PX && h <= PREVIEW_MAX_PX),
{
    w <= PREVIEW_MAX_PX && h <= PREVIEW_MAX_PX
}

/// What to do with the cached preview when the interface is drawn.
#[derive(Clone, Copy, Debug, PartialEq, Eq, Structural)]
pub enum PreviewStep {
    /// No image is under the cursor: drop the preview.
    Clear,
    /// The preview already shows the image under the cursor.
    Keep,
    /// Load and decode the image under the cursor.
    Rebuild,
}

/// The preview step for the image under the cursor (`current`) and the image
/// the cached preview shows (`shown`); paths are compared as `PathBuf`s,
/// component by component.
pub fn preview_step(current: Option<&str>, shown: Option<&str>) -> (r: PreviewStep)
    ensures
        match current {
            None => r == PreviewStep::Clear,
            Some(c) => if (shown matches Some(s) && comps_of(s@) == comps_of(c@)) {
                r == PreviewStep::Keep
            } else {
                r == PreviewStep::Rebuild
            },
        },
{
    match current {
        None => PreviewStep::Clear,
        Some(c) => match shown {
            Some(s) => if path_eq_exec(s, c) {
                PreviewStep::Keep
            } else {
                PreviewStep::Rebuild
            },
            None => PreviewStep::Rebuild,
        },
    }
}

} // verus!
