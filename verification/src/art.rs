//! Album art held in memory: its bytes, the MIME type sniffed from its magic
//! bytes, and its pixel dimensions when the image decoder can read it.
use vstd::prelude::*;
use vstd::string::StringExecFns;

verus! {

/// The MIME type of a picture, as tag formats record it.
#[derive(Clone, Debug, PartialEq, Eq)]
pub enum MimeType {
    Png,
    Jpeg,
    Tiff,
    Bmp,
    Gif,
    Unknown(String),
}

/// `bytes` begins with `prefix`.
pub open spec fn has_prefix(bytes: Seq<u8>, prefix: Seq<u8>) -> bool {
    prefix.len() <= bytes.len() && bytes.subrange(0, prefix.len() as int) == prefix
}

/// What the magic bytes say, in this order: JPEG, PNG, GIF, BMP, WebP (RIFF
/// container with a WEBP form type), TIFF (either byte order), and
/// `application/octet-stream` for anything else.
pub enum Sniffed {
    Png,
    Jpeg,
    Tiff,
    Bmp,
    Gif,
    Webp,
    Other,
}

pub open spec fn sniff(b: Seq<u8>) -> Sniffed {
    if has_prefix(b, seq![0xFFu8, 0xD8, 0xFF]) {
        Sniffed::Jpeg
    } else if has_prefix(b, seq![0x89u8, 0x50, 0x4E, 0x47]) {
        Sniffed::Png
    } else if has_prefix(b, seq![0x47u8, 0x49, 0x46, 0x38]) {
        Sniffed::Gif
    } else if has_prefix(b, seq![0x42u8, 0x4D]) {
        Sniffed::Bmp
    } else if b.len() >= 12 && b.subrange(0, 4) == seq![0x52u8, 0x49, 0x46, 0x46] && b.subrange(
        8,
        12,
    ) == seq![0x57u8, 0x45, 0x42, 0x50] {
        Sniffed::Webp
    } else if has_prefix(b, seq![0x49u8, 0x49, 0x2A, 0x00]) || has_prefix(
        b,
        seq![0x4Du8, 0x4D, 0x00, 0x2A],
    ) {
        Sniffed::Tiff
    } else {
        Sniffed::Other
    }
}

/// The text of a MIME type.
pub open spec fn mime_text(m: MimeType) -> Seq<char> {
    match m {
        MimeType::Png => "image/png"@,
        MimeType::Jpeg => "image/jpeg"@,
        MimeType::Tiff => "image/tiff"@,
        MimeType::Bmp => "image/bmp"@,
        MimeType::Gif => "image/gif"@,
        MimeType::Unknown(s) => s@,
    }
}

/// The MIME type `detect_mime` gives for `b`.
pub open spec fn detected(m: MimeType, b: Seq<u8>) -> bool {
    match sniff(b) {
        Sniffed::Jpeg => m == MimeType::Jpeg,
        Sniffed::Png => m == MimeType::Png,
        Sniffed::Gif => m == MimeType::Gif,
        Sniffed::Bmp => m == MimeType::Bmp,
        Sniffed::Tiff => m == MimeType::Tiff,
        Sniffed::Webp => m is Unknown && mime_text(m) == "image/webp"@,
        Sniffed::Other => m is Unknown && mime_text(m) == "application/octet-stream"@,
    }
}

fn starts_with(bytes: &[u8], prefix: &[u8]) -> (r: bool)
    ensures
        r == has_prefix(bytes@, prefix@),
{
    if prefix.len() > bytes.len() {
        return false;
    }
    let mut i: usize = 0;
    while i < prefix.len()
        invariant
            prefix@.len() <= bytes@.len(),
            0 <= i <= prefix.len(),
            forall|j: int| 0 <= j < i ==> bytes@[j] == prefix@[j],
        decreases prefix.len() - i,
    {
        if bytes[i] != prefix[i] {
            assert(bytes@.subrange(0, prefix@.len() as int)[i as int] != prefix@[i as int]);
            return false;
        }
        i += 1;
    }
    assert(bytes@.subrange(0, prefix@.len() as int) =~= prefix@);
    true
}

/// Sniffs the MIME type from magic bytes. Falls back to
/// `application/octet-stream` rather than failing, since embedding tolerates
/// an approximate type.
pub fn detect_mime(bytes: &[u8]) -> (m: MimeType)
    ensures
        detected(m, bytes@),
{
    let jpeg: [u8; 3] = [0xFF, 0xD8, 0xFF];
    let png: [u8; 4] = [0x89, 0x50, 0x4E, 0x47];
    let gif: [u8; 4] = [0x47, 0x49, 0x46, 0x38];
    let bmp: [u8; 2] = [0x42, 0x4D];
    let riff: [u8; 4] = [0x52, 0x49, 0x46, 0x46];
    let webp: [u8; 4] = [0x57, 0x45, 0x42, 0x50];
    let tiff_le: [u8; 4] = [0x49, 0x49, 0x2A, 0x00];
    let tiff_be: [u8; 4] = [0x4D, 0x4D, 0x00, 0x2A];
    assert(jpeg@ =~= seq![0xFFu8, 0xD8, 0xFF]);
    assert(png@ =~= seq![0x89u8, 0x50, 0x4E, 0x47]);
    assert(gif@ =~= seq![0x47u8, 0x49, 0x46, 0x38]);
    assert(bmp@ =~= seq![0x42u8, 0x4D]);
    assert(riff@ =~= seq![0x52u8, 0x49, 0x46, 0x46]);
    assert(webp@ =~= seq![0x57u8, 0x45, 0x42, 0x50]);
    assert(tiff_le@ =~= seq![0x49u8, 0x49, 0x2A, 0x00]);
    assert(tiff_be@ =~= seq![0x4Du8, 0x4D, 0x00, 0x2A]);
    if starts_with(bytes, jpeg.as_slice()) {
        MimeType::Jpeg
    } else if starts_with(bytes, png.as_slice()) {
        MimeType::Png
    } else if starts_with(bytes, gif.as_slice()) {
        MimeType::Gif
    } else if starts_with(bytes, bmp.as_slice()) {
        MimeType::Bmp
    } else if bytes.len() >= 12 && bytes[0] == 0x52 && bytes[1] == 0x49 && bytes[2] == 0x46
        && bytes[3] == 0x46 && bytes[8] == 0x57 && bytes[9] == 0x45 && bytes[10] == 0x42
        && bytes[11] == 0x50 {
        assert(bytes@.subrange(0, 4) =~= seq![0x52u8, 0x49, 0x46, 0x46]);
        assert(bytes@.subrange(8, 12) =~= seq![0x57u8, 0x45, 0x42, 0x50]);
        MimeType::Unknown(String::from_str("image/webp"))
    } else if starts_with(bytes, tiff_le.as_slice()) || starts_with(bytes, tiff_be.as_slice()) {
        proof {
            if bytes@.len() >= 12 {
                assert(!(bytes@.subrange(0, 4) == seq![0x52u8, 0x49, 0x46, 0x46] && bytes@.subrange(
                    8,
                    12,
                ) == seq![0x57u8, 0x45, 0x42, 0x50])) by {
                    if bytes@.subrange(0, 4) == seq![0x52u8, 0x49, 0x46, 0x46] {
                        assert(bytes@[0] == bytes@.subrange(0, 4)[0]);
                        assert(bytes@[3] == bytes@.subrange(0, 4)[3]);
                    }
                }
            }
        }
        MimeType::Tiff
    } else {
        proof {
            if bytes@.len() >= 12 {
                if bytes@.subrange(0, 4) == seq![0x52u8, 0x49, 0x46, 0x46] && bytes@.subrange(8, 12)
                    == seq![0x57u8, 0x45, 0x42, 0x50] {
                    assert(bytes@[0] == bytes@.subrange(0, 4)[0]);
                    assert(bytes@[1] == bytes@.subrange(0, 4)[1]);
                    assert(bytes@[2] == bytes@.subrange(0, 4)[2]);
                    assert(bytes@[3] == bytes@.subrange(0, 4)[3]);
                    assert(bytes@[8] == bytes@.subrange(8, 12)[0]);
                    assert(bytes@[9] == bytes@.subrange(8, 12)[1]);
                    assert(bytes@[10] == bytes@.subrange(8, 12)[2]);
                    assert(bytes@[11] == bytes@.subrange(8, 12)[3]);
                }
            }
        }
        MimeType::Unknown(String::from_str("application/octet-stream"))
    }
}

/// The text of a MIME type.
pub fn mime_str(mime: &MimeType) -> (r: &str)
    ensures
        r@ == mime_text(*mime),
{
    match mime {
        MimeType::Png => "image/png",
        MimeType::Jpeg => "image/jpeg",
        MimeType::Tiff => "image/tiff",
        MimeType::Bmp => "image/bmp",
        MimeType::Gif => "image/gif",
        MimeType::Unknown(s) => s.as_str(),
    }
}

/// The pixel dimensions the `image` crate decodes from `bytes`, if it can.
pub uninterp spec fn decoded_dimensions(bytes: Seq<u8>) -> Option<(u32, u32)>;

/// Calls `image::load_from_memory` and reads the decoded width and height;
/// the dimensions, or their absence when decoding fails, are the named
/// result for these bytes.
#[verifier::external_body]
fn image_dimensions(bytes: &[u8]) -> (r: Option<(u32, u32)>)
    ensures
        r == decoded_dimensions(bytes@),
{
    match image::load_from_memory(bytes) {
        Ok(img) => Some((img.width(), img.height())),
        Err(_) => None,
    }
}

/// Why bytes could not be taken as an image.
#[derive(Clone, Copy, Debug, PartialEq, Eq, Structural)]
pub enum ArtError {
    /// There were no bytes at all.
    Empty,
}

impl ArtError {
    /// The message the error is reported with.
    pub fn message(&self) -> (r: &str)
        ensures
            r@ == "image is empty"@,
    {
        "image is empty"
    }
}

/// An image loaded into memory, ready to embed as cover art or preview.
#[derive(Clone, Debug)]
pub struct Art {
    pub bytes: Vec<u8>,
    pub mime: MimeType,
    /// Decoded pixel dimensions, if the image decoder could parse them.
    pub dimensions: Option<(u32, u32)>,
}

impl Art {
    /// Takes `bytes` as an image: refused when empty, otherwise its MIME
    /// type is sniffed and its dimensions decoded.
    pub fn from_bytes(bytes: Vec<u8>) -> (r: Result<Art, ArtError>)
        ensures
            bytes@.len() == 0 <==> r is Err,
            r matches Ok(a) ==> a.bytes@ == bytes@ && detected(a.mime, bytes@) && a.dimensions
                == decoded_dimensions(bytes@),
    {
        if bytes.len() == 0 {
            return Err(ArtError::Empty);
        }
        let mime = detect_mime(bytes.as_slice());
        let dimensions = image_dimensions(bytes.as_slice());
        Ok(Art { bytes, mime, dimensions })
    }

    /// The text of this image's MIME type.
    pub fn mime_str(&self) -> (r: &str)
        ensures
            r@ == mime_text(self.mime),
    {
        mime_str(&self.mime)
    }
}

/// A picture embedded in a tag: whether it is the front cover, and its
/// bytes.
pub struct PictureData {
    pub front: bool,
    pub data: Vec<u8>,
}

/// The position of the first front cover.
pub open spec fn first_front(pics: Seq<PictureData>) -> Option<int>
    decreases pics.len(),
{
    if pics.len() == 0 {
        None
    } else {
        match first_front(pics.drop_last()) {
            Some(i) => Some(i),
            None => if pics.last().front {
                Some(pics.len() - 1)
            } else {
                None
            },
        }
    }
}

/// The picture taken as a track's cover: the first front cover, else the
/// first picture.
pub open spec fn cover_index(pics: Seq<PictureData>) -> Option<int> {
    match first_front(pics) {
        Some(i) => Some(i),
        None => if pics.len() > 0 {
            Some(0)
        } else {
            None
        },
    }
}

pub proof fn lemma_first_front_bound(pics: Seq<PictureData>)
    ensures
        first_front(pics) matches Some(i) ==> 0 <= i < pics.len() && pics[i].front,
    decreases pics.len(),
{
    if pics.len() > 0 {
        lemma_first_front_bound(pics.drop_last());
    }
}

/// Which of a tag's pictures is its cover.
pub fn pick_cover(pics: &Vec<PictureData>) -> (r: Option<usize>)
    ensures
        match r {
            Some(k) => cover_index(pics@) == Some(k as int) && k < pics@.len(),
            None => cover_index(pics@) is None,
        },
{
    let mut i: usize = 0;
    while i < pics.len()
        invariant
            i <= pics@.len(),
            first_front(pics@.take(i as int)) is None,
        decreases pics@.len() - i,
    {
        let ghost t = pics@.take(i + 1);
        assert(t.drop_last() =~= pics@.take(i as int));
        if pics[i].front {
            proof {
                lemma_first_front_prefix(pics@, i + 1);
            }
            return Some(i);
        }
        i += 1;
    }
    assert(pics@.take(pics@.len() as int) =~= pics@);
    if pics.len() > 0 {
        Some(0)
    } else {
        None
    }
}

/// A front cover found in a prefix is the first one of the whole list.
pub proof fn lemma_first_front_prefix(pics: Seq<PictureData>, k: int)
    requires
        0 <= k <= pics.len(),
        first_front(pics.take(k)) is Some,
    ensures
        first_front(pics) == first_front(pics.take(k)),
    decreases pics.len() - k,
{
    if k < pics.len() {
        assert(pics.take(k + 1).drop_last() =~= pics.take(k));
        lemma_first_front_prefix(pics, k + 1);
    } else {
        assert(pics.take(k) =~= pics);
    }
}

/// The cover of a track, from the pictures of its tag (none when it has no
/// tag): the picture `cover_index` picks, taken as an image.
pub fn cover_of(tag: Option<Vec<PictureData>>) -> (r: Result<Option<Art>, ArtError>)
    ensures
        match tag {
            None => (r matches Ok(o) && o is None),
            Some(p) => match cover_index(p@) {
                None => (r matches Ok(o) && o is None),
                Some(i) => if p@[i].data@.len() == 0 {
                    (r matches Err(e) && e == ArtError::Empty)
                } else {
                    (r matches Ok(Some(a)) && a.bytes@ == p@[i].data@ && detected(
                        a.mime,
                        p@[i].data@,
                    ) && a.dimensions == decoded_dimensions(p@[i].data@))
                },
            },
        },
{
    let mut pics = match tag {
        None => {
            return Ok(None);
        },
        Some(p) => p,
    };
    let i = match pick_cover(&pics) {
        None => {
            return Ok(None);
        },
        Some(i) => i,
    };
    let ghost before = pics@;
    let pic = pics.remove(i);
    let data = pic.data;
    assert(data@ == before[i as int].data@);
    match Art::from_bytes(data) {
        Ok(a) => Ok(Some(a)),
        Err(e) => Err(e),
    }
}

} // verus!
