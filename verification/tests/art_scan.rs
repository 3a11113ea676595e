use press_party::art::{cover_of, detect_mime, mime_str, pick_cover, Art, ArtError, MimeType, PictureData};
use press_party::scan::{
    classify_entry, is_audio, is_image, scan_dir, sort_paths, DirEntry, EntryAction, EntryKind,
};
use std::path::PathBuf;

fn png_bytes(w: u32, h: u32) -> Vec<u8> {
    let img = image::RgbImage::new(w, h);
    let mut out = std::io::Cursor::new(Vec::new());
    img.write_to(&mut out, image::ImageFormat::Png).unwrap();
    out.into_inner()
}

#[test]
fn mime_is_sniffed_from_magic_bytes() {
    assert_eq!(detect_mime(&[0xFF, 0xD8, 0xFF, 0xE0]), MimeType::Jpeg);
    assert_eq!(detect_mime(&[0x89, b'P', b'N', b'G', 0x0D]), MimeType::Png);
    assert_eq!(detect_mime(b"GIF89a"), MimeType::Gif);
    assert_eq!(detect_mime(b"BM...."), MimeType::Bmp);
    assert_eq!(detect_mime(b"RIFF\0\0\0\0WEBPVP8 "), MimeType::Unknown("image/webp".to_string()));
    assert_eq!(detect_mime(&[0x49, 0x49, 0x2A, 0x00, 1]), MimeType::Tiff);
    assert_eq!(detect_mime(&[0x4D, 0x4D, 0x00, 0x2A]), MimeType::Tiff);
    assert_eq!(
        detect_mime(b"RIFF\0\0\0\0WAVE"),
        MimeType::Unknown("application/octet-stream".to_string())
    );
    assert_eq!(detect_mime(&[]), MimeType::Unknown("application/octet-stream".to_string()));
}

#[test]
fn mime_text_of_each_type() {
    assert_eq!(mime_str(&MimeType::Png), "image/png");
    assert_eq!(mime_str(&MimeType::Jpeg), "image/jpeg");
    assert_eq!(mime_str(&MimeType::Tiff), "image/tiff");
    assert_eq!(mime_str(&MimeType::Bmp), "image/bmp");
    assert_eq!(mime_str(&MimeType::Gif), "image/gif");
    assert_eq!(mime_str(&MimeType::Unknown("image/webp".into())), "image/webp");
}

#[test]
fn empty_bytes_are_refused() {
    let r = Art::from_bytes(Vec::new());
    assert!(matches!(r, Err(ArtError::Empty)));
    assert_eq!(ArtError::Empty.message(), "image is empty");
}

#[test]
fn decoded_dimensions_of_a_real_png() {
    let bytes = png_bytes(3, 2);
    let art = Art::from_bytes(bytes.clone()).unwrap();
    assert_eq!(art.bytes, bytes);
    assert_eq!(art.mime, MimeType::Png);
    assert_eq!(art.mime_str(), "image/png");
    assert_eq!(art.dimensions, Some((3, 2)));
}

#[test]
fn undecodable_bytes_have_no_dimensions() {
    let art = Art::from_bytes(vec![0x89, b'P', b'N', b'G', 1, 2, 3]).unwrap();
    assert_eq!(art.mime, MimeType::Png);
    assert_eq!(art.dimensions, None);
}

#[test]
fn cover_prefers_front_then_first() {
    let p = |front: bool, b: u8| PictureData { front, data: vec![b] };
    assert_eq!(pick_cover(&vec![]), None);
    assert_eq!(pick_cover(&vec![p(false, 1), p(false, 2)]), Some(0));
    assert_eq!(pick_cover(&vec![p(false, 1), p(true, 2), p(true, 3)]), Some(1));
    let c = cover_of(Some(vec![p(false, 9), p(true, 0x42)])).unwrap().unwrap();
    assert_eq!(c.bytes, vec![0x42]);
    assert!(matches!(cover_of(None), Ok(None)));
    assert!(matches!(cover_of(Some(vec![])), Ok(None)));
    let empty = PictureData { front: true, data: vec![] };
    assert!(matches!(cover_of(Some(vec![empty])), Err(ArtError::Empty)));
}

#[test]
fn audio_and_image_extensions() {
    for p in ["a.mp3", "b/C.FLAC", "x.m4a", "x.opus", "x.ape", "x.WaV", "x.aifc"] {
        assert!(is_audio(p), "{p}");
        assert!(!is_image(p), "{p}");
    }
    for p in ["cover.jpg", "c.JPEG", "c.png", "c.webp", "c.gif", "c.bmp", "c.tif", "c.TIFF"] {
        assert!(is_image(p), "{p}");
        assert!(!is_audio(p), "{p}");
    }
    for p in ["notes.txt", "mp3", ".mp3", "dir/", "a.mp3.part", ""] {
        assert!(!is_audio(p), "{p}");
        assert!(!is_image(p), "{p}");
    }
}

#[test]
fn entries_are_classified() {
    assert_eq!(classify_entry(".git", "r/.git", EntryKind::Dir, true), EntryAction::Skip);
    assert_eq!(classify_entry(".a.mp3", "r/.a.mp3", EntryKind::File, true), EntryAction::Skip);
    assert_eq!(classify_entry("l.mp3", "r/l.mp3", EntryKind::Symlink, true), EntryAction::Skip);
    assert_eq!(classify_entry("sub", "r/sub", EntryKind::Dir, true), EntryAction::Descend);
    assert_eq!(classify_entry("sub", "r/sub", EntryKind::Dir, false), EntryAction::Skip);
    assert_eq!(classify_entry("a.mp3", "r/a.mp3", EntryKind::File, false), EntryAction::Audio);
    assert_eq!(classify_entry("c.png", "r/c.png", EntryKind::File, false), EntryAction::Image);
    assert_eq!(classify_entry("t.txt", "r/t.txt", EntryKind::File, false), EntryAction::Skip);
}

fn entry(dir: &str, name: &str, kind: EntryKind) -> DirEntry {
    DirEntry { path: format!("{dir}/{name}"), name: name.to_string(), kind }
}

#[test]
fn walk_collects_and_sorts() {
    let mut w = scan_dir("root".to_string(), true);
    let mut listed = Vec::new();
    while let Some(d) = w.next_dir() {
        listed.push(d.clone());
        let entries = if d == "root" {
            vec![
                entry("root", "z.mp3", EntryKind::File),
                entry("root", "sub", EntryKind::Dir),
                entry("root", ".hidden", EntryKind::Dir),
                entry("root", "cover.JPG", EntryKind::File),
                entry("root", "a.flac", EntryKind::File),
                entry("root", "link.mp3", EntryKind::Symlink),
            ]
        } else if d == "root/sub" {
            vec![entry("root/sub", "b.mp3", EntryKind::File), entry("root/sub", "x.txt", EntryKind::File)]
        } else {
            vec![]
        };
        w.visit(entries);
    }
    assert_eq!(listed, vec!["root".to_string(), "root/sub".to_string()]);
    let scan = w.finish();
    assert_eq!(scan.audio, vec!["root/a.flac", "root/sub/b.mp3", "root/z.mp3"]);
    assert_eq!(scan.images, vec!["root/cover.JPG"]);
}

#[test]
fn walk_without_recursion_stays_at_top() {
    let mut w = scan_dir("r".to_string(), false);
    let d = w.next_dir().unwrap();
    assert_eq!(d, "r");
    w.visit(vec![entry("r", "sub", EntryKind::Dir), entry("r", "a.mp3", EntryKind::File)]);
    assert!(w.next_dir().is_none());
    let scan = w.finish();
    assert_eq!(scan.audio, vec!["r/a.mp3"]);
    assert!(scan.images.is_empty());
}

#[test]
fn sorting_matches_pathbuf_sort() {
    let v: Vec<String> = ["b/a", "a-b", "a/b", "a", "A/z", "a/b/c", "ab", "a.b/c", "a/a"]
        .iter()
        .map(|s| s.to_string())
        .collect();
    let mut expect: Vec<PathBuf> = v.iter().map(PathBuf::from).collect();
    expect.sort();
    let got: Vec<PathBuf> = sort_paths(&v).iter().map(PathBuf::from).collect();
    assert_eq!(got, expect);
}

#[test]
fn sorting_is_stable_for_equal_paths() {
    let v: Vec<String> = ["a//b", "b", "a/b", "a/./b", "a"].iter().map(|s| s.to_string()).collect();
    let mut expect = v.clone();
    expect.sort_by(|x, y| std::path::Path::new(x).cmp(std::path::Path::new(y)));
    let got = sort_paths(&v);
    assert_eq!(got, expect);
    assert_eq!(got, vec!["a", "a//b", "a/b", "a/./b", "b"]);
}
