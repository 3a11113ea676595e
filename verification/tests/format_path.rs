use press_party::format::{format_duration, format_size, opt_str, DASH};
use press_party::path::{extension, file_name, join, parent, path_eq_exec, path_lt_exec};
use std::path::Path;

fn float_size(bytes: u64) -> String {
    let kib: f64 = 1024.0;
    let mib: f64 = kib * 1024.0;
    let b = bytes as f64;
    if b >= mib {
        format!("{:.1} MiB", b / mib)
    } else if b >= kib {
        format!("{:.0} KiB", b / kib)
    } else {
        format!("{bytes} B")
    }
}

#[test]
fn duration_is_minutes_and_two_digit_seconds() {
    assert_eq!(format_duration(0), "0:00");
    assert_eq!(format_duration(5), "0:05");
    assert_eq!(format_duration(61), "1:01");
    assert_eq!(format_duration(3599), "59:59");
    assert_eq!(format_duration(3600), "60:00");
}

#[test]
fn size_small_values_are_bytes() {
    assert_eq!(format_size(0), "0 B");
    assert_eq!(format_size(1023), "1023 B");
}

#[test]
fn size_kib_and_mib_exact_values() {
    assert_eq!(format_size(1024), "1 KiB");
    assert_eq!(format_size(1536), "2 KiB");
    assert_eq!(format_size(2560), "2 KiB");
    assert_eq!(format_size(1024 * 1024), "1.0 MiB");
    assert_eq!(format_size(1024 * 1024 * 3 / 2), "1.5 MiB");
}

#[test]
fn size_matches_float_formatting() {
    let mut samples: Vec<u64> = vec![
        1024 * 1024 - 1,
        1024 * 1024 + 52428,
        1024 * 1024 + 52429,
        5 * 1024 * 1024 + 1024 * 1024 / 20,
        u64::MAX,
        u64::MAX / 3,
        (1u64 << 53) + 1,
        (1u64 << 60) + 12345,
    ];
    let mut x: u64 = 1;
    for _ in 0..2000 {
        x = x.wrapping_mul(6364136223846793005).wrapping_add(1442695040888963407);
        samples.push(x >> (x % 50));
    }
    for k in 0..4096u64 {
        samples.push(k * 512 + 512);
    }
    for b in samples {
        assert_eq!(format_size(b), float_size(b), "bytes = {b}");
    }
}

#[test]
fn opt_str_dashes_absent_and_empty() {
    assert_eq!(opt_str(&None), DASH);
    assert_eq!(opt_str(&Some(String::new())), DASH);
    assert_eq!(opt_str(&Some("x".to_string())), "x");
}

#[test]
fn file_name_and_extension_match_std() {
    let cases = [
        "a/b.mp3", "a/b/", "/", "", ".", "..", "a/..", "a/.", "./x.flac", "x", ".hidden",
        "a.b.c", "dir/.bashrc", "a//b.ogg//", "/abs/file.TXT", "noext.", "a/b.tar.gz",
    ];
    for c in cases {
        let std_name = Path::new(c).file_name().map(|n| n.to_str().unwrap().to_string());
        assert_eq!(file_name(c), std_name, "file_name({c:?})");
        let std_ext = Path::new(c).extension().map(|n| n.to_str().unwrap().to_string());
        assert_eq!(extension(c), std_ext, "extension({c:?})");
    }
}

#[test]
fn join_matches_std() {
    let cases = [("a", "b"), ("a/", "b"), ("", "b"), ("/x", "/y"), ("a", ""), ("d", "n.bak")];
    for (a, b) in cases {
        let expect = Path::new(a).join(b).to_str().unwrap().to_string();
        assert_eq!(join(a, b), expect, "join({a:?}, {b:?})");
    }
}

#[test]
fn path_order_matches_pathbuf() {
    let paths = [
        "a", "a/b", "a/b/c", "a//b", "a/./b", "./a", "/a", "/", "b", "a-b", "a/b-c", "ab",
        "A", "a/B", "", "a/", "..", "../a", "a/..",
    ];
    for x in paths {
        for y in paths {
            let px = Path::new(x);
            let py = Path::new(y);
            assert_eq!(path_lt_exec(x, y), px < py, "{x:?} < {y:?}");
            assert_eq!(path_eq_exec(x, y), px == py, "{x:?} == {y:?}");
        }
    }
}

#[test]
fn parent_matches_std() {
    let cases = [
        "a/b", "a", "/a", "/", "", ".", "./a", "..", "a/..", "a//b/c", "a/./b", "./.", "/./a",
        ".a/b", "a/", "//a", "./", "/..", "./a/b", "a/b/.", "/.", "a/b//", "x/./.", "../..",
        "/d/press-party/backups/x.bak",
    ];
    for c in cases {
        let expect = Path::new(c).parent().map(|d| d.to_str().unwrap().to_string());
        assert_eq!(parent(c), expect, "parent({c:?})");
    }
}
