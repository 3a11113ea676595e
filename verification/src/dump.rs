//! The text of a track report (`dump`): its rows of tag values, and how its
//! embedded art is described.
use vstd::prelude::*;
use vstd::string::StringExecFns;

use crate::format::opt_view;
use crate::meta::Track;
use crate::text::{dec, push_dec, push_str};

verus! {

/// One `name: value` row of a track report.
pub struct ReportRow {
    /// The name followed by a colon.
    pub label: String,
    /// The value, absent when the tag has none or it is empty (shown as a
    /// dash).
    pub value: Option<String>,
}

/// The row for `name` and a value that may be absent or empty.
pub open spec fn row_of(r: ReportRow, name: Seq<char>, value: Option<Seq<char>>) -> bool {
    &&& r.label@ == name + ":"@
    &&& match value {
        Some(v) if v.len() > 0 => (r.value matches Some(s) && s@ == v),
        _ => r.value is None,
    }
}

/// The row for `name` and a borrowed value.
pub fn row(name: &str, value: Option<&str>) -> (r: ReportRow)
    ensures
        row_of(
            r,
            name@,
            match value {
                Some(v) => Some(v@),
                None => None,
            },
        ),
{
    let mut label = String::from_str(name);
    push_str(&mut label, ":");
    let value = match value {
        Some(v) => if !v.is_empty() {
            Some(String::from_str(v))
        } else {
            None
        },
        None => None,
    };
    ReportRow { label, value }
}

/// The row for `name` and an owned value.
pub fn row_owned(name: &str, value: Option<String>) -> (r: ReportRow)
    ensures
        row_of(r, name@, opt_view(value)),
{
    match value {
        Some(v) => row(name, Some(v.as_str())),
        None => row(name, None),
    }
}

/// A number in decimal, when present.
pub open spec fn dec_view(n: Option<u32>) -> Option<Seq<char>> {
    match n {
        Some(v) => Some(dec(v as nat)),
        None => None,
    }
}

fn dec_opt(n: Option<u32>) -> (r: Option<String>)
    ensures
        opt_view(r) == dec_view(n),
{
    match n {
        Some(v) => {
            let mut s = String::new();
            push_dec(&mut s, v as u64);
            Some(s)
        },
        None => None,
    }
}

fn text_opt(s: &Option<String>) -> (r: Option<String>)
    ensures
        opt_view(r) == opt_view(*s),
{
    match s {
        Some(v) => Some(v.clone()),
        None => None,
    }
}

/// The tag rows of a track's report, in order: artist, album, album artist,
/// genre, year and track number.
pub fn report_rows(t: &Track) -> (r: Vec<ReportRow>)
    ensures
        r@.len() == 6,
        row_of(r@[0], "artist"@, opt_view(t.artist)),
        row_of(r@[1], "album"@, opt_view(t.album)),
        row_of(r@[2], "album-artist"@, opt_view(t.album_artist)),
        row_of(r@[3], "genre"@, opt_view(t.genre)),
        row_of(r@[4], "year"@, dec_view(t.year)),
        row_of(r@[5], "track"@, dec_view(t.track_no)),
{
    let mut rows: Vec<ReportRow> = Vec::new();
    rows.push(row_owned("artist", text_opt(&t.artist)));
    rows.push(row_owned("album", text_opt(&t.album)));
    rows.push(row_owned("album-artist", text_opt(&t.album_artist)));
    rows.push(row_owned("genre", text_opt(&t.genre)));
    rows.push(row_owned("year", dec_opt(t.year)));
    rows.push(row_owned("track", dec_opt(t.track_no)));
    rows
}

/// How a report describes a track's embedded pictures.
pub open spec fn art_text(count: nat) -> Seq<char> {
    if count == 0 {
        "none"@
    } else {
        dec(count) + " embedded"@
    }
}

pub fn art_label(count: usize) -> (r: String)
    ensures
        r@ == art_text(count as nat),
{
    if count == 0 {
        String::from_str("none")
    } else {
        let mut s = String::new();
        push_dec(&mut s, count as u64);
        push_str(&mut s, " embedded");
        s
    }
}

} // verus!
