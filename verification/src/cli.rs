//! The decisions of the command line: which audio files the arguments name,
//! when a `set` or `art` run is refused, and what it reports.
use vstd::prelude::*;
use vstd::string::StringExecFns;

use crate::meta::{no_changes, Changes};
use crate::path::{comps_of, parent, parent_of, path_eq_exec};
use crate::scan::{is_audio, is_audio_path};
use crate::text::{dec, push_dec, push_str, views};

verus! {

/// A command-line argument, as found on disk.
pub enum Input {
    /// A directory, with the audio files its scan found (sorted).
    Dir(Vec<String>),
    /// An existing path that is not a directory.
    File(String),
    /// A path that does not exist.
    Missing(String),
}

/// What the arguments name, in order, up to the first missing path: the
/// audio files, the other files (skipped with a warning), and the missing
/// path, if any.
pub open spec fn gathered(inputs: Seq<Input>) -> (Seq<Seq<char>>, Seq<Seq<char>>, Option<Seq<char>>)
    decreases inputs.len(),
{
    if inputs.len() == 0 {
        (Seq::empty(), Seq::empty(), None)
    } else {
        let (out, skipped, missing) = gathered(inputs.drop_last());
        if missing is Some {
            (out, skipped, missing)
        } else {
            match inputs.last() {
                Input::Dir(v) => (out + views(v@), skipped, None),
                Input::File(p) => if is_audio_path(p@) {
                    (out.push(p@), skipped, None)
                } else {
                    (out, skipped.push(p@), None)
                },
                Input::Missing(p) => (out, skipped, Some(p@)),
            }
        }
    }
}

/// `s` with each run of consecutive equal paths (same components) kept once
/// (`Vec::dedup`).
pub open spec fn dedup_paths(s: Seq<Seq<char>>) -> Seq<Seq<char>>
    decreases s.len(),
{
    if s.len() <= 1 {
        s
    } else {
        let d = dedup_paths(s.drop_last());
        if comps_of(d.last()) == comps_of(s.last()) {
            d
        } else {
            d.push(s.last())
        }
    }
}

pub proof fn lemma_dedup_len(s: Seq<Seq<char>>)
    ensures
        dedup_paths(s).len() <= s.len(),
        s.len() > 0 ==> dedup_paths(s).len() > 0,
    decreases s.len(),
{
    if s.len() > 1 {
        lemma_dedup_len(s.drop_last());
    }
}

/// After dropping consecutive duplicates, no two neighbouring paths are
/// equal, and every path kept is one of the input's.
pub proof fn law_dedup_no_repeats(s: Seq<Seq<char>>)
    ensures
        forall|i: int|
            0 <= i < dedup_paths(s).len() - 1 ==> comps_of(#[trigger] dedup_paths(s)[i]) != comps_of(
                dedup_paths(s)[i + 1],
            ),
        forall|i: int| 0 <= i < dedup_paths(s).len() ==> s.contains(#[trigger] dedup_paths(s)[i]),
    decreases s.len(),
{
    if s.len() > 1 {
        law_dedup_no_repeats(s.drop_last());
        lemma_dedup_len(s.drop_last());
        let d = dedup_paths(s.drop_last());
        assert forall|i: int| 0 <= i < dedup_paths(s).len() implies s.contains(
            #[trigger] dedup_paths(s)[i],
        ) by {
            if i < d.len() {
                assert(s.drop_last().contains(d[i]));
                let k = choose|k: int| 0 <= k < s.drop_last().len() && s.drop_last()[k] == d[i];
                assert(s[k] == d[i]);
            } else {
                assert(dedup_paths(s)[i] == s[s.len() - 1]);
            }
        }
    } else if s.len() == 1 {
        assert(s.contains(s[0]));
    }
}

/// The message for a path that does not exist.
pub open spec fn missing_text(p: Seq<char>) -> Seq<char> {
    "no such file: "@ + p
}

/// Expands the arguments into the audio files they name: directories give
/// the audio their scan found, audio files themselves, other files are
/// skipped (listed in the first part of the result), and a missing path ends
/// the expansion with an error. Consecutive duplicates are dropped.
pub fn expand(inputs: Vec<Input>) -> (r: (Vec<String>, Result<Vec<String>, String>))
    ensures
        ({
            let (out, skipped, missing) = gathered(inputs@);
            &&& views(r.0@) == skipped
            &&& match missing {
                Some(p) => (r.1 matches Err(m) && m@ == missing_text(p)),
                None => (r.1 matches Ok(v) && views(v@) == dedup_paths(out)),
            }
        }),
{
    let ghost all = inputs@;
    let mut rest = inputs;
    let mut out: Vec<String> = Vec::new();
    let mut skipped: Vec<String> = Vec::new();
    let mut i: usize = 0;
    let n = rest.len();
    while rest.len() > 0
        invariant
            rest@.len() + i == n,
            n == all.len(),
            all == inputs@,
            rest@ == all.skip(i as int),
            gathered(all.take(i as int)) == (views(out@), views(skipped@), None::<Seq<char>>),
        decreases rest@.len(),
    {
        let input = rest.remove(0);
        assert(input == all[i as int]);
        assert(rest@ =~= all.skip(i + 1));
        let ghost t = all.take(i + 1);
        assert(t.drop_last() =~= all.take(i as int));
        assert(t.last() == input);
        let ghost o0 = views(out@);
        let ghost s0 = views(skipped@);
        match input {
            Input::Dir(v) => {
                let mut j: usize = 0;
                while j < v.len()
                    invariant
                        j <= v@.len(),
                        views(out@) == o0 + views(v@.take(j as int)),
                        views(skipped@) == s0,
                    decreases v@.len() - j,
                {
                    let ghost before = views(out@);
                    out.push(v[j].clone());
                    assert(views(out@) =~= before.push(v@[j as int]@));
                    assert(views(v@.take(j + 1)) =~= views(v@.take(j as int)).push(v@[j as int]@));
                    assert(views(out@) =~= o0 + views(v@.take(j + 1)));
                    j += 1;
                }
                assert(v@.take(v@.len() as int) =~= v@);
            },
            Input::File(p) => {
                if is_audio(p.as_str()) {
                    out.push(p);
                    assert(views(out@) =~= o0.push(out@.last()@));
                } else {
                    skipped.push(p);
                    assert(views(skipped@) =~= s0.push(skipped@.last()@));
                }
            },
            Input::Missing(p) => {
                let mut m = String::from_str("no such file: ");
                push_str(&mut m, p.as_str());
                assert(gathered(t) == (views(out@), views(skipped@), Some(p@)));
                proof {
                    law_missing_ends_expansion(all, i + 1);
                }
                assert(gathered(all) == (views(out@), views(skipped@), Some(p@)));
                return (skipped, Err(m));
            },
        }
        i += 1;
    }
    assert(all.take(n as int) =~= all);
    (skipped, Ok(dedup(&out)))
}

/// A missing path ends the expansion: once one is met, later arguments
/// change nothing.
pub proof fn law_missing_ends_expansion(s: Seq<Input>, k: int)
    requires
        0 <= k <= s.len(),
        gathered(s.take(k)).2 is Some,
    ensures
        gathered(s) == gathered(s.take(k)),
    decreases s.len() - k,
{
    if k < s.len() {
        let t = s.take(k + 1);
        assert(t.drop_last() =~= s.take(k));
        law_missing_ends_expansion(s, k + 1);
    } else {
        assert(s.take(k) =~= s);
    }
}

/// The paths with consecutive duplicates dropped.
pub fn dedup(v: &Vec<String>) -> (r: Vec<String>)
    ensures
        views(r@) == dedup_paths(views(v@)),
{
    let mut out: Vec<String> = Vec::new();
    let mut i: usize = 0;
    while i < v.len()
        invariant
            i <= v@.len(),
            views(out@) == dedup_paths(views(v@.take(i as int))),
        decreases v@.len() - i,
    {
        let ghost s = views(v@.take(i + 1));
        assert(s.drop_last() =~= views(v@.take(i as int)));
        assert(s.last() == v@[i as int]@);
        proof {
            lemma_dedup_len(views(v@.take(i as int)));
        }
        if i == 0 {
            out.push(v[i].clone());
            assert(views(out@) =~= s);
        } else {
            let k = out.len() - 1;
            assert(views(out@).last() == out@[k as int]@);
            if !path_eq_exec(out[k].as_str(), v[i].as_str()) {
                let ghost o0 = views(out@);
                out.push(v[i].clone());
                assert(views(out@) =~= o0.push(v@[i as int]@));
            }
        }
        i += 1;
    }
    assert(v@.take(v@.len() as int) =~= v@);
    out
}

/// The message a `set` with no field is refused with.
pub open spec fn nothing_to_set_text() -> Seq<char> {
    "nothing to set — pass at least one field (e.g. --title, --art)"@
}

/// A `set` (or `art`) run is refused when its change set touches nothing.
pub fn check_changes(changes: &Changes) -> (r: Result<(), String>)
    ensures
        no_changes(*changes) ==> (r matches Err(m) && m@ == nothing_to_set_text()),
        !no_changes(*changes) ==> r is Ok,
{
    if changes.is_empty() {
        Err(String::from_str("nothing to set — pass at least one field (e.g. --title, --art)"))
    } else {
        Ok(())
    }
}

/// A run over no audio file at all is refused.
pub fn check_paths(paths: &Vec<String>) -> (r: Result<(), String>)
    ensures
        paths@.len() == 0 ==> (r matches Err(m) && m@ == "no audio files found"@),
        paths@.len() > 0 ==> r is Ok,
{
    if paths.len() == 0 {
        Err(String::from_str("no audio files found"))
    } else {
        Ok(())
    }
}

/// The note a dry run ends with.
pub open spec fn dry_run_text(would: nat, skipped: nat) -> Seq<char> {
    "dry-run: "@ + dec(would) + " file(s) would change, "@ + dec(skipped)
        + " skipped. Pass without --dry-run to write."@
}

pub fn dry_run_note(would: usize, skipped: usize) -> (r: String)
    ensures
        r@ == dry_run_text(would as nat, skipped as nat),
{
    let mut m = String::from_str("dry-run: ");
    push_dec(&mut m, would as u64);
    push_str(&mut m, " file(s) would change, ");
    push_dec(&mut m, skipped as u64);
    push_str(&mut m, " skipped. Pass without --dry-run to write.");
    m
}

/// How many plans were written.
pub open spec fn count_written(outcomes: Seq<Result<Option<String>, String>>) -> nat
    decreases outcomes.len(),
{
    if outcomes.len() == 0 {
        0
    } else {
        count_written(outcomes.drop_last()) + if outcomes.last() is Ok {
            1nat
        } else {
            0nat
        }
    }
}

/// The first backup written, by plan order.
pub open spec fn first_written_backup(outcomes: Seq<Result<Option<String>, String>>) -> Option<
    Seq<char>,
>
    decreases outcomes.len(),
{
    if outcomes.len() == 0 {
        None
    } else {
        match first_written_backup(outcomes.drop_last()) {
            Some(p) => Some(p),
            None => match outcomes.last() {
                Ok(Some(p)) => Some(p@),
                _ => None,
            },
        }
    }
}

/// Where the backups went, or that none were made on request.
pub open spec fn backup_note(first: Option<Seq<char>>, backup: bool) -> Seq<char> {
    match first {
        Some(p) => " Backups in "@ + match parent_of(p) {
            Some(d) => d,
            None => Seq::empty(),
        },
        None => if !backup {
            " (no backups — --no-backup)"@
        } else {
            Seq::empty()
        },
    }
}

/// The line a `set` run ends with.
pub open spec fn set_report_text(written: nat, failed: nat, note: Seq<char>) -> Seq<char> {
    "Wrote "@ + dec(written) + " file(s), "@ + dec(failed) + " failed."@ + note
}

/// The closing report of a `set` run, from the outcome of applying each plan
/// (the backup written, or the error) and the number of files whose plan
/// could not be built.
pub fn set_report(outcomes: &Vec<Result<Option<String>, String>>, unplanned: usize, backup: bool) -> (r:
    String)
    requires
        unplanned + outcomes@.len() <= usize::MAX,
    ensures
        r@ == set_report_text(
            count_written(outcomes@),
            (unplanned + outcomes@.len() - count_written(outcomes@)) as nat,
            backup_note(first_written_backup(outcomes@), backup),
        ),
{
    let mut written: usize = 0;
    let mut first: Option<String> = None;
    let mut i: usize = 0;
    while i < outcomes.len()
        invariant
            i <= outcomes@.len(),
            written == count_written(outcomes@.take(i as int)),
            written <= i,
            match first {
                Some(p) => first_written_backup(outcomes@.take(i as int)) == Some(p@),
                None => first_written_backup(outcomes@.take(i as int)) is None,
            },
        decreases outcomes@.len() - i,
    {
        let ghost t = outcomes@.take(i + 1);
        assert(t.drop_last() =~= outcomes@.take(i as int));
        assert(t.last() == outcomes@[i as int]);
        match &outcomes[i] {
            Ok(b) => {
                written += 1;
                if first.is_none() {
                    match b {
                        Some(p) => {
                            first = Some(p.clone());
                        },
                        None => {},
                    }
                }
            },
            Err(_) => {},
        }
        i += 1;
    }
    assert(outcomes@.take(outcomes@.len() as int) =~= outcomes@);
    let failed = unplanned + (outcomes.len() - written);
    let mut m = String::from_str("Wrote ");
    push_dec(&mut m, written as u64);
    push_str(&mut m, " file(s), ");
    push_dec(&mut m, failed as u64);
    push_str(&mut m, " failed.");
    match &first {
        Some(p) => {
            push_str(&mut m, " Backups in ");
            match parent(p.as_str()) {
                Some(d) => push_str(&mut m, d.as_str()),
                None => {},
            }
        },
        None => {
            if !backup {
                push_str(&mut m, " (no backups — --no-backup)");
            }
        },
    }
    m
}

} // verus!
