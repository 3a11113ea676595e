//! The state of the interactive interface: the two columns with their search
//! queries, cursors and the track selection, the input mode, the status
//! line, and the pending edit or batch.
use vstd::prelude::*;
use vstd::string::StringExecFns;

use crate::meta::{Plan, Track};
use crate::path::{lemma_seq_lt_asym, lemma_seq_lt_irrefl, lemma_seq_lt_total, lemma_seq_lt_trans};
use crate::text::{dec, push_dec, push_str, seq_lt, str_eq, str_lt, trim, views};
use crate::tui::data::{
    image_shown, image_visible, lists_exactly, track_shown, track_visible, ImageRow, TrackRow,
};

verus! {

/// Which column has the keyboard.
#[derive(Clone, Copy, Debug, PartialEq, Eq, Structural)]
pub enum Focus {
    /// The IMAGES column: pick one cover to assign.
    Images,
    /// The TRACKS column: multi-select the destinations.
    Tracks,
}

/// What keys currently do.
#[derive(Clone, Copy, Debug, PartialEq, Eq, Structural)]
pub enum InputMode {
    Normal,
    Search(Focus),
    Edit,
    Confirm,
    Help,
}

/// The labels of the editable text fields, in display order.
pub open spec fn edit_label_text(i: int) -> Seq<char> {
    if i == 0 {
        "title"@
    } else if i == 1 {
        "artist"@
    } else if i == 2 {
        "album"@
    } else if i == 3 {
        "album-artist"@
    } else if i == 4 {
        "genre"@
    } else if i == 5 {
        "year"@
    } else {
        "track"@
    }
}

/// The number of editable text fields.
pub const EDIT_FIELDS: usize = 7;

/// The label of editable field `i`.
pub fn edit_label(i: usize) -> (r: &'static str)
    requires
        i < EDIT_FIELDS,
    ensures
        r@ == edit_label_text(i as int),
{
    if i == 0 {
        "title"
    } else if i == 1 {
        "artist"
    } else if i == 2 {
        "album"
    } else if i == 3 {
        "album-artist"
    } else if i == 4 {
        "genre"
    } else if i == 5 {
        "year"
    } else {
        "track"
    }
}

/// In-flight text-tag edit. Targets are captured when the panel opens so the
/// selection can change underneath without affecting the pending edit.
pub struct EditState {
    pub targets: Vec<String>,
    /// One value per editable field, in the order of the labels.
    pub values: Vec<String>,
    pub focus: usize,
    pub error: Option<String>,
    /// True when editing more than one track; blank fields are left unchanged.
    pub batch: bool,
}

impl EditState {
    /// One value per field and the focus on one of them.
    pub open spec fn wf(&self) -> bool {
        self.values@.len() == EDIT_FIELDS && self.focus < EDIT_FIELDS
    }

    /// The value of the focused field, to edit in place.
    pub fn focused_value_mut(&mut self) -> (r: &mut String)
        requires
            old(self).wf(),
        ensures
            *r == old(self).values@[old(self).focus as int],
            final(self).values@ == old(self).values@.update(old(self).focus as int, *final(r)),
            final(self).targets == old(self).targets,
            final(self).focus == old(self).focus,
            final(self).error == old(self).error,
            final(self).batch == old(self).batch,
    {
        let i = self.focus;
        &mut self.values[i]
    }
}

/// Strictly increasing in string order, hence without duplicates.
pub open spec fn strictly_sorted(s: Seq<Seq<char>>) -> bool {
    forall|a: int, b: int| 0 <= a < b < s.len() ==> seq_lt(#[trigger] s[a], #[trigger] s[b])
}

/// `s` with `id` removed when present, added when absent.
pub open spec fn toggled(s: Set<Seq<char>>, id: Seq<char>) -> Set<Seq<char>> {
    if s.contains(id) {
        s.remove(id)
    } else {
        s.insert(id)
    }
}

/// Toggling the same id twice gives the selection back.
pub proof fn law_toggle_twice(s: Set<Seq<char>>, id: Seq<char>)
    ensures
        toggled(toggled(s, id), id) == s,
{
    if s.contains(id) {
        assert(s.remove(id).insert(id) =~= s);
    } else {
        assert(s.insert(id).remove(id) =~= s);
    }
}

/// A selection is determined by the ids it holds: two selections (strictly
/// sorted lists) with the same ids are the same list. With `toggled`, this
/// makes a double toggle give back exactly the selection it started from.
pub proof fn law_selection_canonical(a: Seq<Seq<char>>, b: Seq<Seq<char>>)
    requires
        strictly_sorted(a),
        strictly_sorted(b),
        a.to_set() == b.to_set(),
    ensures
        a == b,
    decreases a.len(),
{
    broadcast use vstd::seq_lib::group_seq_properties;

    if a.len() == 0 {
        if b.len() > 0 {
            assert(a.to_set().contains(b[0]));
        }
        assert(a =~= b);
    } else {
        assert(b.to_set().contains(a[0]));
        assert(b.len() > 0);
        let j = choose|j: int| 0 <= j < b.len() && b[j] == a[0];
        assert(a.to_set().contains(b[0]));
        let i = choose|i: int| 0 <= i < a.len() && a[i] == b[0];
        if j > 0 {
            assert(seq_lt(b[0], b[j]));
            if i > 0 {
                assert(seq_lt(a[0], a[i]));
                lemma_seq_lt_asym(b[0], a[0]);
            } else {
                lemma_seq_lt_irrefl(b[0]);
            }
        }
        assert(a[0] == b[0]);
        let a1 = a.drop_first();
        let b1 = b.drop_first();
        assert forall|x: Seq<char>| a1.to_set().contains(x) implies b1.to_set().contains(x) by {
            let k = choose|k: int| 0 <= k < a1.len() && a1[k] == x;
            assert(seq_lt(a[0], a[k + 1]));
            assert(b.to_set().contains(x));
            let m = choose|m: int| 0 <= m < b.len() && b[m] == x;
            if m == 0 {
                lemma_seq_lt_irrefl(x);
            }
            assert(b1[m - 1] == x);
        }
        assert forall|x: Seq<char>| b1.to_set().contains(x) implies a1.to_set().contains(x) by {
            let k = choose|k: int| 0 <= k < b1.len() && b1[k] == x;
            assert(seq_lt(b[0], b[k + 1]));
            assert(a.to_set().contains(x));
            let m = choose|m: int| 0 <= m < a.len() && a[m] == x;
            if m == 0 {
                lemma_seq_lt_irrefl(x);
            }
            assert(a1[m - 1] == x);
        }
        assert(a1.to_set() =~= b1.to_set());
        law_selection_canonical(a1, b1);
        assert(a =~= seq![a[0]] + a1);
        assert(b =~= seq![b[0]] + b1);
    }
}

pub proof fn lemma_to_set_contains(s: Seq<Seq<char>>, x: Seq<char>)
    ensures
        s.to_set().contains(x) == s.contains(x),
{
    broadcast use vstd::seq_lib::group_seq_properties;
}

/// A set of track ids, kept as a strictly sorted list.
pub struct Selection {
    ids: Vec<String>,
}

impl Selection {
    /// The ids, in increasing order.
    pub closed spec fn view(&self) -> Seq<Seq<char>> {
        views(self.ids@)
    }

    pub open spec fn wf(&self) -> bool {
        strictly_sorted(self@)
    }

    /// No ids.
    pub fn new() -> (r: Selection)
        ensures
            r@.len() == 0,
            r.wf(),
    {
        let r = Selection { ids: Vec::new() };
        assert(r@ =~= Seq::<Seq<char>>::empty());
        r
    }

    /// Number of ids.
    pub fn len(&self) -> (r: usize)
        ensures
            r == self@.len(),
    {
        self.ids.len()
    }

    /// Whether there are no ids.
    pub fn is_empty(&self) -> (r: bool)
        ensures
            r == (self@.len() == 0),
    {
        self.ids.len() == 0
    }

    /// The position where `id` is or would go: every id before it sorts
    /// before `id`, and `id` does not sort after any id from it on.
    fn position(&self, id: &str) -> (k: usize)
        requires
            self.wf(),
        ensures
            k <= self@.len(),
            forall|a: int| 0 <= a < k ==> seq_lt(#[trigger] self@[a], id@),
            forall|b: int| k <= b < self@.len() ==> !seq_lt(#[trigger] self@[b], id@),
    {
        let mut lo: usize = 0;
        let mut hi: usize = self.ids.len();
        while lo < hi
            invariant
                lo <= hi <= self@.len(),
                self@.len() == self.ids@.len(),
                self.wf(),
                forall|a: int| 0 <= a < lo ==> seq_lt(#[trigger] self@[a], id@),
                forall|b: int| hi <= b < self@.len() ==> !seq_lt(#[trigger] self@[b], id@),
            decreases hi - lo,
        {
            let mid = lo + (hi - lo) / 2;
            assert(self@[mid as int] == self.ids@[mid as int]@);
            if str_lt(self.ids[mid].as_str(), id) {
                proof {
                    assert forall|a: int| 0 <= a < mid + 1 implies seq_lt(
                        #[trigger] self@[a],
                        id@,
                    ) by {
                        if a < mid {
                            lemma_seq_lt_trans(self@[a], self@[mid as int], id@);
                        }
                    }
                }
                lo = mid + 1;
            } else {
                proof {
                    assert forall|b: int| mid <= b < self@.len() implies !seq_lt(
                        #[trigger] self@[b],
                        id@,
                    ) by {
                        if b > mid && seq_lt(self@[b], id@) {
                            lemma_seq_lt_trans(self@[mid as int], self@[b], id@);
                        }
                    }
                }
                hi = mid;
            }
        }
        lo
    }

    /// Whether `id` is selected.
    pub fn contains(&self, id: &str) -> (r: bool)
        requires
            self.wf(),
        ensures
            r == self@.contains(id@),
    {
        let k = self.position(id);
        if k < self.ids.len() && str_eq(self.ids[k].as_str(), id) {
            assert(self@[k as int] == id@);
            true
        } else {
            proof {
                if self@.contains(id@) {
                    let j = choose|j: int| 0 <= j < self@.len() && self@[j] == id@;
                    lemma_seq_lt_irrefl(id@);
                    if j > k {
                        assert(seq_lt(self@[k as int], self@[j]));
                        lemma_seq_lt_total(self@[k as int], id@);
                        assert(self@[k as int] != id@);
                    }
                }
            }
            false
        }
    }

    /// Adds `id`; no change when already there.
    pub fn insert(&mut self, id: String)
        requires
            old(self).wf(),
        ensures
            final(self).wf(),
            final(self)@.to_set() == old(self)@.to_set().insert(id@),
    {
        let k = self.position(id.as_str());
        if k < self.ids.len() && str_eq(self.ids[k].as_str(), id.as_str()) {
            assert(self@[k as int] == id@);
            assert(self@.to_set().contains(id@));
            assert(self@.to_set() =~= old(self)@.to_set().insert(id@));
            return;
        }
        proof {
            if k < self@.len() {
                assert(self@[k as int] == self.ids@[k as int]@);
                lemma_seq_lt_total(self@[k as int], id@);
                assert(seq_lt(id@, self@[k as int]));
            }
        }
        let ghost before = self@;
        self.ids.insert(k, id);
        proof {
            assert(self@ =~= before.insert(k as int, id@));
            assert forall|a: int, b: int| 0 <= a < b < self@.len() implies seq_lt(
                #[trigger] self@[a],
                #[trigger] self@[b],
            ) by {
                if b < k {
                } else if a < k && b == k {
                } else if a < k {
                    assert(seq_lt(before[a], before[b - 1]));
                } else if a == k {
                    if b - 1 > k {
                        assert(seq_lt(before[k as int], before[b - 1]));
                        lemma_seq_lt_trans(id@, before[k as int], before[b - 1]);
                    }
                } else {
                    assert(seq_lt(before[a - 1], before[b - 1]));
                }
            }
            assert forall|x: Seq<char>| #[trigger] self@.to_set().contains(x) == before.to_set().insert(
                id@,
            ).contains(x) by {
                if self@.contains(x) {
                    let j = choose|j: int| 0 <= j < self@.len() && self@[j] == x;
                    if j < k {
                        assert(before[j] == x);
                    } else if j > k {
                        assert(before[j - 1] == x);
                    }
                }
                if before.contains(x) {
                    let j = choose|j: int| 0 <= j < before.len() && before[j] == x;
                    if j < k {
                        assert(self@[j] == x);
                    } else {
                        assert(self@[j + 1] == x);
                    }
                }
                if x == id@ {
                    assert(self@[k as int] == x);
                }
            }
            assert(self@.to_set() =~= before.to_set().insert(id@));
        }
    }

    /// Removes `id`, telling whether it was there.
    pub fn remove(&mut self, id: &str) -> (r: bool)
        requires
            old(self).wf(),
        ensures
            final(self).wf(),
            r == old(self)@.contains(id@),
            final(self)@.to_set() == old(self)@.to_set().remove(id@),
    {
        let k = self.position(id);
        if k < self.ids.len() && str_eq(self.ids[k].as_str(), id) {
            let ghost before = self@;
            assert(before[k as int] == id@);
            assert(before.contains(id@));
            self.ids.remove(k);
            proof {
                assert(self@ =~= before.remove(k as int));
                assert forall|a: int, b: int| 0 <= a < b < self@.len() implies seq_lt(
                    #[trigger] self@[a],
                    #[trigger] self@[b],
                ) by {
                    if a < k && b >= k {
                        assert(seq_lt(before[a], before[b + 1]));
                    } else if a >= k {
                        assert(seq_lt(before[a + 1], before[b + 1]));
                    }
                }
                assert forall|x: Seq<char>| #[trigger] self@.to_set().contains(x) == before.to_set().remove(
                    id@,
                ).contains(x) by {
                    if x == id@ {
                        if self@.contains(x) {
                            let j = choose|j: int| 0 <= j < self@.len() && self@[j] == x;
                            if j < k {
                                lemma_seq_lt_irrefl(id@);
                                assert(seq_lt(before[j], id@));
                            } else {
                                assert(seq_lt(before[k as int], before[j + 1]));
                                lemma_seq_lt_irrefl(id@);
                            }
                        }
                    } else {
                        if before.contains(x) {
                            let j = choose|j: int| 0 <= j < before.len() && before[j] == x;
                            if j < k {
                                assert(self@[j] == x);
                            } else {
                                assert(j != k);
                                assert(self@[j - 1] == x);
                            }
                        }
                    }
                }
                assert(self@.to_set() =~= before.to_set().remove(id@));
            }
            true
        } else {
            proof {
                if self@.contains(id@) {
                    let j = choose|j: int| 0 <= j < self@.len() && self@[j] == id@;
                    lemma_seq_lt_irrefl(id@);
                    if j > k {
                        assert(seq_lt(self@[k as int], self@[j]));
                        lemma_seq_lt_total(self@[k as int], id@);
                    }
                }
                assert(self@.to_set() =~= self@.to_set().remove(id@));
            }
            false
        }
    }

    /// Adds `id` when absent, removes it when present.
    pub fn toggle(&mut self, id: String)
        requires
            old(self).wf(),
        ensures
            final(self).wf(),
            final(self)@.to_set() == toggled(old(self)@.to_set(), id@),
    {
        proof {
            lemma_to_set_contains(old(self)@, id@);
        }
        if !self.remove(id.as_str()) {
            self.insert(id);
        }
    }

    /// Removes every id.
    pub fn clear(&mut self)
        ensures
            final(self)@.len() == 0,
            final(self).wf(),
    {
        self.ids.clear();
        assert(self@ =~= Seq::<Seq<char>>::empty());
    }

    /// Keeps only the ids some row of `rows` has.
    pub fn retain_rows(&mut self, rows: &Vec<TrackRow>)
        requires
            old(self).wf(),
        ensures
            final(self).wf(),
            final(self)@ == old(self)@.filter(|x: Seq<char>| exists|i: int| 0 <= i < rows@.len() && rows@[i].id@ == x),
    {
        let ghost keep = |x: Seq<char>| exists|i: int| 0 <= i < rows@.len() && rows@[i].id@ == x;
        let mut kept: Vec<String> = Vec::new();
        let mut i: usize = 0;
        let ghost orig = self@;
        while i < self.ids.len()
            invariant
                i <= self.ids@.len(),
                orig == self@,
                self@.len() == self.ids@.len(),
                keep == (|x: Seq<char>| exists|i: int| 0 <= i < rows@.len() && rows@[i].id@ == x),
                views(kept@) == orig.take(i as int).filter(keep),
            decreases self.ids@.len() - i,
        {
            let mut found = false;
            let mut j: usize = 0;
            while j < rows.len()
                invariant
                    j <= rows@.len(),
                    i < self.ids@.len(),
                    found == exists|t: int| 0 <= t < j && rows@[t].id@ == self.ids@[i as int]@,
                decreases rows@.len() - j,
            {
                if str_eq(rows[j].id.as_str(), self.ids[i].as_str()) {
                    found = true;
                }
                j += 1;
            }
            proof {
                reveal_with_fuel(Seq::filter, 1);
                assert(orig.take(i + 1).drop_last() =~= orig.take(i as int));
                assert(orig[i as int] == self.ids@[i as int]@);
                assert(keep(orig[i as int]) == found);
            }
            if found {
                kept.push(self.ids[i].clone());
                assert(views(kept@) =~= orig.take(i as int).filter(keep).push(orig[i as int]));
            }
            i += 1;
        }
        assert(orig.take(orig.len() as int) =~= orig);
        self.ids = kept;
        proof {
            let f = orig.filter(keep);
            assert forall|a: int, b: int| 0 <= a < b < f.len() implies seq_lt(
                #[trigger] f[a],
                #[trigger] f[b],
            ) by {
                lemma_filter_sorted(orig, keep, a, b);
            }
        }
    }

    /// The ids, in increasing order.
    pub fn ids(&self) -> (r: Vec<String>)
        ensures
            views(r@) == self@,
    {
        let mut r: Vec<String> = Vec::new();
        let mut i: usize = 0;
        while i < self.ids.len()
            invariant
                i <= self.ids@.len(),
                views(r@) == views(self.ids@.take(i as int)),
            decreases self.ids@.len() - i,
        {
            let ghost before = r@;
            r.push(self.ids[i].clone());
            assert(self.ids@.take(i + 1) =~= self.ids@.take(i as int).push(self.ids@[i as int]));
            assert(r@ =~= before.push(self.ids@[i as int]));
            assert(views(r@) =~= views(before).push(self.ids@[i as int]@));
            i += 1;
            assert(views(r@) =~= views(self.ids@.take(i as int)));
        }
        assert(self.ids@.take(self.ids@.len() as int) =~= self.ids@);
        r
    }
}

/// Every element of a filtered list comes from the list.
proof fn lemma_filter_in(s: Seq<Seq<char>>, keep: spec_fn(Seq<char>) -> bool, a: int)
    requires
        0 <= a < s.filter(keep).len(),
    ensures
        s.contains(s.filter(keep)[a]),
    decreases s.len(),
{
    reveal_with_fuel(Seq::filter, 1);
    let g = s.drop_last().filter(keep);
    if keep(s.last()) && a == g.len() {
        assert(s.filter(keep)[a] == s[s.len() - 1]);
    } else {
        lemma_filter_in(s.drop_last(), keep, a);
        let j = choose|j: int| 0 <= j < s.drop_last().len() && s.drop_last()[j] == g[a];
        assert(s[j] == g[a]);
    }
}

/// A subsequence of a strictly sorted list is strictly sorted.
proof fn lemma_filter_sorted(s: Seq<Seq<char>>, keep: spec_fn(Seq<char>) -> bool, a: int, b: int)
    requires
        strictly_sorted(s),
        0 <= a < b < s.filter(keep).len(),
    ensures
        seq_lt(s.filter(keep)[a], s.filter(keep)[b]),
    decreases s.len(),
{
    reveal_with_fuel(Seq::filter, 1);
    let f = s.filter(keep);
    let g = s.drop_last().filter(keep);
    assert(strictly_sorted(s.drop_last())) by {
        assert forall|x: int, y: int| 0 <= x < y < s.drop_last().len() implies seq_lt(
            #[trigger] s.drop_last()[x],
            #[trigger] s.drop_last()[y],
        ) by {
            assert(seq_lt(s[x], s[y]));
        }
    }
    if keep(s.last()) {
        assert(f == g.push(s.last()));
        if b < g.len() {
            lemma_filter_sorted(s.drop_last(), keep, a, b);
        } else {
            lemma_filter_in(s.drop_last(), keep, a);
            let x = g[a];
            assert(s.drop_last().contains(x));
            let j = choose|j: int| 0 <= j < s.drop_last().len() && s.drop_last()[j] == x;
            assert(seq_lt(s[j], s[s.len() - 1]));
        }
    } else {
        assert(f == g);
        lemma_filter_sorted(s.drop_last(), keep, a, b);
    }
}

/// One column of the interface.
pub struct ColumnState {
    pub query: String,
    /// Indices of the rows this column shows, in order.
    pub visible: Vec<usize>,
    /// Position of the cursor within `visible`.
    pub cursor: usize,
    pub selected: Selection,
}

/// `c` clamped into `[0, n - 1]` (0 when `n` is 0).
pub open spec fn clamp(c: int, n: int) -> int {
    if n <= 0 {
        0
    } else if c < 0 {
        0
    } else if c >= n {
        n - 1
    } else {
        c
    }
}

impl ColumnState {
    /// The cursor is on a shown row, or 0 when none is shown.
    pub open spec fn cursor_ok(&self) -> bool {
        (self.visible@.len() == 0 ==> self.cursor == 0) && (self.visible@.len() > 0
            ==> self.cursor < self.visible@.len())
    }

    /// An empty column: no query, no rows, cursor at the top, no selection.
    pub fn new() -> (r: ColumnState)
        ensures
            r.query@.len() == 0,
            r.visible@.len() == 0,
            r.cursor == 0,
            r.selected@.len() == 0,
            r.selected.wf(),
    {
        ColumnState {
            query: String::new(),
            visible: Vec::new(),
            cursor: 0,
            selected: Selection::new(),
        }
    }

    /// Puts the cursor back on a shown row after the rows changed.
    pub fn clamp_cursor(&mut self)
        ensures
            final(self).cursor == clamp(old(self).cursor as int, old(self).visible@.len() as int),
            final(self).query == old(self).query,
            final(self).visible == old(self).visible,
            final(self).selected == old(self).selected,
    {
        if self.visible.len() == 0 {
            self.cursor = 0;
        } else if self.cursor >= self.visible.len() {
            self.cursor = self.visible.len() - 1;
        }
    }

    /// Moves the cursor by `delta` rows, stopping at either end.
    pub fn move_by(&mut self, delta: isize)
        ensures
            final(self).cursor == clamp(old(self).cursor + delta, old(self).visible@.len() as int),
            final(self).query == old(self).query,
            final(self).visible == old(self).visible,
            final(self).selected == old(self).selected,
    {
        if self.visible.len() == 0 {
            self.cursor = 0;
            return;
        }
        let n = self.visible.len() as i128;
        let mut c = self.cursor as i128 + delta as i128;
        if c < 0 {
            c = 0;
        }
        if c >= n {
            c = n - 1;
        }
        self.cursor = c as usize;
    }

    /// Moves the cursor to the first row.
    pub fn jump_top(&mut self)
        ensures
            final(self).cursor == 0,
            final(self).query == old(self).query,
            final(self).visible == old(self).visible,
            final(self).selected == old(self).selected,
    {
        self.cursor = 0;
    }

    /// Moves the cursor to the last row, if any.
    pub fn jump_bottom(&mut self)
        ensures
            final(self).cursor == (if old(self).visible@.len() > 0 {
                old(self).visible@.len() - 1
            } else {
                old(self).cursor as int
            }),
            final(self).query == old(self).query,
            final(self).visible == old(self).visible,
            final(self).selected == old(self).selected,
    {
        if self.visible.len() > 0 {
            self.cursor = self.visible.len() - 1;
        }
    }
}

/// How a status message is shown.
#[derive(Clone, Copy, Debug, PartialEq, Eq, Structural)]
pub enum StatusLevel {
    Info,
    Warn,
    /// An error.
    Error,
    /// A success.
    Success,
}

/// The message line at the bottom of the interface.
pub struct StatusLine {
    pub text: String,
    pub level: StatusLevel,
}

impl StatusLine {
    /// An empty informational line.
    pub fn new() -> (r: StatusLine)
        ensures
            r.text@.len() == 0,
            r.level == StatusLevel::Info,
    {
        StatusLine { text: String::new(), level: StatusLevel::Info }
    }

    pub fn info(&mut self, msg: String)
        ensures
            final(self).text == msg,
            final(self).level == StatusLevel::Info,
    {
        self.text = msg;
        self.level = StatusLevel::Info;
    }

    pub fn ok(&mut self, msg: String)
        ensures
            final(self).text == msg,
            final(self).level == StatusLevel::Success,
    {
        self.text = msg;
        self.level = StatusLevel::Success;
    }

    pub fn warn(&mut self, msg: String)
        ensures
            final(self).text == msg,
            final(self).level == StatusLevel::Warn,
    {
        self.text = msg;
        self.level = StatusLevel::Warn;
    }

    pub fn err(&mut self, msg: String)
        ensures
            final(self).text == msg,
            final(self).level == StatusLevel::Error,
    {
        self.text = msg;
        self.level = StatusLevel::Error;
    }
}

/// A built batch awaiting confirmation. `summary` describes the change (e.g.
/// `cover: art.jpg` or `title, artist`) for the confirm modal header.
pub struct PendingBatch {
    pub summary: String,
    pub plans: Vec<Plan>,
    /// Track title and error of each target whose plan could not be built.
    pub failures: Vec<(String, String)>,
}

/// The state of the interface. Reading and writing files, and drawing, are
/// done by the caller; the state changes through [`crate::tui::events`].
pub struct App {
    pub root: String,
    pub recurse: bool,
    pub tracks: Vec<TrackRow>,
    pub images: Vec<ImageRow>,
    pub img_col: ColumnState,
    pub trk_col: ColumnState,
    pub focus: Focus,
    pub mode: InputMode,
    pub backup: bool,
    pub status: StatusLine,
    pub pending: Option<PendingBatch>,
    pub edit: Option<EditState>,
    pub unresolved_errors: bool,
    pub quit_pending: bool,
    pub should_quit: bool,
}

/// The status text `App::new` starts with.
pub open spec fn loaded_text(tracks: nat, images: nat, skipped: nat) -> Seq<char> {
    dec(tracks) + " tracks, "@ + dec(images) + " images."@ + if skipped > 0 {
        " ("@ + dec(skipped) + " unreadable, skipped)"@
    } else {
        Seq::empty()
    }
}

/// The position of the first track row with id `id`, if any.
pub open spec fn first_track(rows: Seq<TrackRow>, id: Seq<char>) -> Option<int> {
    if exists|i: int| 0 <= i < rows.len() && rows[i].id@ == id {
        Some(
            choose|i: int|
                0 <= i < rows.len() && rows[i].id@ == id && forall|j: int|
                    0 <= j < i ==> rows[j].id@ != id,
        )
    } else {
        None
    }
}

/// A scan that stops at the first row with id `id` finds the row
/// `first_track` names.
pub proof fn lemma_first_track(rows: Seq<TrackRow>, id: Seq<char>, i: int)
    requires
        0 <= i < rows.len(),
        rows[i].id@ == id,
        forall|j: int| 0 <= j < i ==> rows[j].id@ != id,
    ensures
        first_track(rows, id) == Some(i),
{
    let k = choose|k: int|
        0 <= k < rows.len() && rows[k].id@ == id && forall|j: int| 0 <= j < k ==> rows[j].id@ != id;
    assert(k == i) by {
        if k < i {
            assert(rows[k].id@ != id);
        }
        if k > i {
            assert(rows[i].id@ != id);
        }
    }
}

impl App {
    /// The visible rows are exactly those the queries match, cursors are on
    /// shown rows, selections are sorted and an open edit has its fields.
    pub open spec fn wf(&self) -> bool {
        &&& lists_exactly(
            self.img_col.visible@,
            self.images@.len(),
            image_shown(self.images@, self.img_col.query@),
        )
        &&& lists_exactly(
            self.trk_col.visible@,
            self.tracks@.len(),
            track_shown(self.tracks@, self.trk_col.query@),
        )
        &&& self.img_col.cursor_ok()
        &&& self.trk_col.cursor_ok()
        &&& self.img_col.selected.wf()
        &&& self.trk_col.selected.wf()
        &&& self.edit matches Some(e) ==> e.wf()
    }

    /// The row index under the IMAGES cursor, if any.
    pub open spec fn image_at_cursor(&self) -> Option<int> {
        if self.img_col.cursor < self.img_col.visible@.len() && self.img_col.visible@[self.img_col.cursor as int]
            < self.images@.len() {
            Some(self.img_col.visible@[self.img_col.cursor as int] as int)
        } else {
            None
        }
    }

    /// The row index under the TRACKS cursor, if any.
    pub open spec fn track_at_cursor(&self) -> Option<int> {
        if self.trk_col.cursor < self.trk_col.visible@.len() && self.trk_col.visible@[self.trk_col.cursor as int]
            < self.tracks@.len() {
            Some(self.trk_col.visible@[self.trk_col.cursor as int] as int)
        } else {
            None
        }
    }

    /// The ids an apply would touch: the selection in order, or the cursor
    /// track alone when nothing is selected.
    pub open spec fn targets(&self) -> Seq<Seq<char>> {
        if self.trk_col.selected@.len() > 0 {
            self.trk_col.selected@
        } else {
            match self.track_at_cursor() {
                Some(i) => seq![self.tracks@[i].id@],
                None => Seq::empty(),
            }
        }
    }

    /// The state after a scan of `root`: both columns show every row with the
    /// cursor at the top, focus on IMAGES, backups on, and a status line
    /// counting what was found.
    pub fn new(
        root: String,
        recurse: bool,
        tracks: Vec<TrackRow>,
        images: Vec<ImageRow>,
        skipped: usize,
    ) -> (r: App)
        ensures
            r.wf(),
            r.root == root,
            r.recurse == recurse,
            r.tracks == tracks,
            r.images == images,
            r.img_col.query@.len() == 0 && r.trk_col.query@.len() == 0,
            r.img_col.cursor == 0 && r.trk_col.cursor == 0,
            r.img_col.visible@ == Seq::new(images@.len(), |k: int| k as usize),
            r.trk_col.visible@ == Seq::new(tracks@.len(), |k: int| k as usize),
            r.img_col.selected@.len() == 0 && r.trk_col.selected@.len() == 0,
            r.focus == Focus::Images,
            r.mode == InputMode::Normal,
            r.backup,
            r.pending is None,
            r.edit is None,
            !r.unresolved_errors && !r.quit_pending && !r.should_quit,
            r.status.level == StatusLevel::Info,
            r.status.text@ == loaded_text(tracks@.len(), images@.len(), skipped as nat),
    {
        let mut app = App {
            root,
            recurse,
            tracks,
            images,
            img_col: ColumnState::new(),
            trk_col: ColumnState::new(),
            focus: Focus::Images,
            mode: InputMode::Normal,
            backup: true,
            status: StatusLine::new(),
            pending: None,
            edit: None,
            unresolved_errors: false,
            quit_pending: false,
            should_quit: false,
        };
        app.recompute_visible();
        let mut msg = String::new();
        push_dec(&mut msg, app.tracks.len() as u64);
        push_str(&mut msg, " tracks, ");
        push_dec(&mut msg, app.images.len() as u64);
        push_str(&mut msg, " images.");
        if skipped > 0 {
            push_str(&mut msg, " (");
            push_dec(&mut msg, skipped as u64);
            push_str(&mut msg, " unreadable, skipped)");
        }
        app.status.info(msg);
        app
    }

    /// Recomputes which rows each column shows from its query, and puts the
    /// cursors back on shown rows.
    pub fn recompute_visible(&mut self)
        requires
            old(self).img_col.selected.wf(),
            old(self).trk_col.selected.wf(),
            old(self).edit matches Some(e) ==> e.wf(),
        ensures
            final(self).wf(),
            final(self).img_col.cursor == clamp(
                old(self).img_col.cursor as int,
                final(self).img_col.visible@.len() as int,
            ),
            final(self).trk_col.cursor == clamp(
                old(self).trk_col.cursor as int,
                final(self).trk_col.visible@.len() as int,
            ),
            final(self).img_col.query == old(self).img_col.query,
            final(self).trk_col.query == old(self).trk_col.query,
            trim(old(self).img_col.query@).len() == 0 ==> final(self).img_col.visible@ == Seq::new(
                old(self).images@.len(),
                |k: int| k as usize,
            ),
            trim(old(self).trk_col.query@).len() == 0 ==> final(self).trk_col.visible@ == Seq::new(
                old(self).tracks@.len(),
                |k: int| k as usize,
            ),
            final(self).img_col.selected == old(self).img_col.selected,
            final(self).trk_col.selected == old(self).trk_col.selected,
            final(self).root == old(self).root,
            final(self).recurse == old(self).recurse,
            final(self).tracks == old(self).tracks,
            final(self).images == old(self).images,
            final(self).focus == old(self).focus,
            final(self).mode == old(self).mode,
            final(self).backup == old(self).backup,
            final(self).status == old(self).status,
            final(self).pending == old(self).pending,
            final(self).edit == old(self).edit,
            final(self).unresolved_errors == old(self).unresolved_errors,
            final(self).quit_pending == old(self).quit_pending,
            final(self).should_quit == old(self).should_quit,
    {
        self.img_col.visible = image_visible(&self.images, self.img_col.query.as_str());
        self.img_col.clamp_cursor();
        self.trk_col.visible = track_visible(&self.tracks, self.trk_col.query.as_str());
        self.trk_col.clamp_cursor();
    }

    /// Replaces the rows with a fresh scan: the selection keeps only ids
    /// still present, and the columns are recomputed.
    pub fn reload(&mut self, tracks: Vec<TrackRow>, images: Vec<ImageRow>)
        requires
            old(self).wf(),
        ensures
            final(self).wf(),
            final(self).tracks == tracks,
            final(self).images == images,
            final(self).trk_col.selected@ == old(self).trk_col.selected@.filter(
                |x: Seq<char>| exists|i: int| 0 <= i < tracks@.len() && tracks@[i].id@ == x,
            ),
            final(self).img_col.selected == old(self).img_col.selected,
            final(self).img_col.query == old(self).img_col.query,
            final(self).trk_col.query == old(self).trk_col.query,
            final(self).img_col.cursor == clamp(
                old(self).img_col.cursor as int,
                final(self).img_col.visible@.len() as int,
            ),
            final(self).trk_col.cursor == clamp(
                old(self).trk_col.cursor as int,
                final(self).trk_col.visible@.len() as int,
            ),
            final(self).root == old(self).root,
            final(self).recurse == old(self).recurse,
            final(self).focus == old(self).focus,
            final(self).mode == old(self).mode,
            final(self).backup == old(self).backup,
            final(self).status == old(self).status,
            final(self).pending == old(self).pending,
            final(self).edit == old(self).edit,
            final(self).unresolved_errors == old(self).unresolved_errors,
            final(self).quit_pending == old(self).quit_pending,
            final(self).should_quit == old(self).should_quit,
    {
        self.tracks = tracks;
        self.images = images;
        self.trk_col.selected.retain_rows(&self.tracks);
        self.recompute_visible();
    }

    /// The column the focus is on, to change in place.
    pub fn focused_column_mut(&mut self) -> (r: &mut ColumnState)
        ensures
            old(self).focus == Focus::Images ==> *r == old(self).img_col && *final(self) == (App {
                img_col: *final(r),
                ..*old(self)
            }),
            old(self).focus == Focus::Tracks ==> *r == old(self).trk_col && *final(self) == (App {
                trk_col: *final(r),
                ..*old(self)
            }),
    {
        match self.focus {
            Focus::Images => &mut self.img_col,
            Focus::Tracks => &mut self.trk_col,
        }
    }

    /// The image row under the cursor.
    pub fn current_image(&self) -> (r: Option<&ImageRow>)
        ensures
            match self.image_at_cursor() {
                Some(i) => r == Some(&self.images@[i]),
                None => r is None,
            },
    {
        if self.img_col.cursor < self.img_col.visible.len() {
            let i = self.img_col.visible[self.img_col.cursor];
            if i < self.images.len() {
                return Some(&self.images[i]);
            }
        }
        None
    }

    /// The track row under the cursor.
    pub fn current_track(&self) -> (r: Option<&TrackRow>)
        ensures
            match self.track_at_cursor() {
                Some(i) => r == Some(&self.tracks@[i]),
                None => r is None,
            },
    {
        if self.trk_col.cursor < self.trk_col.visible.len() {
            let i = self.trk_col.visible[self.trk_col.cursor];
            if i < self.tracks.len() {
                return Some(&self.tracks[i]);
            }
        }
        None
    }

    /// The tracks an apply would touch: the explicit multi-selection in id
    /// order, or the cursor row when nothing is explicitly selected.
    pub fn target_track_ids(&self) -> (r: Vec<String>)
        requires
            self.trk_col.selected.wf(),
        ensures
            views(r@) == self.targets(),
    {
        if !self.trk_col.selected.is_empty() {
            self.trk_col.selected.ids()
        } else if let Some(t) = self.current_track() {
            let mut v: Vec<String> = Vec::new();
            v.push(t.id.clone());
            assert(views(v@) =~= seq![t.id@]);
            v
        } else {
            let v: Vec<String> = Vec::new();
            assert(views(v@) =~= Seq::<Seq<char>>::empty());
            v
        }
    }

    /// True while a popup (edit / confirm / help) is covering the interface.
    pub fn modal_open(&self) -> (r: bool)
        ensures
            r == (self.mode == InputMode::Edit || self.mode == InputMode::Confirm || self.mode
                == InputMode::Help),
    {
        match self.mode {
            InputMode::Edit | InputMode::Confirm | InputMode::Help => true,
            _ => false,
        }
    }

    /// The position of the first track row with id `id`.
    pub fn find_track(&self, id: &str) -> (r: Option<usize>)
        ensures
            r matches Some(i) ==> i < self.tracks@.len() && self.tracks@[i as int].id@ == id@
                && first_track(self.tracks@, id@) == Some(i as int),
            r is None ==> first_track(self.tracks@, id@) is None,
    {
        let mut i: usize = 0;
        while i < self.tracks.len()
            invariant
                i <= self.tracks@.len(),
                forall|j: int| 0 <= j < i ==> self.tracks@[j].id@ != id@,
            decreases self.tracks@.len() - i,
        {
            if str_eq(self.tracks[i].id.as_str(), id) {
                proof {
                    lemma_first_track(self.tracks@, id@, i as int);
                }
                return Some(i);
            }
            i += 1;
        }
        None
    }

    /// The on-disk path of the first track with id `id`.
    pub fn track_path(&self, id: &str) -> (r: Option<String>)
        ensures
            match first_track(self.tracks@, id@) {
                Some(i) => r == Some(self.tracks@[i].path),
                None => r is None,
            },
    {
        match self.find_track(id) {
            Some(i) => {
                let p = self.tracks[i].path.clone();
                assert(p == self.tracks@[i as int].path);
                Some(p)
            },
            None => None,
        }
    }
}

} // verus!
