//! Paths as text, with the Unix semantics of `std::path`: the final
//! component, the extension, joining, and the component-wise order in which
//! `PathBuf`s sort.
use vstd::prelude::*;

use crate::text::{chars_lt, chars_of, push_char, push_str, seq_lt, string_of_range};

verus! {

/// `s` with every trailing `/` removed.
pub open spec fn strip_slashes_end(s: Seq<char>) -> Seq<char>
    decreases s.len(),
{
    if s.len() > 0 && s.last() == '/' {
        strip_slashes_end(s.drop_last())
    } else {
        s
    }
}

pub proof fn lemma_strip_len(s: Seq<char>)
    ensures
        strip_slashes_end(s).len() <= s.len(),
    decreases s.len(),
{
    if s.len() > 0 && s.last() == '/' {
        lemma_strip_len(s.drop_last());
    }
}

/// Where the last `/`-separated piece of `s` starts (just after its last
/// `/`, or 0).
pub open spec fn piece_start(s: Seq<char>) -> int
    decreases s.len(),
{
    if s.len() == 0 {
        0
    } else if s.last() == '/' {
        s.len() as int
    } else {
        piece_start(s.drop_last())
    }
}

pub proof fn lemma_piece_start_bounds(s: Seq<char>)
    ensures
        0 <= piece_start(s) <= s.len(),
        s.len() > 0 && s.last() != '/' ==> piece_start(s) < s.len(),
    decreases s.len(),
{
    if s.len() > 0 && s.last() != '/' {
        lemma_piece_start_bounds(s.drop_last());
    }
}

/// `Path::file_name` on Unix: the last component when it is a normal one.
/// Trailing slashes and `.` components are skipped; a final `..`, a bare
/// root and an empty path have none.
pub open spec fn file_name_of(p: Seq<char>) -> Option<Seq<char>>
    decreases p.len(),
{
    let t = strip_slashes_end(p);
    if t.len() == 0 {
        None
    } else {
        let k = piece_start(t);
        let piece = t.subrange(k, t.len() as int);
        if piece == seq!['.'] {
            if 0 <= k < t.len() {
                proof {
                    lemma_strip_len(p);
                }
                file_name_of(t.subrange(0, k))
            } else {
                None
            }
        } else if piece == seq!['.', '.'] {
            None
        } else {
            Some(piece)
        }
    }
}

/// Index of the last occurrence of `c` in `s`, or -1.
pub open spec fn last_index(s: Seq<char>, c: char) -> int
    decreases s.len(),
{
    if s.len() == 0 {
        -1
    } else if s.last() == c {
        s.len() - 1
    } else {
        last_index(s.drop_last(), c)
    }
}

/// `Path::extension`: what follows the last `.` of the file name, unless the
/// name has no `.` or its only `.` is the first character.
pub open spec fn extension_of(p: Seq<char>) -> Option<Seq<char>> {
    match file_name_of(p) {
        None => None,
        Some(name) => {
            let d = last_index(name, '.');
            if d <= 0 {
                None
            } else {
                Some(name.subrange(d + 1, name.len() as int))
            }
        },
    }
}

/// `PathBuf::join` on Unix: an absolute `rel` replaces `base`; otherwise a
/// separator is inserted unless `base` is empty or already ends with one.
pub open spec fn join_of(base: Seq<char>, rel: Seq<char>) -> Seq<char> {
    if rel.len() > 0 && rel[0] == '/' {
        rel
    } else if base.len() > 0 && base.last() != '/' {
        base + seq!['/'] + rel
    } else {
        base + rel
    }
}

/// A path component (`std::path::Component` without Windows prefixes).
pub enum Comp {
    Root,
    Cur,
    Parent,
    Normal(Seq<char>),
}

/// A component as executable data.
pub enum CompBuf {
    Root,
    Cur,
    Parent,
    Normal(Vec<char>),
}

impl CompBuf {
    pub open spec fn view(&self) -> Comp {
        match self {
            CompBuf::Root => Comp::Root,
            CompBuf::Cur => Comp::Cur,
            CompBuf::Parent => Comp::Parent,
            CompBuf::Normal(v) => Comp::Normal(v@),
        }
    }
}

/// Index of the first `/` in `s`, or its length.
pub open spec fn first_slash(s: Seq<char>) -> int
    decreases s.len(),
{
    if s.len() == 0 {
        0
    } else if s[0] == '/' {
        0
    } else {
        1 + first_slash(s.drop_first())
    }
}

pub proof fn lemma_first_slash(s: Seq<char>)
    ensures
        0 <= first_slash(s) <= s.len(),
        forall|j: int| 0 <= j < first_slash(s) ==> s[j] != '/',
        first_slash(s) < s.len() ==> s[first_slash(s)] == '/',
    decreases s.len(),
{
    if s.len() > 0 && s[0] != '/' {
        lemma_first_slash(s.drop_first());
        assert forall|j: int| 0 <= j < first_slash(s) implies s[j] != '/' by {
            if j > 0 {
                assert(s[j] == s.drop_first()[j - 1]);
            }
        }
    }
}

/// The component a non-empty, non-`.` piece stands for.
pub open spec fn piece_comp(x: Seq<char>) -> Comp {
    if x == seq!['.', '.'] {
        Comp::Parent
    } else {
        Comp::Normal(x)
    }
}

/// The components of the `/`-separated pieces of `s`, empty and `.` pieces
/// skipped.
pub open spec fn piece_comps(s: Seq<char>) -> Seq<Comp>
    decreases s.len(),
{
    let k = first_slash(s);
    let head = s.subrange(0, k);
    let keep: Seq<Comp> = if head.len() > 0 && head != seq!['.'] {
        seq![piece_comp(head)]
    } else {
        Seq::empty()
    };
    if 0 <= k < s.len() {
        keep + piece_comps(s.subrange(k + 1, s.len() as int))
    } else {
        keep
    }
}

/// `Path::components` on Unix.
pub open spec fn comps_of(p: Seq<char>) -> Seq<Comp> {
    if p.len() > 0 && p[0] == '/' {
        seq![Comp::Root] + piece_comps(p)
    } else if p.len() > 0 && p[0] == '.' && (p.len() == 1 || p[1] == '/') {
        seq![Comp::Cur] + piece_comps(p)
    } else {
        piece_comps(p)
    }
}

/// Rank of a component kind in the derived order of `Component`.
pub open spec fn comp_rank(c: Comp) -> int {
    match c {
        Comp::Root => 1,
        Comp::Cur => 2,
        Comp::Parent => 3,
        Comp::Normal(_) => 4,
    }
}

/// Strict order on components: by kind, then normal names byte-wise.
pub open spec fn comp_lt(a: Comp, b: Comp) -> bool {
    if comp_rank(a) != comp_rank(b) {
        comp_rank(a) < comp_rank(b)
    } else {
        match (a, b) {
            (Comp::Normal(x), Comp::Normal(y)) => seq_lt(x, y),
            _ => false,
        }
    }
}

/// Strict lexicographic order on component sequences.
pub open spec fn comps_lt(a: Seq<Comp>, b: Seq<Comp>) -> bool
    decreases a.len(),
{
    if a.len() == 0 {
        b.len() > 0
    } else if b.len() == 0 {
        false
    } else if a[0] != b[0] {
        comp_lt(a[0], b[0])
    } else {
        comps_lt(a.drop_first(), b.drop_first())
    }
}

/// `a < b` for `PathBuf`s: component-wise comparison.
pub open spec fn path_lt(a: Seq<char>, b: Seq<char>) -> bool {
    comps_lt(comps_of(a), comps_of(b))
}

/// `a <= b` for `PathBuf`s.
pub open spec fn path_le(a: Seq<char>, b: Seq<char>) -> bool {
    !path_lt(b, a)
}

// ----- order lemmas -----

pub proof fn lemma_seq_lt_irrefl(a: Seq<char>)
    ensures
        !seq_lt(a, a),
    decreases a.len(),
{
    if a.len() > 0 {
        lemma_seq_lt_irrefl(a.drop_first());
    }
}

pub proof fn lemma_seq_lt_trans(a: Seq<char>, b: Seq<char>, c: Seq<char>)
    requires
        seq_lt(a, b),
        seq_lt(b, c),
    ensures
        seq_lt(a, c),
    decreases a.len(),
{
    if a.len() > 0 && b.len() > 0 && c.len() > 0 {
        if a[0] == b[0] && b[0] == c[0] {
            lemma_seq_lt_trans(a.drop_first(), b.drop_first(), c.drop_first());
        }
    }
}

pub proof fn lemma_seq_lt_total(a: Seq<char>, b: Seq<char>)
    ensures
        seq_lt(a, b) || seq_lt(b, a) || a == b,
    decreases a.len(),
{
    if a.len() > 0 && b.len() > 0 {
        if a[0] == b[0] {
            lemma_seq_lt_total(a.drop_first(), b.drop_first());
            if a.drop_first() == b.drop_first() {
                assert(a =~= seq![a[0]] + a.drop_first());
                assert(b =~= seq![b[0]] + b.drop_first());
            }
        } else {
            assert(a[0] != b[0]);
        }
    } else if a.len() == 0 && b.len() == 0 {
        assert(a =~= b);
    }
}

pub proof fn lemma_seq_lt_asym(a: Seq<char>, b: Seq<char>)
    requires
        seq_lt(a, b),
    ensures
        !seq_lt(b, a),
{
    if seq_lt(b, a) {
        lemma_seq_lt_trans(a, b, a);
        lemma_seq_lt_irrefl(a);
    }
}

proof fn lemma_comp_lt_trans(a: Comp, b: Comp, c: Comp)
    requires
        comp_lt(a, b),
        comp_lt(b, c),
    ensures
        comp_lt(a, c),
{
    match (a, b, c) {
        (Comp::Normal(x), Comp::Normal(y), Comp::Normal(z)) => {
            lemma_seq_lt_trans(x, y, z);
        },
        _ => {},
    }
}

proof fn lemma_comp_lt_irrefl(a: Comp)
    ensures
        !comp_lt(a, a),
{
    match a {
        Comp::Normal(x) => lemma_seq_lt_irrefl(x),
        _ => {},
    }
}

proof fn lemma_comp_lt_total(a: Comp, b: Comp)
    ensures
        comp_lt(a, b) || comp_lt(b, a) || a == b,
{
    match (a, b) {
        (Comp::Normal(x), Comp::Normal(y)) => lemma_seq_lt_total(x, y),
        _ => {},
    }
}

pub proof fn lemma_comps_lt_irrefl(a: Seq<Comp>)
    ensures
        !comps_lt(a, a),
    decreases a.len(),
{
    if a.len() > 0 {
        lemma_comps_lt_irrefl(a.drop_first());
    }
}

pub proof fn lemma_comps_lt_trans(a: Seq<Comp>, b: Seq<Comp>, c: Seq<Comp>)
    requires
        comps_lt(a, b),
        comps_lt(b, c),
    ensures
        comps_lt(a, c),
    decreases a.len(),
{
    if a.len() > 0 && b.len() > 0 && c.len() > 0 {
        if a[0] == b[0] && b[0] == c[0] {
            lemma_comps_lt_trans(a.drop_first(), b.drop_first(), c.drop_first());
        } else if a[0] == b[0] {
        } else if b[0] == c[0] {
        } else {
            lemma_comp_lt_trans(a[0], b[0], c[0]);
            if a[0] == c[0] {
                lemma_comp_lt_trans(a[0], b[0], a[0]);
                lemma_comp_lt_irrefl(a[0]);
            }
        }
    }
}

pub proof fn lemma_comps_lt_total(a: Seq<Comp>, b: Seq<Comp>)
    ensures
        comps_lt(a, b) || comps_lt(b, a) || a == b,
    decreases a.len(),
{
    if a.len() > 0 && b.len() > 0 {
        if a[0] == b[0] {
            lemma_comps_lt_total(a.drop_first(), b.drop_first());
            if a.drop_first() == b.drop_first() {
                assert(a =~= seq![a[0]] + a.drop_first());
                assert(b =~= seq![b[0]] + b.drop_first());
            }
        } else {
            lemma_comp_lt_total(a[0], b[0]);
        }
    } else if a.len() == 0 && b.len() == 0 {
        assert(a =~= b);
    }
}

/// The path order is a strict total preorder: irreflexive and transitive, and
/// any two paths compare one way or the other unless their components agree.
pub proof fn lemma_path_order(a: Seq<char>, b: Seq<char>, c: Seq<char>)
    ensures
        !path_lt(a, a),
        path_lt(a, b) && path_lt(b, c) ==> path_lt(a, c),
        path_lt(a, b) || path_lt(b, a) || comps_of(a) == comps_of(b),
        path_le(a, b) && path_le(b, c) ==> path_le(a, c),
{
    lemma_comps_lt_irrefl(comps_of(a));
    if path_lt(a, b) && path_lt(b, c) {
        lemma_comps_lt_trans(comps_of(a), comps_of(b), comps_of(c));
    }
    lemma_comps_lt_total(comps_of(a), comps_of(b));
    if path_le(a, b) && path_le(b, c) && path_lt(c, a) {
        lemma_comps_lt_total(comps_of(a), comps_of(b));
        lemma_comps_lt_total(comps_of(b), comps_of(c));
        if path_lt(a, b) {
            lemma_comps_lt_trans(comps_of(c), comps_of(a), comps_of(b));
        } else if comps_of(a) == comps_of(b) {
        } else {
        }
    }
}

// ----- executable operations -----

proof fn lemma_strip_step(s: Seq<char>)
    requires
        s.len() > 0,
        s.last() == '/',
    ensures
        file_name_of(s) == file_name_of(s.drop_last()),
{
    assert(strip_slashes_end(s) == strip_slashes_end(s.drop_last()));
}

proof fn lemma_piece_start_step(s: Seq<char>, k: int)
    requires
        0 <= k <= s.len(),
        forall|j: int| k <= j < s.len() ==> s[j] != '/',
    ensures
        piece_start(s) == piece_start(s.subrange(0, k)),
    decreases s.len() - k,
{
    if k < s.len() {
        assert(s.drop_last().subrange(0, k) =~= s.subrange(0, k));
        lemma_piece_start_step(s.drop_last(), k);
    } else {
        assert(s.subrange(0, k) =~= s);
    }
}

/// Where the file name of `p` lies in it, as a character range.
pub fn file_name_range(p: &str) -> (r: Option<(usize, usize)>)
    ensures
        match r {
            Some((k, e)) => k <= e <= p@.len() && file_name_of(p@) == Some(
                p@.subrange(k as int, e as int),
            ),
            None => file_name_of(p@) is None,
        },
{
    let v = chars_of(p);
    let mut e: usize = v.len();
    assert(v@.subrange(0, e as int) =~= v@);
    loop
        invariant
            v@ == p@,
            e <= v.len(),
            file_name_of(v@) == file_name_of(v@.subrange(0, e as int)),
        decreases e,
    {
        let ghost e0 = e;
        while e > 0 && v[e - 1] == '/'
            invariant
                e <= e0,
                e <= v.len(),
                file_name_of(v@) == file_name_of(v@.subrange(0, e as int)),
            decreases e,
        {
            proof {
                let s = v@.subrange(0, e as int);
                lemma_strip_step(s);
                assert(s.drop_last() =~= v@.subrange(0, e - 1));
            }
            e -= 1;
        }
        let ghost t = v@.subrange(0, e as int);
        assert(strip_slashes_end(t) == t);
        if e == 0 {
            assert(t =~= Seq::<char>::empty());
            assert(file_name_of(t) is None);
            return None;
        }
        let mut k: usize = e;
        while k > 0 && v[k - 1] != '/'
            invariant
                k <= e <= v.len(),
                forall|j: int| k <= j < e ==> v@[j] != '/',
            decreases k,
        {
            k -= 1;
        }
        proof {
            lemma_piece_start_step(t, k as int);
            let u = t.subrange(0, k as int);
            if k > 0 {
                assert(u.last() == '/');
            }
            assert(piece_start(t) == k);
            assert(t.subrange(k as int, t.len() as int) =~= v@.subrange(k as int, e as int));
            assert(t.subrange(0, k as int) =~= v@.subrange(0, k as int));
        }
        let len = e - k;
        if len == 1 && v[k] == '.' {
            assert(v@.subrange(k as int, e as int) =~= seq!['.']);
            e = k;
        } else if len == 2 && v[k] == '.' && v[k + 1] == '.' {
            assert(v@.subrange(k as int, e as int) =~= seq!['.', '.']);
            return None;
        } else {
            proof {
                let piece = v@.subrange(k as int, e as int);
                if len == 1 {
                    assert(piece[0] != '.');
                    assert(piece != seq!['.']);
                }
                if len == 2 {
                    assert(piece[0] != '.' || piece[1] != '.');
                    assert(piece != seq!['.', '.']);
                }
                assert(piece.len() != 1 ==> piece != seq!['.']);
                assert(piece.len() != 2 ==> piece != seq!['.', '.']);
                assert(piece == t.subrange(piece_start(t), t.len() as int));
                assert(file_name_of(t) == Some(piece));
            }
            return Some((k, e));
        }
    }
}

/// `Path::file_name` of a path given as text.
pub fn file_name(p: &str) -> (r: Option<String>)
    ensures
        match r {
            Some(s) => file_name_of(p@) == Some(s@),
            None => file_name_of(p@) is None,
        },
{
    match file_name_range(p) {
        Some((k, e)) => {
            let v = chars_of(p);
            Some(string_of_range(&v, k, e))
        },
        None => None,
    }
}

proof fn lemma_last_index_bounds(s: Seq<char>, c: char)
    ensures
        -1 <= last_index(s, c) < s.len(),
        last_index(s, c) >= 0 ==> s[last_index(s, c)] == c,
        forall|j: int| last_index(s, c) < j < s.len() ==> s[j] != c,
    decreases s.len(),
{
    if s.len() > 0 && s.last() != c {
        lemma_last_index_bounds(s.drop_last(), c);
        assert forall|j: int| last_index(s, c) < j < s.len() implies s[j] != c by {
            if j < s.len() - 1 {
                assert(s[j] == s.drop_last()[j]);
            }
        }
    }
}

proof fn lemma_last_index_step(s: Seq<char>, c: char, k: int)
    requires
        0 <= k <= s.len(),
        forall|j: int| k <= j < s.len() ==> s[j] != c,
    ensures
        last_index(s, c) == last_index(s.subrange(0, k), c),
    decreases s.len() - k,
{
    if k < s.len() {
        assert(s.drop_last().subrange(0, k) =~= s.subrange(0, k));
        lemma_last_index_step(s.drop_last(), c, k);
    } else {
        assert(s.subrange(0, k) =~= s);
    }
}

/// `Path::extension` of a path given as text.
pub fn extension(p: &str) -> (r: Option<String>)
    ensures
        match r {
            Some(s) => extension_of(p@) == Some(s@),
            None => extension_of(p@) is None,
        },
{
    match file_name(p) {
        None => None,
        Some(name) => {
            let v = chars_of(name.as_str());
            let mut k: usize = v.len();
            while k > 0 && v[k - 1] != '.'
                invariant
                    k <= v.len(),
                    forall|j: int| k <= j < v.len() ==> v@[j] != '.',
                decreases k,
            {
                k -= 1;
            }
            proof {
                lemma_last_index_step(v@, '.', k as int);
                let u = v@.subrange(0, k as int);
                if k > 0 {
                    assert(u.last() == '.');
                }
                assert(last_index(v@, '.') == k - 1);
            }
            if k <= 1 {
                None
            } else {
                Some(string_of_range(&v, k, v.len()))
            }
        },
    }
}

/// `PathBuf::join` of two paths given as text.
pub fn join(base: &str, rel: &str) -> (r: String)
    ensures
        r@ == join_of(base@, rel@),
{
    let vr = chars_of(rel);
    if vr.len() > 0 && vr[0] == '/' {
        return string_of_range(&vr, 0, vr.len());
    }
    let vb = chars_of(base);
    let mut r = string_of_range(&vb, 0, vb.len());
    assert(vb@.subrange(0, vb.len() as int) =~= vb@);
    if vb.len() > 0 && vb[vb.len() - 1] != '/' {
        push_char(&mut r, '/');
    }
    push_str(&mut r, rel);
    r
}

proof fn lemma_piece_comps_step(s: Seq<char>, k: int)
    requires
        0 <= k <= s.len(),
        forall|j: int| 0 <= j < k ==> s[j] != '/',
        k < s.len() ==> s[k] == '/',
    ensures
        first_slash(s) == k,
    decreases k,
{
    if k > 0 {
        assert forall|j: int| 0 <= j < k - 1 implies s.drop_first()[j] != '/' by {
            assert(s.drop_first()[j] == s[j + 1]);
        }
        lemma_piece_comps_step(s.drop_first(), k - 1);
    }
}

/// The components of a path, as executable data.
pub fn components(p: &str) -> (r: Vec<CompBuf>)
    ensures
        r@.map_values(|c: CompBuf| c.view()) == comps_of(p@),
{
    let v = chars_of(p);
    let mut out: Vec<CompBuf> = Vec::new();
    if v.len() > 0 && v[0] == '/' {
        out.push(CompBuf::Root);
    } else if v.len() > 0 && v[0] == '.' && (v.len() == 1 || v[1] == '/') {
        out.push(CompBuf::Cur);
    }
    let ghost pre = out@.map_values(|c: CompBuf| c.view());
    let mut i: usize = 0;
    assert(v@.subrange(0, v@.len() as int) =~= v@);
    loop
        invariant
            v@ == p@,
            i <= v.len(),
            comps_of(v@) == out@.map_values(|c: CompBuf| c.view()) + piece_comps(
                v@.subrange(i as int, v@.len() as int),
            ),
        decreases v.len() - i,
    {
        let ghost s = v@.subrange(i as int, v@.len() as int);
        let mut k: usize = i;
        while k < v.len() && v[k] != '/'
            invariant
                i <= k <= v.len(),
                forall|j: int| i <= j < k ==> v@[j] != '/',
            decreases v.len() - k,
        {
            k += 1;
        }
        proof {
            lemma_piece_comps_step(s, (k - i) as int);
        }
        let len = k - i;
        let ghost head = s.subrange(0, (k - i) as int);
        assert(head =~= v@.subrange(i as int, k as int));
        let ghost before = out@.map_values(|c: CompBuf| c.view());
        let ghost keep: Seq<Comp> = if head.len() > 0 && head != seq!['.'] {
            seq![piece_comp(head)]
        } else {
            Seq::empty()
        };
        if len == 0 || (len == 1 && v[i] == '.') {
            proof {
                if len == 1 {
                    assert(head =~= seq!['.']);
                }
                assert(keep =~= Seq::<Comp>::empty());
                assert(out@.map_values(|c: CompBuf| c.view()) =~= before + keep);
            }
        } else if len == 2 && v[i] == '.' && v[i + 1] == '.' {
            assert(head =~= seq!['.', '.']);
            out.push(CompBuf::Parent);
            assert(out@.map_values(|c: CompBuf| c.view()) =~= before + keep);
        } else {
            let mut name: Vec<char> = Vec::new();
            let mut j = i;
            while j < k
                invariant
                    i <= j <= k <= v.len(),
                    name@ == v@.subrange(i as int, j as int),
                decreases k - j,
            {
                name.push(v[j]);
                j += 1;
                assert(name@ =~= v@.subrange(i as int, j as int));
            }
            proof {
                if len == 1 {
                    assert(head[0] != '.');
                }
                if len == 2 {
                    assert(head[0] != '.' || head[1] != '.');
                }
                assert(head != seq!['.']);
                assert(head != seq!['.', '.']);
            }
            out.push(CompBuf::Normal(name));
            assert(out@.map_values(|c: CompBuf| c.view()) =~= before + keep);
        }
        if k == v.len() {
            proof {
                assert(piece_comps(s) == keep);
                assert(v@.subrange(v@.len() as int, v@.len() as int) =~= Seq::<char>::empty());
                assert(piece_comps(Seq::<char>::empty()) =~= Seq::<Comp>::empty()) by {
                    assert(first_slash(Seq::<char>::empty()) == 0);
                }
                assert(out@.map_values(|c: CompBuf| c.view()) + piece_comps(Seq::<char>::empty())
                    =~= out@.map_values(|c: CompBuf| c.view()));
            }
            return out;
        }
        proof {
            assert(s.subrange((k - i + 1) as int, s.len() as int) =~= v@.subrange(
                k + 1,
                v@.len() as int,
            ));
            assert(piece_comps(s) == keep + piece_comps(v@.subrange(k + 1, v@.len() as int)));
            assert(before + keep + piece_comps(v@.subrange(k + 1, v@.len() as int)) =~= before
                + piece_comps(s));
        }
        i = k + 1;
    }
}

/// Strict comparison of two components.
fn comp_lt_exec(a: &CompBuf, b: &CompBuf) -> (r: bool)
    ensures
        r == comp_lt(a.view(), b.view()),
{
    let ra: u8 = match a {
        CompBuf::Root => 1,
        CompBuf::Cur => 2,
        CompBuf::Parent => 3,
        CompBuf::Normal(_) => 4,
    };
    let rb: u8 = match b {
        CompBuf::Root => 1,
        CompBuf::Cur => 2,
        CompBuf::Parent => 3,
        CompBuf::Normal(_) => 4,
    };
    if ra != rb {
        return ra < rb;
    }
    match (a, b) {
        (CompBuf::Normal(x), CompBuf::Normal(y)) => chars_lt(x, y),
        _ => false,
    }
}

/// Equality of two components.
fn comp_eq_exec(a: &CompBuf, b: &CompBuf) -> (r: bool)
    ensures
        r == (a.view() == b.view()),
{
    match (a, b) {
        (CompBuf::Root, CompBuf::Root) => true,
        (CompBuf::Cur, CompBuf::Cur) => true,
        (CompBuf::Parent, CompBuf::Parent) => true,
        (CompBuf::Normal(x), CompBuf::Normal(y)) => {
            let lt1 = chars_lt(x, y);
            let lt2 = chars_lt(y, x);
            proof {
                lemma_seq_lt_total(x@, y@);
                if x@ == y@ {
                    lemma_seq_lt_irrefl(x@);
                }
            }
            !lt1 && !lt2
        },
        _ => false,
    }
}

/// Strict comparison of two component lists.
pub fn comps_lt_exec(a: &Vec<CompBuf>, b: &Vec<CompBuf>) -> (r: bool)
    ensures
        r == comps_lt(
            a@.map_values(|c: CompBuf| c.view()),
            b@.map_values(|c: CompBuf| c.view()),
        ),
{
    let ghost sa = a@.map_values(|c: CompBuf| c.view());
    let ghost sb = b@.map_values(|c: CompBuf| c.view());
    let mut i: usize = 0;
    assert(sa.skip(0) =~= sa);
    assert(sb.skip(0) =~= sb);
    while i < a.len() && i < b.len() && comp_eq_exec(&a[i], &b[i])
        invariant
            0 <= i <= a.len(),
            i <= b.len(),
            sa == a@.map_values(|c: CompBuf| c.view()),
            sb == b@.map_values(|c: CompBuf| c.view()),
            comps_lt(sa, sb) == comps_lt(sa.skip(i as int), sb.skip(i as int)),
        decreases a.len() - i,
    {
        proof {
            assert(sa.skip(i as int).drop_first() =~= sa.skip(i + 1));
            assert(sb.skip(i as int).drop_first() =~= sb.skip(i + 1));
        }
        i += 1;
    }
    if i == a.len() {
        i < b.len()
    } else if i == b.len() {
        false
    } else {
        comp_lt_exec(&a[i], &b[i])
    }
}

/// Whether path `a` sorts strictly before path `b`.
pub fn path_lt_exec(a: &str, b: &str) -> (r: bool)
    ensures
        r == path_lt(a@, b@),
{
    let ca = components(a);
    let cb = components(b);
    comps_lt_exec(&ca, &cb)
}

/// `a == b` for `PathBuf`s: the same components.
pub fn path_eq_exec(a: &str, b: &str) -> (r: bool)
    ensures
        r == (comps_of(a@) == comps_of(b@)),
{
    proof {
        lemma_path_order(a@, b@, a@);
        lemma_comps_lt_irrefl(comps_of(a@));
    }
    !path_lt_exec(a, b) && !path_lt_exec(b, a)
}

/// Where the components of `p` start: after a leading root, or after a
/// leading `.` that is the current-directory component.
pub open spec fn body_start(p: Seq<char>) -> int {
    if p.len() > 0 && p[0] == '/' {
        1
    } else if p.len() > 0 && p[0] == '.' && (p.len() == 1 || p[1] == '/') {
        1
    } else {
        0
    }
}

/// A run of separators or a `.` piece at the end of `s`.
pub open spec fn skippable_end(s: Seq<char>) -> bool {
    s.len() > 0 && (s.last() == '/' || (s.last() == '.' && (s.len() == 1 || s[s.len() - 2]
        == '/')))
}

/// `s` without its trailing separators and `.` pieces.
pub open spec fn trim_tail(s: Seq<char>) -> Seq<char>
    decreases s.len(),
{
    if skippable_end(s) {
        trim_tail(s.drop_last())
    } else {
        s
    }
}

/// `Path::parent` on Unix, as text: the path up to its last component, with
/// the separators and `.` pieces before it dropped; `None` for an empty path
/// and for one that ends in the root.
pub open spec fn parent_of(p: Seq<char>) -> Option<Seq<char>> {
    let b = body_start(p);
    let t = trim_tail(p.subrange(b, p.len() as int));
    if t.len() == 0 {
        if b == 1 && p[0] == '.' {
            Some(Seq::empty())
        } else {
            None
        }
    } else {
        Some(p.subrange(0, b) + trim_tail(t.subrange(0, piece_start(t))))
    }
}

/// The end of `v[lo..hi]` once trailing separators and `.` pieces are
/// dropped.
fn trim_end_at(v: &Vec<char>, lo: usize, hi: usize) -> (r: usize)
    requires
        lo <= hi <= v@.len(),
    ensures
        lo <= r <= hi,
        trim_tail(v@.subrange(lo as int, hi as int)) == v@.subrange(lo as int, r as int),
{
    let mut h = hi;
    while h > lo && (v[h - 1] == '/' || (v[h - 1] == '.' && (h - 1 == lo || v[h - 2] == '/')))
        invariant
            lo <= h <= hi <= v@.len(),
            trim_tail(v@.subrange(lo as int, hi as int)) == trim_tail(
                v@.subrange(lo as int, h as int),
            ),
        decreases h,
    {
        let ghost t = v@.subrange(lo as int, h as int);
        assert(skippable_end(t)) by {
            assert(t.last() == v@[h - 1]);
            if h - 1 > lo {
                assert(t[t.len() - 2] == v@[h - 2]);
            }
        }
        assert(t.drop_last() =~= v@.subrange(lo as int, h - 1));
        h -= 1;
    }
    proof {
        let t = v@.subrange(lo as int, h as int);
        if t.len() > 0 {
            assert(t.last() == v@[h - 1]);
            if h - 1 > lo {
                assert(t[t.len() - 2] == v@[h - 2]);
            }
        }
        assert(!skippable_end(t));
    }
    h
}

/// Where the last piece of `v[lo..hi]` starts.
fn piece_start_at(v: &Vec<char>, lo: usize, hi: usize) -> (k: usize)
    requires
        lo <= hi <= v@.len(),
    ensures
        lo <= k <= hi,
        piece_start(v@.subrange(lo as int, hi as int)) == k - lo,
{
    let mut k = hi;
    while k > lo && v[k - 1] != '/'
        invariant
            lo <= k <= hi <= v@.len(),
            piece_start(v@.subrange(lo as int, hi as int)) == piece_start(
                v@.subrange(lo as int, k as int),
            ),
        decreases k,
    {
        let ghost t = v@.subrange(lo as int, k as int);
        assert(t.last() == v@[k - 1]);
        assert(t.drop_last() =~= v@.subrange(lo as int, k - 1));
        k -= 1;
    }
    proof {
        let t = v@.subrange(lo as int, k as int);
        if k > lo {
            assert(t.last() == v@[k - 1]);
        }
    }
    k
}

/// `Path::parent` on Unix, as text.
pub fn parent(p: &str) -> (r: Option<String>)
    ensures
        match r {
            Some(s) => parent_of(p@) == Some(s@),
            None => parent_of(p@) is None,
        },
{
    let v = chars_of(p);
    let n = v.len();
    let b: usize = if n > 0 && v[0] == '/' {
        1
    } else if n > 0 && v[0] == '.' && (n == 1 || v[1] == '/') {
        1
    } else {
        0
    };
    assert(b as int == body_start(p@));
    let h = trim_end_at(&v, b, n);
    if h == b {
        if b == 1 && v[0] == '.' {
            return Some(String::new());
        }
        return None;
    }
    let ghost t = v@.subrange(b as int, n as int);
    let k = piece_start_at(&v, b, h);
    let e = trim_end_at(&v, b, k);
    proof {
        let tt = trim_tail(t);
        assert(tt == v@.subrange(b as int, h as int));
        assert(tt.subrange(0, piece_start(tt)) =~= v@.subrange(b as int, k as int));
        assert(v@.subrange(0, b as int) + v@.subrange(b as int, e as int) =~= v@.subrange(
            0,
            e as int,
        ));
    }
    Some(string_of_range(&v, 0, e))
}

} // verus!
