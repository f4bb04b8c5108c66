//! Saved melodies: notes with their own pauses, one file per melody.
//!
//! Reading and writing the files is the application's business; this module
//! holds the melody record, the file naming rule and the list order.
use vstd::prelude::*;
use crate::text::{
    letter_or_digit, append_chars, lemma_trim_props, chars_of, is_alphanumeric, lemma_lex_total, lemma_lex_trans,
    lex_le, lex_le_exec, lower_text, string_of, to_lowercase, trim, trim_chars, trim_end, trim_start,
};

verus! {

broadcast use {vstd::seq::group_seq_axioms, vstd::seq_lib::group_seq_properties};

/// A saved melody: name, notes, and the pauses after keys and after lines
/// (seconds in the application; the library only moves them around).
pub struct Bookmark<D> {
    pub name: String,
    pub notes: String,
    pub between_keys: D,
    pub between_lines: D,
}

impl<D: Copy> Bookmark<D> {
    /// A copy of the record.
    pub fn duplicate(&self) -> (r: Bookmark<D>)
        ensures
            r == *self,
    {
        Bookmark {
            name: self.name.clone(),
            notes: self.notes.clone(),
            between_keys: self.between_keys,
            between_lines: self.between_lines,
        }
    }
}

/// A file-name character: letters and digits (Unicode), space, `-`, `_`,
/// `(`, `)`; anything else becomes `_`.
pub open spec fn safe_char(c: char) -> char {
    if letter_or_digit(c) || c == ' ' || c == '-' || c == '_' || c == '(' || c == ')' {
        c
    } else {
        '_'
    }
}

/// A name made safe for a file name: unsafe characters replaced, the result
/// trimmed, `melody` when nothing is left.
pub open spec fn sanitize_spec(name: Seq<char>) -> Seq<char> {
    let t = trim(name.map_values(|c: char| safe_char(c)));
    if t.len() == 0 {
        "melody"@
    } else {
        t
    }
}

/// The file name of a melody: its safe name and `.json`.
pub open spec fn file_name_spec(name: Seq<char>) -> Seq<char> {
    sanitize_spec(name) + ".json"@
}

/// Turns a name into a safe file name stem.
pub fn sanitize(name: &str) -> (r: String)
    ensures
        r@ == sanitize_spec(name@),
{
    let cs = chars_of(name);
    let mut cleaned: Vec<char> = Vec::new();
    let mut i: usize = 0;
    while i < cs.len()
        invariant
            i <= cs.len(),
            cs@ == name@,
            cleaned@ == cs@.take(i as int).map_values(|c: char| safe_char(c)),
        decreases cs.len() - i,
    {
        let c = cs[i];
        let keep = is_alphanumeric(c) || c == ' ' || c == '-' || c == '_' || c == '(' || c == ')';
        cleaned.push(if keep {
            c
        } else {
            '_'
        });
        i += 1;
        assert(cleaned@ =~= cs@.take(i as int).map_values(|c: char| safe_char(c)));
    }
    assert(cs@.take(cs.len() as int) =~= cs@);
    let t = trim_chars(&cleaned);
    if t.len() == 0 {
        string_of(&chars_of("melody"))
    } else {
        string_of(&t)
    }
}

/// The file name of a melody in the tracks folder.
pub fn file_name(name: &str) -> (r: String)
    ensures
        r@ == file_name_spec(name@),
{
    let stem = sanitize(name);
    let mut out = chars_of(stem.as_str());
    append_chars(&mut out, &chars_of(".json"));
    string_of(&out)
}

/// The sort key of a melody: its lowercased name.
pub open spec fn name_key<D>(b: Bookmark<D>) -> Seq<char> {
    lower_text(b.name@)
}

/// `x` put into `t` after every element whose key is not greater, scanning
/// from the back (what a stable sort does with a new last element).
pub open spec fn insert_sorted<D>(t: Seq<Bookmark<D>>, x: Bookmark<D>) -> Seq<Bookmark<D>>
    decreases t.len(),
{
    if t.len() == 0 {
        seq![x]
    } else if lex_le(name_key(t.last()), name_key(x)) {
        t.push(x)
    } else {
        insert_sorted(t.drop_last(), x).push(t.last())
    }
}

/// The stable sort of `s` by lowercased name (as `sort_by_key` gives).
pub open spec fn sorted_by_name<D>(s: Seq<Bookmark<D>>) -> Seq<Bookmark<D>>
    decreases s.len(),
{
    if s.len() == 0 {
        seq![]
    } else {
        insert_sorted(sorted_by_name(s.drop_last()), s.last())
    }
}

/// Ordered by lowercased name.
pub open spec fn name_ordered<D>(s: Seq<Bookmark<D>>) -> bool {
    forall|i: int, j: int|
        0 <= i < j < s.len() ==> lex_le(name_key(#[trigger] s[i]), name_key(#[trigger] s[j]))
}

proof fn lemma_insert_sorted<D>(t: Seq<Bookmark<D>>, x: Bookmark<D>)
    requires
        name_ordered(t),
    ensures
        name_ordered(insert_sorted(t, x)),
        insert_sorted(t, x).len() == t.len() + 1,
        insert_sorted(t, x).to_multiset() == t.to_multiset().insert(x),
        forall|i: int| 0 <= i < insert_sorted(t, x).len() ==> #[trigger] insert_sorted(t, x)[i] == x || t.contains(insert_sorted(t, x)[i]),
    decreases t.len(),
{
    let r = insert_sorted(t, x);
    if t.len() == 0 {
        assert(r =~= seq![x]);
        assert(t.to_multiset() =~= vstd::multiset::Multiset::empty());
    } else if lex_le(name_key(t.last()), name_key(x)) {
        assert forall|i: int, j: int| 0 <= i < j < r.len() implies lex_le(
            name_key(#[trigger] r[i]),
            name_key(#[trigger] r[j]),
        ) by {
            if j == t.len() {
                if i < t.len() - 1 {
                    lemma_lex_trans(name_key(t[i]), name_key(t.last()), name_key(x));
                }
            }
        }
        t.to_multiset_ensures();
    } else {
        let u = t.drop_last();
        assert(name_ordered(u));
        lemma_insert_sorted(u, x);
        let v = insert_sorted(u, x);
        lemma_lex_total(name_key(t.last()), name_key(x));
        assert forall|i: int, j: int| 0 <= i < j < r.len() implies lex_le(
            name_key(#[trigger] r[i]),
            name_key(#[trigger] r[j]),
        ) by {
            if j == v.len() {
                assert(r[j] == t.last());
                if v[i] == x {
                } else {
                    assert(u.contains(v[i]));
                    let k = choose|k: int| 0 <= k < u.len() && u[k] == v[i];
                    assert(t[k] == u[k]);
                }
            } else {
                assert(r[i] == v[i]);
                assert(r[j] == v[j]);
            }
        }
        assert(t =~= u.push(t.last()));
        u.to_multiset_ensures();
        v.to_multiset_ensures();
        t.to_multiset_ensures();
        assert forall|i: int| 0 <= i < r.len() implies #[trigger] r[i] == x || t.contains(r[i]) by {
            if i < v.len() {
                assert(r[i] == v[i]);
                if v[i] != x {
                    let k = choose|k: int| 0 <= k < u.len() && u[k] == v[i];
                    assert(t[k] == u[k]);
                }
            } else {
                assert(r[i] == t[t.len() - 1]);
            }
        }
    }
}

/// The stable sort is ordered and a permutation.
pub proof fn lemma_sorted_by_name<D>(s: Seq<Bookmark<D>>)
    ensures
        name_ordered(sorted_by_name(s)),
        sorted_by_name(s).len() == s.len(),
        sorted_by_name(s).to_multiset() == s.to_multiset(),
    decreases s.len(),
{
    if s.len() == 0 {
        assert(s.to_multiset() =~= vstd::multiset::Multiset::empty());
        assert(sorted_by_name(s).to_multiset() =~= vstd::multiset::Multiset::empty());
    } else {
        lemma_sorted_by_name(s.drop_last());
        lemma_insert_sorted(sorted_by_name(s.drop_last()), s.last());
        assert(s =~= s.drop_last().push(s.last()));
        s.drop_last().to_multiset_ensures();
    }
}

/// Inserts `x` into `v` as [`insert_sorted`] does.
fn insert_by_name<D: Copy>(v: &mut Vec<Bookmark<D>>, x: Bookmark<D>)
    ensures
        final(v)@ == insert_sorted(old(v)@, x),
{
    let key = to_lowercase(&chars_of(x.name.as_str()));
    let mut p = v.len();
    // Scan from the back for the first element whose key is not greater.
    while p > 0
        invariant
            p <= v@.len(),
            key@ == name_key(x),
            insert_sorted(v@, x) == insert_sorted(v@.take(p as int), x) + v@.skip(p as int),
        ensures
            p <= v@.len(),
            insert_sorted(v@, x) == insert_sorted(v@.take(p as int), x) + v@.skip(p as int),
            insert_sorted(v@.take(p as int), x) == v@.take(p as int).push(x),
        decreases p,
    {
        let k = to_lowercase(&chars_of(v[p - 1].name.as_str()));
        let ghost t = v@.take(p as int);
        assert(t.last() == v@[p - 1]);
        if lex_le_exec(&k, &key) {
            proof {
                assert(insert_sorted(t, x) == t.push(x));
            }
            break;
        }
        proof {
            assert(t.drop_last() =~= v@.take(p - 1));
            assert(insert_sorted(t, x) == insert_sorted(v@.take(p - 1), x).push(v@[p - 1]));
            assert(insert_sorted(v@.take(p - 1), x).push(v@[p - 1]) + v@.skip(p as int)
                =~= insert_sorted(v@.take(p - 1), x) + v@.skip(p - 1));
        }
        p -= 1;
        proof {
            if p == 0 {
                assert(v@.take(0) =~= Seq::<Bookmark<D>>::empty());
                assert(insert_sorted(v@.take(0), x) =~= v@.take(0).push(x));
            }
        }
    }
    let ghost before = v@;
    v.insert(p, x);
    proof {
        let t = before.take(p as int);
        assert(v@ =~= t.push(x) + before.skip(p as int));
    }
}

/// Sorts melodies by lowercased name, keeping the order of equal names.
pub fn sort_by_name<D: Copy>(v: Vec<Bookmark<D>>) -> (r: Vec<Bookmark<D>>)
    ensures
        r@ == sorted_by_name(v@),
{
    let mut out: Vec<Bookmark<D>> = Vec::new();
    let mut v = v;
    let ghost orig = v@;
    // Take elements from the front in order.
    let n = v.len();
    let mut i: usize = 0;
    while i < n
        invariant
            n == orig.len(),
            v@ == orig,
            i <= n,
            out@ == sorted_by_name(orig.take(i as int)),
        decreases n - i,
    {
        let x = v[i].duplicate();
        proof {
            assert(orig.take(i + 1).drop_last() =~= orig.take(i as int));
            assert(orig.take(i + 1).last() == orig[i as int]);
        }
        insert_by_name(&mut out, x);
        i += 1;
    }
    assert(orig.take(n as int) =~= orig);
    out
}


/// A safe name is not empty, trimmed, made of safe characters only, and
/// making it safe again changes nothing.
pub proof fn lemma_sanitize_safe(name: Seq<char>)
    ensures
        sanitize_spec(name).len() > 0,
        trim(sanitize_spec(name)) == sanitize_spec(name),
        forall|i: int|
            0 <= i < sanitize_spec(name).len() ==> safe_char(#[trigger] sanitize_spec(name)[i])
                == sanitize_spec(name)[i],
        sanitize_spec(sanitize_spec(name)) == sanitize_spec(name),
{
    reveal_strlit("melody");
    let m = name.map_values(|c: char| safe_char(c));
    let t = trim(m);
    lemma_trim_props(m);
    if t.len() > 0 {
        assert forall|i: int| 0 <= i < t.len() implies safe_char(#[trigger] t[i]) == t[i] by {
            assert(m.contains(t[i]));
            let k = choose|k: int| 0 <= k < m.len() && m[k] == t[i];
            assert(m[k] == safe_char(name[k]));
        }
        assert(t.map_values(|c: char| safe_char(c)) =~= t);
    } else {
        let w = "melody"@;
        assert(w =~= seq!['m', 'e', 'l', 'o', 'd', 'y']);
        assert forall|i: int| 0 <= i < w.len() implies safe_char(#[trigger] w[i]) == w[i] by {}
        assert(w.map_values(|c: char| safe_char(c)) =~= w);
        lemma_trim_props(w);
        assert(trim_start(w) == w);
        assert(trim_end(w) == w);
        assert(trim(w) == w);
    }
}


/// Two names share a melody file exactly when their safe names agree.
pub proof fn lemma_same_file_same_safe_name(a: Seq<char>, b: Seq<char>)
    ensures
        (file_name_spec(a) == file_name_spec(b)) == (sanitize_spec(a) == sanitize_spec(b)),
{
    let x = sanitize_spec(a);
    let y = sanitize_spec(b);
    let ext = ".json"@;
    if file_name_spec(a) == file_name_spec(b) {
        assert((x + ext).take(x.len() as int) =~= x);
        assert((y + ext).take(y.len() as int) =~= y);
        assert(x.len() == y.len());
    }
}


/// No two melodies share a name.
pub open spec fn unique_names<D>(s: Seq<Bookmark<D>>) -> bool {
    forall|i: int, j: int| 0 <= i < j < s.len() ==> (#[trigger] s[i]).name@ != (#[trigger] s[j]).name@
}

proof fn lemma_insert_members<D>(t: Seq<Bookmark<D>>, x: Bookmark<D>)
    ensures
        insert_sorted(t, x).len() == t.len() + 1,
        forall|i: int| 0 <= i < insert_sorted(t, x).len() ==> #[trigger] insert_sorted(t, x)[i] == x || t.contains(insert_sorted(t, x)[i]),
    decreases t.len(),
{
    if t.len() > 0 && !lex_le(name_key(t.last()), name_key(x)) {
        let d = t.drop_last();
        lemma_insert_members(d, x);
        let ins = insert_sorted(d, x);
        assert forall|i: int| 0 <= i < insert_sorted(t, x).len() implies #[trigger] insert_sorted(t, x)[i] == x || t.contains(insert_sorted(t, x)[i]) by {
            if i < ins.len() {
                assert(insert_sorted(t, x)[i] == ins[i]);
                if ins[i] != x {
                    let k = choose|k: int| 0 <= k < d.len() && d[k] == ins[i];
                    assert(t[k] == d[k]);
                }
            } else {
                assert(insert_sorted(t, x)[i] == t[t.len() - 1]);
            }
        }
    } else if t.len() > 0 {
        assert forall|i: int| 0 <= i < insert_sorted(t, x).len() implies #[trigger] insert_sorted(t, x)[i] == x || t.contains(insert_sorted(t, x)[i]) by {
            if i < t.len() {
                assert(insert_sorted(t, x)[i] == t[i]);
            }
        }
    }
}

proof fn lemma_insert_unique<D>(t: Seq<Bookmark<D>>, x: Bookmark<D>)
    requires
        unique_names(t),
        forall|k: int| 0 <= k < t.len() ==> (#[trigger] t[k]).name@ != x.name@,
    ensures
        unique_names(insert_sorted(t, x)),
    decreases t.len(),
{
    lemma_insert_members(t, x);
    if t.len() > 0 && !lex_le(name_key(t.last()), name_key(x)) {
        let d = t.drop_last();
        assert forall|k: int| 0 <= k < d.len() implies (#[trigger] d[k]).name@ != x.name@ by {
            assert(d[k] == t[k]);
        }
        assert forall|i: int, j: int| 0 <= i < j < d.len() implies (#[trigger] d[i]).name@ != (#[trigger] d[j]).name@ by {
            assert(d[i] == t[i] && d[j] == t[j]);
        }
        lemma_insert_unique(d, x);
        lemma_insert_members(d, x);
        let ins = insert_sorted(d, x);
        let r = insert_sorted(t, x);
        let last = t[t.len() - 1];
        assert(r == ins.push(last));
        assert forall|i: int, j: int| 0 <= i < j < r.len() implies (#[trigger] r[i]).name@ != (#[trigger] r[j]).name@ by {
            if j < ins.len() {
                assert(r[i] == ins[i] && r[j] == ins[j]);
            } else {
                assert(r[j] == last);
                assert(r[i] == ins[i]);
                if ins[i] != x {
                    let k = choose|k: int| 0 <= k < d.len() && d[k] == ins[i];
                    assert(t[k] == d[k]);
                }
            }
        }
    } else if t.len() > 0 {
        let r = insert_sorted(t, x);
        assert(r == t.push(x));
        assert forall|i: int, j: int| 0 <= i < j < r.len() implies (#[trigger] r[i]).name@ != (#[trigger] r[j]).name@ by {
            assert(r[i] == t[i]);
            if j < t.len() {
                assert(r[j] == t[j]);
            }
        }
    }
}

proof fn lemma_sorted_members_unique<D>(s: Seq<Bookmark<D>>)
    ensures
        sorted_by_name(s).len() == s.len(),
        forall|i: int| 0 <= i < sorted_by_name(s).len() ==> s.contains(#[trigger] sorted_by_name(s)[i]),
        unique_names(s) ==> unique_names(sorted_by_name(s)),
    decreases s.len(),
{
    if s.len() > 0 {
        let d = s.drop_last();
        lemma_sorted_members_unique(d);
        let sd = sorted_by_name(d);
        let x = s[s.len() - 1];
        lemma_insert_members(sd, x);
        let r = sorted_by_name(s);
        assert(r == insert_sorted(sd, x));
        assert forall|i: int| 0 <= i < r.len() implies s.contains(#[trigger] r[i]) by {
            if r[i] != x {
                assert(sd.contains(r[i]));
                let k = choose|k: int| 0 <= k < sd.len() && sd[k] == r[i];
                assert(d.contains(sd[k]));
                let m = choose|m: int| 0 <= m < d.len() && d[m] == sd[k];
                assert(s[m] == d[m]);
            } else {
                assert(s[s.len() - 1] == x);
            }
        }
        if unique_names(s) {
            assert forall|i: int, j: int| 0 <= i < j < d.len() implies (#[trigger] d[i]).name@ != (#[trigger] d[j]).name@ by {
                assert(d[i] == s[i] && d[j] == s[j]);
            }
            assert forall|k: int| 0 <= k < sd.len() implies (#[trigger] sd[k]).name@ != x.name@ by {
                assert(d.contains(sd[k]));
                let m = choose|m: int| 0 <= m < d.len() && d[m] == sd[k];
                assert(s[m] == d[m]);
            }
            lemma_insert_unique(sd, x);
        }
    }
}

/// Sorting by name keeps names unique.
pub proof fn lemma_sort_keeps_names_unique<D>(s: Seq<Bookmark<D>>)
    requires
        unique_names(s),
    ensures
        unique_names(sorted_by_name(s)),
{
    lemma_sorted_members_unique(s);
}

} // verus!
