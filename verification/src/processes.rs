//! Filtering by the active process/window.
use vstd::prelude::*;
use crate::text::{
    chars_of, contains_seq, find_at, lemma_lex_total, lemma_lex_trans, lex_le, lex_le_exec,
    lower_text, occurs_at, sub_vec, to_lowercase, find_from, lemma_contains_somewhere,
};

verus! {

broadcast use {vstd::seq::group_seq_axioms, vstd::seq_lib::group_seq_properties};

/// What to do while a process is in front.
#[derive(Clone, Copy, Debug, PartialEq, Eq, Structural)]
pub enum ProcessMode {
    Neutral,
    Track,
    Ignore,
}

impl ProcessMode {
    /// The mode after this one in the cycle None → Track → Ignore → None.
    pub open spec fn spec_next(self) -> ProcessMode {
        match self {
            ProcessMode::Neutral => ProcessMode::Track,
            ProcessMode::Track => ProcessMode::Ignore,
            ProcessMode::Ignore => ProcessMode::Neutral,
        }
    }

    /// The next mode in the cycle.
    pub fn next(self) -> (r: ProcessMode)
        ensures
            r == self.spec_next(),
    {
        match self {
            ProcessMode::Neutral => ProcessMode::Track,
            ProcessMode::Track => ProcessMode::Ignore,
            ProcessMode::Ignore => ProcessMode::Neutral,
        }
    }
}

impl Default for ProcessMode {
    fn default() -> (r: ProcessMode)
        ensures
            r == ProcessMode::Neutral,
    {
        ProcessMode::Neutral
    }
}

/// A rule for one process name.
#[derive(Clone, Debug)]
pub struct ProcessEntry {
    pub name: String,
    pub mode: ProcessMode,
}

/// Process filtering rules.
#[derive(Clone, Debug)]
pub struct ProcessConfig {
    pub enabled: bool,
    pub entries: Vec<ProcessEntry>,
}

impl Default for ProcessConfig {
    fn default() -> (r: ProcessConfig)
        ensures
            !r.enabled,
            r.entries@.len() == 0,
    {
        ProcessConfig { enabled: false, entries: Vec::new() }
    }
}

/// A window name and a rule's name refer to each other: either one,
/// lowercased, contains the other, lowercased.
pub open spec fn names_related(window: Seq<char>, entry: Seq<char>) -> bool {
    contains_seq(lower_text(window), lower_text(entry)) || contains_seq(
        lower_text(entry),
        lower_text(window),
    )
}

/// The mode of the first rule from the `i`-th on that relates to `window`.
pub open spec fn mode_from(entries: Seq<ProcessEntry>, window: Seq<char>, i: int) -> Option<
    ProcessMode,
>
    decreases entries.len() - i,
{
    if i < 0 || i >= entries.len() {
        None
    } else if names_related(window, entries[i].name@) {
        Some(entries[i].mode)
    } else {
        mode_from(entries, window, i + 1)
    }
}

/// Whether rules allow starting playback (`Some(true)`), block it
/// (`Some(false)`), or do not apply (`None`), given the front window.
pub open spec fn allow_spec(cfg: ProcessConfig, window: Option<String>) -> Option<bool> {
    if !cfg.enabled {
        None
    } else {
        let name = match window {
            Some(w) => w@,
            None => Seq::<char>::empty(),
        };
        match mode_from(cfg.entries@, name, 0) {
            Some(ProcessMode::Track) => Some(true),
            Some(ProcessMode::Ignore) => Some(false),
            _ => None,
        }
    }
}

/// Whether `pat` occurs in `s`.
fn contains_chars(s: &Vec<char>, pat: &Vec<char>) -> (r: bool)
    ensures
        r == contains_seq(s@, pat@),
{
    find_at(s, pat, 0).is_some()
}

impl ProcessConfig {
    /// The mode of the first rule that relates to the window name.
    pub fn window_mode(&self, name: &str) -> (r: Option<ProcessMode>)
        ensures
            r == mode_from(self.entries@, name@, 0),
    {
        let lower = to_lowercase(&chars_of(name));
        let mut i: usize = 0;
        while i < self.entries.len()
            invariant
                i <= self.entries@.len(),
                lower@ == lower_text(name@),
                mode_from(self.entries@, name@, 0) == mode_from(self.entries@, name@, i as int),
            decreases self.entries@.len() - i,
        {
            let entry = &self.entries[i];
            let entry_lower = to_lowercase(&chars_of(entry.name.as_str()));
            if contains_chars(&lower, &entry_lower) || contains_chars(&entry_lower, &lower) {
                return Some(entry.mode);
            }
            i += 1;
        }
        None
    }

    /// `None`: rules do not apply; `Some(true)`: allow; `Some(false)`: block.
    pub fn should_allow(&self, active_window: &Option<String>) -> (r: Option<bool>)
        ensures
            r == allow_spec(*self, *active_window),
    {
        if !self.enabled {
            return None;
        }
        proof {
            reveal_strlit("");
            assert(""@ =~= Seq::<char>::empty());
        }
        let mode = match active_window {
            Some(w) => self.window_mode(w.as_str()),
            None => self.window_mode(""),
        };
        match mode {
            Some(ProcessMode::Track) => Some(true),
            Some(ProcessMode::Ignore) => Some(false),
            _ => None,
        }
    }
}

/// The first `n` elements, or all of them when there are fewer.
pub open spec fn first_n<A>(s: Seq<A>, n: int) -> Seq<A> {
    if s.len() <= n {
        s
    } else {
        s.take(n)
    }
}

/// The names whose lowercase contains the query's lowercase.
pub open spec fn search_hits(query: Seq<char>, names: Seq<Seq<char>>) -> Seq<Seq<char>> {
    names.filter(|n: Seq<char>| contains_seq(lower_text(n), lower_text(query)))
}

/// At most eight cached names matching a non-empty query, in cache order.
pub open spec fn search_spec(query: Seq<char>, names: Seq<Seq<char>>) -> Seq<Seq<char>> {
    if query.len() == 0 {
        seq![]
    } else {
        first_n(search_hits(query, names), 8)
    }
}

/// The texts of strings.
pub open spec fn texts(v: Seq<String>) -> Seq<Seq<char>> {
    v.map_values(|s: String| s@)
}

/// Up to eight cached process names containing the query, case-insensitively.
pub fn search_processes(query: &str, cached: &[String]) -> (r: Vec<String>)
    ensures
        texts(r@) == search_spec(query@, texts(cached@)),
{
    let mut out: Vec<String> = Vec::new();
    if query.is_empty() {
        assert(texts(out@) =~= Seq::<Seq<char>>::empty());
        return out;
    }
    let q = to_lowercase(&chars_of(query));
    let ghost names = texts(cached@);
    let ghost pred = |n: Seq<char>| contains_seq(lower_text(n), lower_text(query@));
    let mut i: usize = 0;
    assert(names.take(0).filter(pred) =~= Seq::<Seq<char>>::empty());
    assert(texts(out@) =~= Seq::<Seq<char>>::empty());
    while i < cached.len() && out.len() < 8
        invariant
            i <= cached@.len(),
            names == texts(cached@),
            names.len() == cached@.len(),
            q@ == lower_text(query@),
            pred == (|n: Seq<char>| contains_seq(lower_text(n), lower_text(query@))),
            texts(out@) == names.take(i as int).filter(pred),
            out@.len() <= 8,
        decreases cached@.len() - i,
    {
        let name = &cached[i];
        let lower = to_lowercase(&chars_of(name.as_str()));
        proof {
            assert(names[i as int] == name@);
            assert(names.take(i + 1) =~= names.take(i as int).push(name@));
            names.take(i as int).lemma_filter_push(name@, pred);
        }
        if contains_chars(&lower, &q) {
            let ghost before = out@;
            out.push(name.clone());
            assert(texts(out@) =~= texts(before).push(name@));
        }
        i += 1;
    }
    proof {
        let hits = names.filter(pred);
        assert(names =~= names.take(i as int) + names.skip(i as int));
        vstd::seq_lib::lemma_seq_skip_nothing(names, 0);
        Seq::filter_distributes_over_add(names.take(i as int), names.skip(i as int), pred);
        if i == cached@.len() {
            assert(names.take(i as int) =~= names);
        } else {
            assert(hits.take(8) =~= names.take(i as int).filter(pred));
        }
    }
    out
}

/// A search returns at most eight cached names, each with the query's
/// lowercase somewhere in its own lowercase (not only at its start); when
/// fewer than eight come back, every cached name with the query in it is
/// among them.
pub proof fn lemma_search_finds_anywhere(query: Seq<char>, names: Seq<Seq<char>>)
    requires
        query.len() > 0,
    ensures
        search_spec(query, names).len() <= 8,
        forall|i: int|
            0 <= i < search_spec(query, names).len() ==> names.contains(
                #[trigger] search_spec(query, names)[i],
            ) && exists|p: int| occurs_at(lower_text(search_spec(query, names)[i]), lower_text(query), p),
        search_spec(query, names).len() < 8 ==> forall|n: Seq<char>|
            #![trigger names.contains(n)]
            names.contains(n) && (exists|p: int| occurs_at(lower_text(n), lower_text(query), p))
                ==> search_spec(query, names).contains(n),
{
    broadcast use vstd::seq_lib::group_filter_ensures;
    let pred = |n: Seq<char>| contains_seq(lower_text(n), lower_text(query));
    let hits = names.filter(pred);
    let r = search_spec(query, names);
    assert(hits == search_hits(query, names));
    assert forall|i: int| 0 <= i < r.len() implies names.contains(#[trigger] r[i]) && exists|p: int|
        occurs_at(lower_text(r[i]), lower_text(query), p) by {
        assert(r[i] == hits[i]);
        assert(pred(hits[i]));
        assert(hits.contains(hits[i]));
        names.lemma_filter_contains_rev(pred, hits[i]);
        lemma_contains_somewhere(lower_text(r[i]), lower_text(query));
    }
    if r.len() < 8 {
        assert(r == hits);
        assert forall|n: Seq<char>|
            #![trigger names.contains(n)]
            names.contains(n) && (exists|p: int| occurs_at(lower_text(n), lower_text(query), p))
                implies r.contains(n) by {
            lemma_contains_somewhere(lower_text(n), lower_text(query));
            let j = choose|j: int| 0 <= j < names.len() && names[j] == n;
            assert(pred(names[j]));
            names.lemma_filter_contains(pred, j);
        }
    }
}

/// A process name without a trailing `.exe` (any case) on Windows.
pub open spec fn strip_exe_spec(name: Seq<char>, windows: bool) -> Seq<char> {
    let lower = lower_text(name);
    if windows && lower.len() >= 4 && lower.skip(lower.len() - 4) == ".exe"@ && name.len() >= 4 {
        name.take(name.len() - 4)
    } else {
        name
    }
}

/// Drops a trailing `.exe` on Windows.
pub fn strip_exe(name: String, windows: bool) -> (r: String)
    ensures
        r@ == strip_exe_spec(name@, windows),
{
    if !windows {
        return name;
    }
    let chars = chars_of(name.as_str());
    let lower = to_lowercase(&chars);
    let exe = chars_of(".exe");
    proof {
        reveal_strlit(".exe");
    }
    if lower.len() >= 4 && chars.len() >= 4 {
        let same = crate::text::matches_at(&lower, &exe, lower.len() - 4);
        assert(lower@.subrange(lower@.len() - 4, lower@.len() as int) =~= lower@.skip(
            lower@.len() - 4,
        ));
        if same {
            let kept = sub_vec(&chars, 0, chars.len() - 4);
            assert(kept@ =~= name@.take(name@.len() - 4));
            return crate::text::string_of(&kept);
        }
    }
    name
}

/// The characters of `v` hold no value twice.
pub open spec fn no_dups<A>(v: Seq<A>) -> bool {
    forall|i: int, j: int| 0 <= i < j < v.len() ==> v[i] != v[j]
}

/// Sorted by the lowercase of each name.
pub open spec fn sorted_by_lower(v: Seq<Seq<char>>) -> bool {
    forall|i: int, j: int|
        0 <= i < j < v.len() ==> lex_le(lower_text(#[trigger] v[i]), lower_text(#[trigger] v[j]))
}

/// What the process list gives: each name once, sorted case-insensitively.
pub open spec fn distinct_sorted(raw: Seq<Seq<char>>, out: Seq<Seq<char>>) -> bool {
    &&& no_dups(out)
    &&& out.to_set() == raw.to_set()
    &&& sorted_by_lower(out)
}

/// The distinct names of `raw`, sorted by their lowercase (names equal
/// when lowercased keep no particular order among themselves).
pub fn distinct_sorted_names(raw: Vec<String>) -> (r: Vec<String>)
    ensures
        distinct_sorted(texts(raw@), texts(r@)),
{
    let mut out: Vec<String> = Vec::new();
    let mut keys: Vec<Vec<char>> = Vec::new();
    let mut i: usize = 0;
    let ghost rt = texts(raw@);
    while i < raw.len()
        invariant
            i <= raw@.len(),
            rt == texts(raw@),
            keys@.len() == out@.len(),
            forall|k: int| 0 <= k < out@.len() ==> (#[trigger] keys@[k])@ == lower_text(out@[k]@),
            no_dups(texts(out@)),
            texts(out@).to_set() == rt.take(i as int).to_set(),
            sorted_by_lower(texts(out@)),
        decreases raw@.len() - i,
    {
        let name = &raw[i];
        let ghost nt = name@;
        proof {
            assert(rt[i as int] == nt);
            assert(rt.take(i + 1) =~= rt.take(i as int).push(nt));
        }
        // Already present?
        let mut present = false;
        let mut j: usize = 0;
        while j < out.len()
            invariant
                j <= out@.len(),
                nt == name@,
                present == exists|k: int| 0 <= k < j && out@[k]@ == nt,
            decreases out@.len() - j,
        {
            let same = out[j] == *name;
            proof {
                if same {
                    assert(out@[j as int]@ == nt);
                }
                if !same && !present {
                    assert forall|k: int| 0 <= k < j + 1 implies out@[k]@ != nt by {
                        if k < j {
                        }
                    }
                }
            }
            if same {
                present = true;
            }
            j += 1;
        }
        if present {
            proof {
                let k = choose|k: int| 0 <= k < out@.len() && out@[k]@ == nt;
                assert(texts(out@)[k] == nt);
                assert(rt.take(i as int).push(nt).to_set() =~= rt.take(i as int).to_set().insert(
                    nt,
                ));
                assert(texts(out@).to_set().contains(nt));
                assert(rt.take(i + 1).to_set() =~= texts(out@).to_set());
            }
        } else {
            let key = to_lowercase(&chars_of(name.as_str()));
            // Insertion point: after every name whose key is not greater.
            let mut p: usize = 0;
            while p < out.len() && lex_le_exec(&keys[p], &key)
                invariant
                    p <= out@.len(),
                    keys@.len() == out@.len(),
                    forall|k: int|
                        0 <= k < out@.len() ==> (#[trigger] keys@[k])@ == lower_text(out@[k]@),
                    key@ == lower_text(nt),
                    forall|k: int| 0 <= k < p ==> lex_le(lower_text(#[trigger] out@[k]@), key@),
                decreases out@.len() - p,
            {
                p += 1;
            }
            let ghost old_out = texts(out@);
            proof {
                if p < out@.len() {
                    lemma_lex_total(keys@[p as int]@, key@);
                }
                assert forall|k: int| p <= k < old_out.len() implies lex_le(
                    key@,
                    lower_text(#[trigger] old_out[k]),
                ) by {
                    lemma_lex_total(keys@[p as int]@, key@);
                    if k > p {
                        assert(lex_le(lower_text(old_out[p as int]), lower_text(old_out[k])));
                        lemma_lex_trans(key@, lower_text(old_out[p as int]), lower_text(old_out[k]));
                    }
                }
            }
            out.insert(p, name.clone());
            keys.insert(p, key);
            proof {
                let nw = texts(out@);
                assert(nw =~= old_out.insert(p as int, nt));
                assert forall|a: int, b: int| 0 <= a < b < nw.len() implies nw[a] != nw[b] by {
                    if a == p as int {
                        assert(nw[b] == old_out[b - 1]);
                        assert(!texts(out@).contains(nt) || true);
                    }
                }
                assert forall|a: int, b: int|
                    0 <= a < b < nw.len() implies lex_le(lower_text(#[trigger] nw[a]), lower_text(#[trigger] nw[b])) by {
                    if a < p && b == p {
                    } else if a == p && b > p {
                        assert(nw[b] == old_out[b - 1]);
                    } else if a < p && b > p {
                        assert(nw[b] == old_out[b - 1]);
                        lemma_lex_trans(lower_text(old_out[a]), key@, lower_text(old_out[b - 1]));
                    } else if a > p {
                        assert(nw[a] == old_out[a - 1]);
                        assert(nw[b] == old_out[b - 1]);
                    }
                }
                assert(nw.to_set() =~= old_out.to_set().insert(nt));
                assert(rt.take(i as int).push(nt).to_set() =~= rt.take(i as int).to_set().insert(
                    nt,
                ));
            }
        }
        i += 1;
    }
    assert(rt.take(raw@.len() as int) =~= rt);
    out
}

} // verus!

verus! {

/// The process list of the machine (sysinfo's snapshot type).
#[verifier::external_type_specification]
#[verifier::external_body]
pub struct ExSystem(sysinfo::System);

/// Calls `sysinfo::System::new`: an empty snapshot; nothing is stated of it.
#[verifier::external_body]
fn system_new() -> sysinfo::System {
    sysinfo::System::new()
}

/// Calls `sysinfo::System::refresh_processes`, which reads the running
/// processes; what it finds depends on the machine, so nothing is stated.
#[verifier::external_body]
fn refresh_processes(sys: &mut sysinfo::System) {
    sys.refresh_processes();
}

/// Calls `sysinfo::System::processes` and reads each process's name; the
/// names depend on the machine, so nothing is stated of them.
#[verifier::external_body]
fn process_names(sys: &sysinfo::System) -> Vec<String> {
    sys.processes().values().map(|p| p.name().to_string()).collect()
}

/// Names with `.exe` dropped on Windows.
pub open spec fn shown_names(raw: Seq<Seq<char>>, windows: bool) -> Seq<Seq<char>> {
    raw.map_values(|n: Seq<char>| strip_exe_spec(n, windows))
}

/// Process names as shown in the picker: `.exe` dropped on Windows, each
/// name once, sorted case-insensitively.
pub fn process_list(raw: Vec<String>, windows: bool) -> (r: Vec<String>)
    ensures
        distinct_sorted(shown_names(texts(raw@), windows), texts(r@)),
{
    let mut stripped: Vec<String> = Vec::new();
    let mut raw = raw;
    let ghost orig = texts(raw@);
    let mut i: usize = 0;
    let n = raw.len();
    while i < n
        invariant
            n == raw@.len(),
            i <= n,
            orig == texts(raw@),
            texts(stripped@) == orig.take(i as int).map_values(
                |n: Seq<char>| strip_exe_spec(n, windows),
            ),
        decreases n - i,
    {
        let name = raw[i].clone();
        let ghost before = texts(stripped@);
        stripped.push(strip_exe(name, windows));
        proof {
            assert(orig[i as int] == raw@[i as int]@);
            assert(orig.take(i + 1) =~= orig.take(i as int).push(orig[i as int]));
            assert(texts(stripped@) =~= before.push(strip_exe_spec(orig[i as int], windows)));
            assert(orig.take(i + 1).map_values(|n: Seq<char>| strip_exe_spec(n, windows))
                =~= orig.take(i as int).map_values(|n: Seq<char>| strip_exe_spec(n, windows)).push(
                strip_exe_spec(orig[i as int], windows),
            ));
        }
        i += 1;
    }
    assert(orig.take(n as int) =~= orig);
    assert(texts(stripped@) =~= shown_names(orig, windows));
    distinct_sorted_names(stripped)
}

/// The names of the running processes (see [`process_list`]); which
/// processes run is up to the machine.
pub fn list_running_processes(windows: bool) -> (r: Vec<String>)
    ensures
        exists|raw: Seq<Seq<char>>| #[trigger] distinct_sorted(shown_names(raw, windows), texts(r@)),
{
    let mut sys = system_new();
    refresh_processes(&mut sys);
    let raw = process_names(&sys);
    let ghost names = texts(raw@);
    let r = process_list(raw, windows);
    assert(distinct_sorted(shown_names(names, windows), texts(r@)));
    r
}

} // verus!
