//! Importing a melody from a web page (virtualpiano.net music sheets).
//!
//! Fetching the page is the application's business; this module decides what
//! the fetched page (or the fetch error) yields.
use vstd::prelude::*;
use crate::text::{
    append_chars, chars_of, find_at, find_first, find_from, join, lemma_find_first, occurs_at,
    matches_at, split_on, string_of, sub_vec, trim, trim_chars,
    trim_start_matches, trim_start_matches_chars, contains_seq,
};

verus! {

broadcast use {vstd::seq::group_seq_axioms, vstd::seq_lib::group_seq_properties};

/// Why an import failed.
#[derive(Debug)]
pub enum ImportError {
    Fetch(String),
    Parse(String),
}

/// An imported melody.
pub struct ImportResult {
    pub name: String,
    pub notes: String,
}

// ---------------------------------------------------------------------
// Specification
// ---------------------------------------------------------------------

/// The text between the first `open` and the first `close` after it.
pub open spec fn between_spec(s: Seq<char>, open: Seq<char>, close: Seq<char>) -> Option<
    Seq<char>,
> {
    match find_first(s, open) {
        None => None,
        Some(i) => {
            let st = i + open.len();
            match find_first(s.skip(st), close) {
                None => None,
                Some(e) => Some(s.subrange(st, st + e)),
            }
        },
    }
}

/// `s` without the characters from each `<` up to the next `>`, given
/// whether a tag is open at its start.
pub open spec fn strip_tags_from(s: Seq<char>, in_tag: bool) -> Seq<char>
    decreases s.len(),
{
    if s.len() == 0 {
        seq![]
    } else {
        let c = s[0];
        let rest = s.drop_first();
        if c == '<' {
            strip_tags_from(rest, true)
        } else if c == '>' {
            strip_tags_from(rest, false)
        } else if !in_tag {
            seq![c] + strip_tags_from(rest, in_tag)
        } else {
            strip_tags_from(rest, in_tag)
        }
    }
}

/// `s` with its HTML tags removed.
pub open spec fn strip_tags_spec(s: Seq<char>) -> Seq<char> {
    strip_tags_from(s, false)
}

/// The entity that `s` begins with, if any, and the character it stands
/// for: `&amp;` `&lt;` `&gt;` `&quot;` `&#39;` `&nbsp;` `&#13;` `&#10;`.
pub open spec fn leading_entity(s: Seq<char>) -> Option<(Seq<char>, char)> {
    let amp = seq!['&', 'a', 'm', 'p', ';'];
    let lt = seq!['&', 'l', 't', ';'];
    let gt = seq!['&', 'g', 't', ';'];
    let quot = seq!['&', 'q', 'u', 'o', 't', ';'];
    let apos = seq!['&', '#', '3', '9', ';'];
    let nbsp = seq!['&', 'n', 'b', 's', 'p', ';'];
    let cr = seq!['&', '#', '1', '3', ';'];
    let lf = seq!['&', '#', '1', '0', ';'];
    if occurs_at(s, amp, 0) {
        Some((amp, '&'))
    } else if occurs_at(s, lt, 0) {
        Some((lt, '<'))
    } else if occurs_at(s, gt, 0) {
        Some((gt, '>'))
    } else if occurs_at(s, quot, 0) {
        Some((quot, '"'))
    } else if occurs_at(s, apos, 0) {
        Some((apos, '\''))
    } else if occurs_at(s, nbsp, 0) {
        Some((nbsp, ' '))
    } else if occurs_at(s, cr, 0) {
        Some((cr, '\r'))
    } else if occurs_at(s, lf, 0) {
        Some((lf, '\n'))
    } else {
        None
    }
}

/// `s` with its HTML entities decoded in one pass from the left: where an
/// entity begins, the character it stands for; elsewhere the character
/// itself. What an entity gives is not decoded again (`&amp;lt;` is `&lt;`).
pub open spec fn html_decode_spec(s: Seq<char>) -> Seq<char>
    decreases s.len(),
{
    if s.len() == 0 {
        seq![]
    } else {
        match leading_entity(s) {
            Some((p, c)) => seq![c] + html_decode_spec(s.skip(p.len() as int)),
            None => seq![s[0]] + html_decode_spec(s.drop_first()),
        }
    }
}

/// The name cut out of a page title `Play NAME Music Sheet | ...`.
pub open spec fn title_name(raw: Seq<char>) -> Seq<char> {
    let s = trim_start_matches(trim(strip_tags_spec(raw)), "Play "@);
    match find_first(s, " Music Sheet"@) {
        Some(p) => trim(s.take(p)),
        None => match find_first(s, " | "@) {
            Some(p) => trim(s.take(p)),
            None => s,
        },
    }
}

/// The melody name a page gives: from its `<title>`, else `Imported`.
pub open spec fn title_text(html: Seq<char>) -> Seq<char> {
    match between_spec(html, "<title>"@, "</title>"@) {
        None => "Imported"@,
        Some(raw) => if title_name(raw).len() > 0 {
            title_name(raw)
        } else {
            "Imported"@
        },
    }
}

/// The text of the first `<p>` after the `id="sheet-content"` marker.
pub open spec fn sheet_paragraph(html: Seq<char>) -> Option<Seq<char>> {
    let marker = "id=\"sheet-content\""@;
    match find_first(html, marker) {
        None => None,
        Some(pos) => {
            let rest = html.skip(pos + marker.len());
            match find_first(rest, "<p"@) {
                None => None,
                Some(p_start) => match find_first(rest.skip(p_start), ">"@) {
                    None => None,
                    Some(gt) => {
                        let inner_start = gt + p_start + 1;
                        match find_first(rest.skip(inner_start), "</p>"@) {
                            None => None,
                            Some(inner_end) => Some(
                                rest.subrange(inner_start, inner_start + inner_end),
                            ),
                        }
                    },
                },
            }
        },
    }
}

/// Trimmed, non-empty pieces between `||` separators.
pub open spec fn sheet_lines(decoded: Seq<char>) -> Seq<Seq<char>> {
    split_on(decoded, "||"@).map_values(|l: Seq<char>| trim(l)).filter(
        |l: Seq<char>| l.len() > 0,
    )
}

/// The notes of a page: the sheet paragraph without tags, entities decoded,
/// its `||`-separated lines trimmed, empty ones dropped, joined by `\n`;
/// `None` when there is no paragraph or nothing is left.
pub open spec fn sheet_notes(html: Seq<char>) -> Option<Seq<char>> {
    match sheet_paragraph(html) {
        None => None,
        Some(raw) => {
            let notes = join(sheet_lines(html_decode_spec(strip_tags_spec(raw))), "\n"@);
            if notes.len() == 0 {
                None
            } else {
                Some(notes)
            }
        },
    }
}

/// What parsing a fetched virtualpiano.net page yields.
pub open spec fn page_result(html: Seq<char>, r: Result<ImportResult, ImportError>) -> bool {
    match sheet_notes(html) {
        None => r matches Err(ImportError::Parse(m)) && m@ == "Ноты не найдены на странице"@,
        Some(n) => r matches Ok(res) && res.name@ == title_text(html) && res.notes@ == n,
    }
}

// ---------------------------------------------------------------------
// Implementation
// ---------------------------------------------------------------------

impl ImportError {
    /// The message shown to the user.
    pub fn message(&self) -> (r: String)
        ensures
            r@ == match self {
                ImportError::Fetch(e) => "Ошибка загрузки: "@ + e@,
                ImportError::Parse(e) => "Ошибка парсинга: "@ + e@,
            },
    {
        let (head, e) = match self {
            ImportError::Fetch(e) => (chars_of("Ошибка загрузки: "), e),
            ImportError::Parse(e) => (chars_of("Ошибка парсинга: "), e),
        };
        let mut out = head;
        let tail = chars_of(e.as_str());
        append_chars(&mut out, &tail);
        string_of(&out)
    }
}

/// Shifting a search: searching `s[p..]` from `i` is searching `s` from `p + i`.
proof fn lemma_find_from_skip(s: Seq<char>, pat: Seq<char>, p: int, i: int)
    requires
        0 <= p <= s.len(),
        0 <= i,
    ensures
        find_from(s.skip(p), pat, i) == match find_from(s, pat, p + i) {
            Some(j) => Some(j - p),
            None => None::<int>,
        },
    decreases s.len() + 1 - (p + i),
{
    let t = s.skip(p);
    if i + pat.len() > t.len() {
    } else {
        assert(t.subrange(i, i + pat.len()) =~= s.subrange(p + i, p + i + pat.len()));
        if occurs_at(t, pat, i) {
        } else {
            lemma_find_from_skip(s, pat, p, i + 1);
        }
    }
}

/// `find` on `s[from..]`, as a position in `s[from..]`.
fn find_in(s: &Vec<char>, pat: &Vec<char>, from: usize) -> (r: Option<usize>)
    requires
        from <= s.len(),
    ensures
        match find_first(s@.skip(from as int), pat@) {
            Some(j) => r == Some(j as usize),
            None => r is None,
        },
        r matches Some(j) ==> from + j + pat.len() <= s.len(),
{
    proof {
        lemma_find_from_skip(s@, pat@, from as int, 0);
        lemma_find_first(s@.skip(from as int), pat@);
    }
    match find_at(s, pat, from) {
        Some(j) => Some(j - from),
        None => None,
    }
}

/// The text between the first `open` and the first `close` after it.
fn between(s: &Vec<char>, open: &Vec<char>, close: &Vec<char>) -> (r: Option<Vec<char>>)
    ensures
        match between_spec(s@, open@, close@) {
            Some(t) => r matches Some(v) && v@ == t,
            None => r is None,
        },
{
    proof {
        lemma_find_first(s@, open@);
        assert(s@.skip(0) =~= s@);
    }
    let i = match find_in(s, open, 0) {
        Some(i) => i,
        None => return None,
    };
    let st = i + open.len();
    proof {
        lemma_find_first(s@.skip(st as int), close@);
    }
    match find_in(s, close, st) {
        Some(e) => Some(sub_vec(s, st, st + e)),
        None => None,
    }
}

/// Removes HTML tags: drops `<`, `>` and what lies between them.
fn strip_tag_chars(s: &Vec<char>) -> (r: Vec<char>)
    ensures
        r@ == strip_tags_spec(s@),
{
    let mut out: Vec<char> = Vec::new();
    let mut in_tag = false;
    let mut i: usize = 0;
    assert(s@.skip(0) =~= s@);
    while i < s.len()
        invariant
            i <= s.len(),
            out@ + strip_tags_from(s@.skip(i as int), in_tag) == strip_tags_spec(s@),
        decreases s.len() - i,
    {
        let c = s[i];
        let ghost t = s@.skip(i as int);
        assert(t[0] == c);
        assert(t.drop_first() =~= s@.skip(i + 1));
        if c == '<' {
            in_tag = true;
        } else if c == '>' {
            in_tag = false;
        } else if !in_tag {
            assert(out@ + (seq![c] + strip_tags_from(s@.skip(i + 1), in_tag)) =~= out@.push(c)
                + strip_tags_from(s@.skip(i + 1), in_tag));
            out.push(c);
        }
        i += 1;
    }
    assert(s@.skip(s.len() as int) =~= Seq::<char>::empty());
    assert(out@ + Seq::<char>::empty() =~= out@);
    out
}

/// Whether `lit` begins at `i`.
fn entity_here(s: &Vec<char>, i: usize, lit: &str) -> (r: bool)
    requires
        i <= s.len(),
    ensures
        r == occurs_at(s@.skip(i as int), lit@, 0),
{
    let pat = chars_of(lit);
    let r = matches_at(s, &pat, i);
    proof {
        if lit@.len() <= s@.len() - i {
            assert(s@.subrange(i as int, i + lit@.len()) =~= s@.skip(i as int).subrange(0, lit@.len() as int));
        }
    }
    r
}

/// The entity that begins at `i`, as its length and its character.
fn entity_at(s: &Vec<char>, i: usize) -> (r: Option<(usize, char)>)
    requires
        i <= s.len(),
    ensures
        match leading_entity(s@.skip(i as int)) {
            Some((p, c)) => r == Some((p.len() as usize, c)),
            None => r is None,
        },
        r matches Some((n, _)) ==> 1 <= n && i + n <= s.len(),
{
    proof {
        reveal_strlit("&amp;");
        reveal_strlit("&lt;");
        reveal_strlit("&gt;");
        reveal_strlit("&quot;");
        reveal_strlit("&#39;");
        reveal_strlit("&nbsp;");
        reveal_strlit("&#13;");
        reveal_strlit("&#10;");
        assert("&amp;"@ =~= seq!['&', 'a', 'm', 'p', ';']);
        assert("&lt;"@ =~= seq!['&', 'l', 't', ';']);
        assert("&gt;"@ =~= seq!['&', 'g', 't', ';']);
        assert("&quot;"@ =~= seq!['&', 'q', 'u', 'o', 't', ';']);
        assert("&#39;"@ =~= seq!['&', '#', '3', '9', ';']);
        assert("&nbsp;"@ =~= seq!['&', 'n', 'b', 's', 'p', ';']);
        assert("&#13;"@ =~= seq!['&', '#', '1', '3', ';']);
        assert("&#10;"@ =~= seq!['&', '#', '1', '0', ';']);
    }
    if entity_here(s, i, "&amp;") {
        Some((5, '&'))
    } else if entity_here(s, i, "&lt;") {
        Some((4, '<'))
    } else if entity_here(s, i, "&gt;") {
        Some((4, '>'))
    } else if entity_here(s, i, "&quot;") {
        Some((6, '"'))
    } else if entity_here(s, i, "&#39;") {
        Some((5, '\''))
    } else if entity_here(s, i, "&nbsp;") {
        Some((6, ' '))
    } else if entity_here(s, i, "&#13;") {
        Some((5, '\r'))
    } else if entity_here(s, i, "&#10;") {
        Some((5, '\n'))
    } else {
        None
    }
}

/// Decodes the common HTML entities in one pass.
fn decode_entities(s: &Vec<char>) -> (r: Vec<char>)
    ensures
        r@ == html_decode_spec(s@),
{
    let mut out: Vec<char> = Vec::new();
    let mut i: usize = 0;
    assert(s@.skip(0) =~= s@);
    while i < s.len()
        invariant
            i <= s.len(),
            out@ + html_decode_spec(s@.skip(i as int)) == html_decode_spec(s@),
        decreases s.len() - i,
    {
        let ghost t = s@.skip(i as int);
        let e = entity_at(s, i);
        match e {
            Some((n, c)) => {
                assert(t.skip(n as int) =~= s@.skip(i + n));
                assert(out@ + (seq![c] + html_decode_spec(t.skip(n as int))) =~= out@.push(c)
                    + html_decode_spec(s@.skip(i + n)));
                out.push(c);
                i = i + n;
            },
            None => {
                let c = s[i];
                assert(t[0] == c);
                assert(t.drop_first() =~= s@.skip(i + 1));
                assert(out@ + (seq![c] + html_decode_spec(t.drop_first())) =~= out@.push(c)
                    + html_decode_spec(s@.skip(i + 1)));
                out.push(c);
                i += 1;
            },
        }
    }
    assert(s@.skip(s.len() as int) =~= Seq::<char>::empty());
    assert(out@ + Seq::<char>::empty() =~= out@);
    out
}

/// `s` without its HTML tags: every character outside `<...>` kept, in
/// order.
pub fn strip_tags(s: &str) -> (r: String)
    ensures
        r@ == strip_tags_spec(s@),
{
    string_of(&strip_tag_chars(&chars_of(s)))
}

/// `s` with the HTML entities `&amp;` `&lt;` `&gt;` `&quot;` `&#39;`
/// `&nbsp;` `&#13;` `&#10;` decoded.
pub fn html_decode(s: &str) -> (r: String)
    ensures
        r@ == html_decode_spec(s@),
{
    string_of(&decode_entities(&chars_of(s)))
}

/// The melody name a page gives.
fn extract_title_virtualpiano(html: &Vec<char>) -> (r: Vec<char>)
    ensures
        r@ == title_text(html@),
{
    let open = chars_of("<title>");
    let close = chars_of("</title>");
    if let Some(raw) = between(html, &open, &close) {
        let stripped = strip_tag_chars(&raw);
        let trimmed = trim_chars(&stripped);
        let play = chars_of("Play ");
        let s = trim_start_matches_chars(&trimmed, &play);
        let music = chars_of(" Music Sheet");
        let bar = chars_of(" | ");
        proof {
            assert(s@.skip(0) =~= s@);
        }
        let cut = if let Some(pos) = find_in(&s, &music, 0) {
            proof {
                lemma_find_first(s@, music@);
            }
            let head = sub_vec(&s, 0, pos);
            assert(head@ =~= s@.take(pos as int));
            trim_chars(&head)
        } else if let Some(pos) = find_in(&s, &bar, 0) {
            proof {
                lemma_find_first(s@, bar@);
            }
            let head = sub_vec(&s, 0, pos);
            assert(head@ =~= s@.take(pos as int));
            trim_chars(&head)
        } else {
            s
        };
        if cut.len() > 0 {
            return cut;
        }
    }
    chars_of("Imported")
}

/// The sheet paragraph of a page.
fn sheet_paragraph_of(html: &Vec<char>) -> (r: Option<Vec<char>>)
    ensures
        match sheet_paragraph(html@) {
            Some(t) => r matches Some(v) && v@ == t,
            None => r is None,
        },
{
    let marker = chars_of("id=\"sheet-content\"");
    assert(html@.skip(0) =~= html@);
    proof {
        lemma_find_first(html@, marker@);
    }
    let pos = match find_in(html, &marker, 0) {
        Some(p) => p,
        None => return None,
    };
    let rest = sub_vec(html, pos + marker.len(), html.len());
    let ghost rs = rest@;
    assert(rs =~= html@.skip(pos + marker@.len()));
    assert(rs.skip(0) =~= rs);
    let open_p = chars_of("<p");
    proof {
        lemma_find_first(rs, open_p@);
    }
    let p_start = match find_in(&rest, &open_p, 0) {
        Some(p) => p,
        None => return None,
    };
    let gt_pat = chars_of(">");
    proof {
        reveal_strlit(">");
    }
    assert(gt_pat@.len() == 1);
    proof {
        lemma_find_first(rs.skip(p_start as int), gt_pat@);
    }
    let gt = match find_in(&rest, &gt_pat, p_start) {
        Some(g) => g,
        None => return None,
    };
    let inner_start = gt + p_start + 1;
    let close_p = chars_of("</p>");
    proof {
        lemma_find_first(rs.skip(inner_start as int), close_p@);
    }
    let inner_end = match find_in(&rest, &close_p, inner_start) {
        Some(e) => e,
        None => return None,
    };
    Some(sub_vec(&rest, inner_start, inner_start + inner_end))
}

/// `join` grows by one part at a time.
proof fn lemma_join_push(parts: Seq<Seq<char>>, sep: Seq<char>, x: Seq<char>)
    ensures
        join(parts.push(x), sep) == if parts.len() == 0 {
            x
        } else {
            join(parts, sep) + sep + x
        },
{
    let p = parts.push(x);
    assert(p.drop_last() =~= parts);
    assert(p.last() == x);
    if parts.len() == 0 {
        assert(p[0] == x);
    }
}

/// The trimmed, non-empty `||`-separated lines of `d`, joined by `\n`.
fn join_sheet_lines(d: &Vec<char>) -> (r: Vec<char>)
    ensures
        r@ == join(sheet_lines(d@), "\n"@),
{
    let sep = chars_of("||");
    proof {
        reveal_strlit("||");
    }
    assert(sep@.len() == 2);
    let nl = chars_of("\n");
    let ghost keep = |l: Seq<char>| l.len() > 0;
    let ghost trim_f = |l: Seq<char>| trim(l);
    let mut out: Vec<char> = Vec::new();
    let mut pos: usize = 0;
    let mut finished = false;
    let mut kept_any = false;
    let ghost mut done: Seq<Seq<char>> = seq![];
    assert(d@.skip(0) =~= d@);
    proof {
        assert(done.map_values(trim_f).filter(keep) =~= Seq::<Seq<char>>::empty());
    }
    while !finished
        invariant
            pos <= d.len(),
            sep@ == "||"@,
            sep@.len() == 2,
            !finished ==> split_on(d@, sep@) == done + split_on(d@.skip(pos as int), sep@),
            finished ==> split_on(d@, sep@) == done,
            out@ == join(done.map_values(trim_f).filter(keep), nl@),
            kept_any == (done.map_values(trim_f).filter(keep).len() > 0),
            keep == (|l: Seq<char>| l.len() > 0),
            trim_f == (|l: Seq<char>| trim(l)),
        decreases (if finished {
            0int
        } else {
            1int
        }) + d.len() - pos,
    {
        let ghost t = d@.skip(pos as int);
        let ghost old_done = done;
        let ghost old_kept = old_done.map_values(trim_f).filter(keep);
        let piece = match find_in(d, &sep, pos) {
            Some(j) => {
                proof {
                    lemma_find_first(t, sep@);
                }
                let piece = sub_vec(d, pos, pos + j);
                proof {
                    assert(piece@ =~= t.take(j as int));
                    assert(t.skip(j + sep@.len()) =~= d@.skip(pos + j + sep@.len()));
                    assert(split_on(t, sep@) == seq![t.take(j as int)] + split_on(
                        d@.skip(pos + j + sep@.len()),
                        sep@,
                    ));
                    done = done.push(piece@);
                    assert(old_done + split_on(t, sep@) =~= done + split_on(
                        d@.skip(pos + j + sep@.len()),
                        sep@,
                    ));
                }
                pos = pos + j + sep.len();
                piece
            },
            None => {
                let piece = sub_vec(d, pos, d.len());
                proof {
                    assert(piece@ =~= t);
                    assert(split_on(t, sep@) == seq![t]);
                    done = done.push(piece@);
                    assert(old_done + split_on(t, sep@) =~= done);
                }
                finished = true;
                piece
            },
        };
        proof {
            assert(done.map_values(trim_f) =~= old_done.map_values(trim_f).push(trim(piece@)));
            old_done.map_values(trim_f).lemma_filter_push(trim(piece@), keep);
        }
        let tp = trim_chars(&piece);
        if tp.len() > 0 {
            proof {
                lemma_join_push(old_kept, nl@, tp@);
            }
            if !kept_any {
                kept_any = true;
                proof {
                    assert(old_kept.len() == 0);
                }
            } else {
                append_chars(&mut out, &nl);
            }
            append_chars(&mut out, &tp);
            proof {
                if old_kept.len() == 0 {
                    assert(out@ =~= tp@);
                }
            }
        }
    }
    out
}

/// The notes of a page, if it has any.
fn extract_notes_virtualpiano(html: &Vec<char>) -> (r: Option<Vec<char>>)
    ensures
        match sheet_notes(html@) {
            Some(t) => r matches Some(v) && v@ == t,
            None => r is None,
        },
{
    let raw = match sheet_paragraph_of(html) {
        Some(raw) => raw,
        None => return None,
    };
    let decoded = decode_entities(&strip_tag_chars(&raw));
    let notes = join_sheet_lines(&decoded);
    if notes.len() == 0 {
        None
    } else {
        Some(notes)
    }
}

/// Parses a virtualpiano.net music-sheet page.
fn parse_virtualpiano(html: &str) -> (r: Result<ImportResult, ImportError>)
    ensures
        page_result(html@, r),
{
    let page = chars_of(html);
    let name = extract_title_virtualpiano(&page);
    match extract_notes_virtualpiano(&page) {
        Some(notes) => Ok(ImportResult { name: string_of(&name), notes: string_of(&notes) }),
        None => Err(
            ImportError::Parse(string_of(&chars_of("Ноты не найдены на странице"))),
        ),
    }
}

/// Imports a melody from `url`, given what fetching it gave: the page's
/// text, or the fetch error's message.  Only virtualpiano.net is supported.
pub fn import(url: &str, page: Result<String, String>) -> (r: Result<ImportResult, ImportError>)
    ensures
        page matches Err(e) ==> r matches Err(ImportError::Fetch(m)) && m@ == e@,
        page matches Ok(body) ==> if contains_seq(url@, "virtualpiano.net"@) {
            page_result(body@, r)
        } else {
            r matches Err(ImportError::Parse(m)) && m@ == "Сайт не поддерживается"@
        },
{
    let body = match page {
        Ok(body) => body,
        Err(e) => return Err(ImportError::Fetch(e)),
    };
    let u = chars_of(url);
    let site = chars_of("virtualpiano.net");
    assert(u@.skip(0) =~= u@);
    if find_in(&u, &site, 0).is_some() {
        parse_virtualpiano(body.as_str())
    } else {
        Err(ImportError::Parse(string_of(&chars_of("Сайт не поддерживается"))))
    }
}


proof fn lemma_strip_tags_no_brackets(s: Seq<char>, in_tag: bool)
    ensures
        !strip_tags_from(s, in_tag).contains('<'),
        !strip_tags_from(s, in_tag).contains('>'),
    decreases s.len(),
{
    if s.len() > 0 {
        let rest = s.drop_first();
        lemma_strip_tags_no_brackets(rest, true);
        lemma_strip_tags_no_brackets(rest, false);
        let c = s[0];
        if c != '<' && c != '>' && !in_tag {
            let r = strip_tags_from(rest, in_tag);
            assert forall|i: int| 0 <= i < (seq![c] + r).len() implies (seq![c] + r)[i] != '<' && (seq![c] + r)[i] != '>' by {
                if i > 0 {
                    assert((seq![c] + r)[i] == r[i - 1]);
                }
            }
        }
    }
}

proof fn lemma_strip_tags_keeps_plain(t: Seq<char>)
    requires
        !t.contains('<'),
        !t.contains('>'),
    ensures
        strip_tags_from(t, false) == t,
    decreases t.len(),
{
    if t.len() > 0 {
        let rest = t.drop_first();
        assert forall|i: int| 0 <= i < rest.len() implies rest[i] != '<' && rest[i] != '>' by {
            assert(rest[i] == t[i + 1]);
        }
        assert(t[0] != '<' && t[0] != '>');
        lemma_strip_tags_keeps_plain(rest);
        assert(seq![t[0]] + rest =~= t);
    }
}

/// The sheet paragraph is cut from the page after the first
/// `id="sheet-content"` marker: it is a stretch of the page that starts at
/// or after the marker's end, so nothing before the marker (a `<p>` there
/// included) can reach the notes.
pub proof fn lemma_sheet_after_marker(html: Seq<char>)
    ensures
        sheet_paragraph(html) matches Some(x) ==> exists|m: int, st: int|
            #![trigger occurs_at(html, "id=\"sheet-content\""@, m), html.subrange(st, st + x.len())]
            occurs_at(html, "id=\"sheet-content\""@, m)
                && (forall|k: int| 0 <= k < m ==> !occurs_at(html, "id=\"sheet-content\""@, k))
                && m + "id=\"sheet-content\""@.len() <= st && st + x.len() <= html.len()
                && html.subrange(st, st + x.len()) == x,
{
    reveal_strlit(">");
    let marker = "id=\"sheet-content\""@;
    lemma_find_first(html, marker);
    if let Some(pos) = find_first(html, marker) {
        let rest = html.skip(pos + marker.len());
        lemma_find_first(rest, "<p"@);
        if let Some(p_start) = find_first(rest, "<p"@) {
            lemma_find_first(rest.skip(p_start), ">"@);
            if let Some(gt) = find_first(rest.skip(p_start), ">"@) {
                let inner_start = gt + p_start + 1;
                lemma_find_first(rest.skip(inner_start), "</p>"@);
                if let Some(inner_end) = find_first(rest.skip(inner_start), "</p>"@) {
                    let x = rest.subrange(inner_start, inner_start + inner_end);
                    assert(sheet_paragraph(html) == Some(x));
                    let st = pos + marker.len() + inner_start;
                    assert(0 <= p_start <= rest.len());
                    assert(inner_start + inner_end <= rest.len());
                    assert(html.subrange(st, st + x.len()) =~= x);
                    assert(occurs_at(html, marker, pos));
                    assert(pos + marker.len() <= st);
                    assert(st + x.len() <= html.len());
                    assert(forall|k: int| 0 <= k < pos ==> !occurs_at(html, marker, k));
                    assert(sheet_paragraph(html) matches Some(y) && y == x);
                }
            }
        }
    }
}

/// Removing tags leaves no `<` or `>`, so removing them again changes
/// nothing.
pub proof fn lemma_strip_tags_settles(s: Seq<char>)
    ensures
        !strip_tags_spec(s).contains('<'),
        !strip_tags_spec(s).contains('>'),
        strip_tags_spec(strip_tags_spec(s)) == strip_tags_spec(s),
{
    lemma_strip_tags_no_brackets(s, false);
    lemma_strip_tags_keeps_plain(strip_tags_spec(s));
}

} // verus!
