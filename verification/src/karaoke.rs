//! The karaoke view of the melody being played: each line of the notes cut
//! into pieces, the played tokens dimmed, the current one highlighted.
//!
//! Pieces are byte ranges of their line; the interface cuts the text and
//! colours it.
use vstd::prelude::*;
use crate::parser::{
    group_of, is_separator, key_spans, key_tokens, lemma_scan_bounds, lemma_scan_end, lemma_scan_sep, lemma_scan_word,
    note_tokens, scan, span_of, token_text, TokenSpan,
};
use vstd::utf8::{encode_scalar, encode_utf8};
use crate::text::{byte_len, chars_of, lemma_byte_len_def, lemma_byte_len_prefix, lemma_byte_len_take, utf8_width};

verus! {

broadcast use {vstd::seq::group_seq_axioms, vstd::seq_lib::group_seq_properties};

/// How a piece of a line is shown.
#[derive(Clone, Copy, Debug, PartialEq, Eq, Structural)]
pub enum PieceStyle {
    /// Text between tokens.
    Plain,
    /// A token already played.
    Played,
    /// The token being played.
    Current,
    /// A token still to come.
    Future,
}

/// Bytes `start..end` of a line and how they are shown.
#[derive(Clone, Copy, Debug, PartialEq, Eq, Structural)]
pub struct Piece {
    pub start: usize,
    pub end: usize,
    pub style: PieceStyle,
}

/// One line of the view: whether it carries the current-line marker, and
/// its pieces in order.
pub struct KaraokeLine {
    pub marked: bool,
    pub pieces: Vec<Piece>,
}

/// Byte offset and byte length of each line of `s` (lines end at `\n`;
/// there is always at least one).
pub open spec fn line_bounds(s: Seq<char>) -> Seq<(int, int)>
    decreases s.len(),
{
    if s.len() == 0 {
        seq![(0int, 0int)]
    } else {
        let prev = line_bounds(s.drop_last());
        let (base, len) = prev.last();
        if s.last() == '\n' {
            prev.push((base + len + 1, 0int))
        } else {
            prev.update(prev.len() - 1, (base, len + encode_scalar(s.last() as u32).len()))
        }
    }
}

/// The style of the `g`-th token when the `cur`-th is being played.
pub open spec fn style_of(g: int, cur: int) -> PieceStyle {
    if g < cur {
        PieceStyle::Played
    } else if g == cur {
        PieceStyle::Current
    } else {
        PieceStyle::Future
    }
}

/// Whether span `ts` lies on line `li`, inside its bytes `base..base+len`.
pub open spec fn span_fits(ts: TokenSpan, li: int, base: int, len: int) -> bool {
    &&& ts.line == li
    &&& base <= ts.start
    &&& ts.end <= base + len
    &&& ts.start <= ts.end
}

/// The pieces of line `li` (bytes `base..base+len` of the text) from span
/// `g` on, with the text before `cursor` already cut: the spans that fit
/// the line, in order, each styled, with the plain text between them, and
/// the rest of the line after the last.
pub open spec fn line_pieces(spans: Seq<TokenSpan>, li: int, base: int, len: int, cur: int, g: int, cursor: int) -> Seq<Piece>
    decreases spans.len() - g,
{
    if g >= spans.len() || g < 0 {
        if cursor < len {
            seq![Piece { start: cursor as usize, end: len as usize, style: PieceStyle::Plain }]
        } else {
            Seq::empty()
        }
    } else {
        let ts = spans[g];
        if span_fits(ts, li, base, len) {
            let rs = ts.start - base;
            let re = ts.end - base;
            (if rs > cursor {
                seq![Piece { start: cursor as usize, end: rs as usize, style: PieceStyle::Plain }]
            } else {
                Seq::empty()
            }) + seq![Piece { start: rs as usize, end: re as usize, style: style_of(g, cur) }]
                + line_pieces(spans, li, base, len, cur, g + 1, re)
        } else {
            line_pieces(spans, li, base, len, cur, g + 1, cursor)
        }
    }
}

/// The index of the token shown as current: the one being played, or the
/// last when playing has gone past it.
pub open spec fn current_index(spans: Seq<TokenSpan>, play_event: int) -> int {
    if play_event < spans.len() - 1 { play_event } else { spans.len() - 1 }
}

/// The view of `notes` with token positions `spans` while the
/// `play_event`-th token plays: `lines[li]` is line `li`.
pub open spec fn is_karaoke(notes: Seq<char>, spans: Seq<TokenSpan>, play_event: int, lines: Seq<KaraokeLine>) -> bool {
    let bounds = line_bounds(notes);
    let cur = current_index(spans, play_event);
    &&& lines.len() == bounds.len()
    &&& forall|li: int|
        0 <= li < lines.len() ==> {
            &&& (#[trigger] lines[li]).marked == (spans[cur].line == li)
            &&& lines[li].pieces@ == line_pieces(spans, li, bounds[li].0, bounds[li].1, cur, 0, 0)
        }
}

/// A line has a non-negative offset and length, and ends within the text.
proof fn lemma_line_bounds(s: Seq<char>)
    ensures
        line_bounds(s).len() >= 1,
        forall|li: int|
            0 <= li < line_bounds(s).len() ==> 0 <= (#[trigger] line_bounds(s)[li]).0 && 0 <= line_bounds(s)[li].1
                && line_bounds(s)[li].0 + line_bounds(s)[li].1 <= byte_len(s),
        forall|li: int|
            0 <= li < line_bounds(s).len() - 1 ==> (#[trigger] line_bounds(s)[li]).0 + line_bounds(s)[li].1 + 1
                <= byte_len(s),
        line_bounds(s).last().0 + line_bounds(s).last().1 == byte_len(s),
    decreases s.len(),
{
    if s.len() == 0 {
        lemma_byte_len_def(s);
        assert(encode_utf8(s) =~= Seq::<u8>::empty());
    } else {
        let p = s.drop_last();
        lemma_line_bounds(p);
        assert(s.take(s.len() - 1) =~= p);
        assert(s.take(s.len() as int) =~= s);
        lemma_byte_len_take(s, s.len() - 1);
    }
}

/// Offsets and lengths of the lines of `notes`, in bytes.
fn line_bounds_of(notes: &str) -> (r: Vec<(usize, usize)>)
    ensures
        r@.len() == line_bounds(notes@).len(),
        forall|li: int| 0 <= li < r@.len() ==> (#[trigger] r@[li]).0 == line_bounds(notes@)[li].0
            && r@[li].1 == line_bounds(notes@)[li].1,
        forall|li: int| 0 <= li < r@.len() ==> (#[trigger] r@[li]).0 + r@[li].1 <= usize::MAX,
{
    let chars = chars_of(notes);
    let ghost s = chars@;
    let nbytes = notes.as_bytes().len();
    proof {
        lemma_byte_len_def(s);
        lemma_line_bounds(s);
        crate::text::lemma_byte_len_empty(s);
    }
    let mut done: Vec<(usize, usize)> = Vec::new();
    let mut line_start: usize = 0;
    let mut pos: usize = 0;
    let mut i: usize = 0;
    assert(s.take(0) =~= Seq::<char>::empty());
    while i < chars.len()
        invariant
            s == chars@,
            i <= chars@.len(),
            nbytes <= usize::MAX,
            byte_len(s) == nbytes,
            pos == byte_len(s.take(i as int)),
            line_start <= pos,
            done@.len() + 1 == line_bounds(s.take(i as int)).len(),
            forall|k: int| 0 <= k < done@.len() ==> (#[trigger] done@[k]).0 == line_bounds(s.take(i as int))[k].0
                && done@[k].1 == line_bounds(s.take(i as int))[k].1,
            line_bounds(s.take(i as int)).last() == (line_start as int, pos - line_start),
        decreases chars@.len() - i,
    {
        proof {
            lemma_byte_len_take(s, i as int);
            lemma_byte_len_prefix(s, i as int + 1, s.len() as int);
            assert(s.take(s.len() as int) =~= s);
            assert(s.take(i + 1).drop_last() =~= s.take(i as int));
            lemma_line_bounds(s.take(i as int));
        }
        let c = chars[i];
        let w = utf8_width(c);
        if c == '\n' {
            done.push((line_start, pos - line_start));
            pos = pos + w;
            line_start = pos;
        } else {
            pos = pos + w;
        }
        i = i + 1;
    }
    done.push((line_start, pos - line_start));
    proof {
        assert(s.take(s.len() as int) =~= s);
    }
    done
}

/// The pieces of one line (bytes `base..base+len` of the text).
fn pieces_of_line(spans: &[TokenSpan], li: usize, base: usize, len: usize, cur: usize) -> (r: Vec<Piece>)
    requires
        base + len <= usize::MAX,
    ensures
        r@ == line_pieces(spans@, li as int, base as int, len as int, cur as int, 0, 0),
{
    let mut out: Vec<Piece> = Vec::new();
    let mut cursor: usize = 0;
    let mut g: usize = 0;
    let end = base + len;
    while g < spans.len()
        invariant
            g <= spans@.len(),
            end == base + len,
            base + len <= usize::MAX,
            out@ + line_pieces(spans@, li as int, base as int, len as int, cur as int, g as int, cursor as int)
                == line_pieces(spans@, li as int, base as int, len as int, cur as int, 0, 0),
        decreases spans@.len() - g,
    {
        let ts = spans[g];
        let ghost before = out@;
        let ghost rest = line_pieces(spans@, li as int, base as int, len as int, cur as int, g as int, cursor as int);
        if ts.line == li && base <= ts.start && ts.end <= end && ts.start <= ts.end {
            let rs = ts.start - base;
            let re = ts.end - base;
            if rs > cursor {
                out.push(Piece { start: cursor, end: rs, style: PieceStyle::Plain });
            }
            let style = if g < cur {
                PieceStyle::Played
            } else if g == cur {
                PieceStyle::Current
            } else {
                PieceStyle::Future
            };
            out.push(Piece { start: rs, end: re, style });
            proof {
                let tail = line_pieces(spans@, li as int, base as int, len as int, cur as int, g + 1, re as int);
                assert(out@ + tail =~= before + rest);
            }
            cursor = re;
        } else {
            proof {
                let tail = line_pieces(spans@, li as int, base as int, len as int, cur as int, g + 1, cursor as int);
                assert(out@ + tail =~= before + rest);
            }
        }
        g = g + 1;
    }
    if cursor < len {
        let ghost before = out@;
        out.push(Piece { start: cursor, end: len, style: PieceStyle::Plain });
        assert(out@ =~= before + line_pieces(spans@, li as int, base as int, len as int, cur as int, g as int, cursor as int));
    } else {
        assert(out@ =~= out@ + line_pieces(spans@, li as int, base as int, len as int, cur as int, g as int, cursor as int));
    }
    out
}

/// The karaoke view of `notes` while the `play_event`-th token of `spans`
/// plays: each line with its marker and pieces.
pub fn build_karaoke(notes: &str, spans: &[TokenSpan], play_event: usize) -> (r: Vec<KaraokeLine>)
    requires
        spans@.len() > 0,
    ensures
        is_karaoke(notes@, spans@, play_event as int, r@),
{
    let cur = if play_event < spans.len() - 1 {
        play_event
    } else {
        spans.len() - 1
    };
    let cur_line = spans[cur].line;
    let bounds = line_bounds_of(notes);
    let mut out: Vec<KaraokeLine> = Vec::new();
    let mut li: usize = 0;
    while li < bounds.len()
        invariant
            li <= bounds@.len(),
            cur == current_index(spans@, play_event as int),
            cur_line == spans@[cur as int].line,
            bounds@.len() == line_bounds(notes@).len(),
            forall|k: int| 0 <= k < bounds@.len() ==> (#[trigger] bounds@[k]).0 == line_bounds(notes@)[k].0
                && bounds@[k].1 == line_bounds(notes@)[k].1,
            forall|k: int| 0 <= k < bounds@.len() ==> (#[trigger] bounds@[k]).0 + bounds@[k].1 <= usize::MAX,
            out@.len() == li,
            forall|k: int|
                0 <= k < li ==> {
                    &&& (#[trigger] out@[k]).marked == (spans@[cur as int].line == k)
                    &&& out@[k].pieces@ == line_pieces(spans@, k, line_bounds(notes@)[k].0, line_bounds(notes@)[k].1, cur as int, 0, 0)
                },
        decreases bounds@.len() - li,
    {
        let (base, len) = bounds[li];
        let pieces = pieces_of_line(spans, li, base, len, cur);
        out.push(KaraokeLine { marked: cur_line == li, pieces });
        li = li + 1;
    }
    out
}


/// `p` cuts bytes `from..to` into consecutive pieces: each starts where
/// the one before ends, the first at `from`, the last ending at `to`.
pub open spec fn covers(p: Seq<Piece>, from: int, to: int) -> bool
    decreases p.len(),
{
    if p.len() == 0 {
        from == to
    } else {
        &&& p[0].start == from
        &&& from <= p[0].end
        &&& covers(p.drop_first(), p[0].end as int, to)
    }
}

/// The spans on line `li` lie inside its bytes `base..base+len`, one after
/// another.
pub open spec fn line_spans_ordered(spans: Seq<TokenSpan>, li: int, base: int, len: int) -> bool {
    &&& forall|g: int| 0 <= g < spans.len() && spans[g].line == li ==> #[trigger] span_fits(spans[g], li, base, len)
    &&& forall|g1: int, g2: int|
        0 <= g1 < g2 < spans.len() && spans[g1].line == li && spans[g2].line == li
            ==> #[trigger] spans[g1].end <= #[trigger] spans[g2].start
}

proof fn lemma_covers_cons(x: Piece, p: Seq<Piece>, from: int, to: int)
    ensures
        covers(seq![x] + p, from, to) == (x.start == from && from <= x.end && covers(p, x.end as int, to)),
{
    let q = seq![x] + p;
    assert(q.len() > 0);
    assert(q[0] == x);
    assert(q.drop_first() =~= p);
}

proof fn lemma_pieces_cover_from(spans: Seq<TokenSpan>, li: int, base: int, len: int, cur: int, g: int, cursor: int)
    requires
        0 <= base,
        0 <= cursor <= len <= usize::MAX,
        0 <= g,
        line_spans_ordered(spans, li, base, len),
        forall|h: int| g <= h < spans.len() && spans[h].line == li ==> cursor <= #[trigger] spans[h].start - base,
    ensures
        covers(line_pieces(spans, li, base, len, cur, g, cursor), cursor, len),
    decreases spans.len() - g,
{
    if g >= spans.len() {
        if cursor < len {
            let x = Piece { start: cursor as usize, end: len as usize, style: PieceStyle::Plain };
            lemma_covers_cons(x, Seq::empty(), cursor, len);
            assert(seq![x] + Seq::<Piece>::empty() =~= seq![x]);
        }
    } else {
        let ts = spans[g];
        if span_fits(ts, li, base, len) {
            let rs = ts.start - base;
            let re = ts.end - base;
            assert forall|h: int| g + 1 <= h < spans.len() && spans[h].line == li implies re <= #[trigger] spans[h].start - base by {
                assert(spans[g].end <= spans[h].start);
            }
            lemma_pieces_cover_from(spans, li, base, len, cur, g + 1, re);
            let rest = line_pieces(spans, li, base, len, cur, g + 1, re);
            let tok = Piece { start: rs as usize, end: re as usize, style: style_of(g, cur) };
            lemma_covers_cons(tok, rest, rs, len);
            if rs > cursor {
                let plain = Piece { start: cursor as usize, end: rs as usize, style: PieceStyle::Plain };
                lemma_covers_cons(plain, seq![tok] + rest, cursor, len);
                assert(seq![plain] + seq![tok] + rest =~= seq![plain] + (seq![tok] + rest));
            } else {
                assert(Seq::<Piece>::empty() + seq![tok] + rest =~= seq![tok] + rest);
            }
        } else {
            assert(ts.line != li);
            lemma_pieces_cover_from(spans, li, base, len, cur, g + 1, cursor);
        }
    }
}

/// The pieces of a line cover it: from its first byte to its last, each
/// piece starting where the one before ends, whenever the spans on that
/// line lie inside it and one after another.
pub proof fn lemma_pieces_cover_line(spans: Seq<TokenSpan>, li: int, base: int, len: int, cur: int)
    requires
        0 <= base,
        0 <= len <= usize::MAX,
        line_spans_ordered(spans, li, base, len),
    ensures
        covers(line_pieces(spans, li, base, len, cur, 0, 0), 0, len),
{
    assert forall|h: int| 0 <= h < spans.len() && spans[h].line == li implies 0 <= #[trigger] spans[h].start - base by {
        assert(span_fits(spans[h], li, base, len));
    }
    lemma_pieces_cover_from(spans, li, base, len, cur, 0, 0);
}


/// Start and end (character positions) of each line of `s`; the end is the
/// position of the line's `\n`, or the text's end for the last line.
pub open spec fn line_chars(s: Seq<char>) -> Seq<(int, int)>
    decreases s.len(),
{
    if s.len() == 0 {
        seq![(0int, 0int)]
    } else {
        let prev = line_chars(s.drop_last());
        if s.last() == '\n' {
            prev.push((s.len() as int, s.len() as int))
        } else {
            prev.update(prev.len() - 1, (prev.last().0, s.len() as int))
        }
    }
}

/// What [`line_chars`] is: lines one after another, each ending at a
/// `\n` (the last at the end), no `\n` inside a line; and the byte
/// bounds of [`line_bounds`] are the byte offsets of those positions.
pub proof fn lemma_line_chars(s: Seq<char>)
    ensures
        line_chars(s).len() == line_bounds(s).len(),
        1 <= line_chars(s).len() <= s.len() + 1,
        line_chars(s)[0].0 == 0,
        line_chars(s).last().1 == s.len(),
        forall|l: int| 0 <= l < line_chars(s).len() ==> 0 <= (#[trigger] line_chars(s)[l]).0 <= line_chars(s)[l].1 <= s.len(),
        forall|l: int| 0 <= l < line_chars(s).len() - 1 ==> s[(#[trigger] line_chars(s)[l]).1] == '\n'
            && line_chars(s)[l + 1].0 == line_chars(s)[l].1 + 1,
        forall|l: int, p: int| 0 <= l < line_chars(s).len() && (#[trigger] line_chars(s)[l]).0 <= p < line_chars(s)[l].1
            ==> #[trigger] s[p] != '\n',
        forall|l: int| 0 <= l < line_chars(s).len() ==> (#[trigger] line_bounds(s)[l]).0 == byte_len(s.take(line_chars(s)[l].0))
            && line_bounds(s)[l].1 == byte_len(s.take(line_chars(s)[l].1)) - byte_len(s.take(line_chars(s)[l].0)),
    decreases s.len(),
{
    let lc = line_chars(s);
    let lb = line_bounds(s);
    if s.len() == 0 {
        lemma_byte_len_def(s.take(0));
        assert(s.take(0) =~= Seq::<char>::empty());
        assert(encode_utf8(Seq::<char>::empty()) =~= Seq::<u8>::empty());
    } else {
        let p = s.drop_last();
        let n = s.len() as int;
        lemma_line_chars(p);
        let pc = line_chars(p);
        let pb = line_bounds(p);
        assert forall|q: int| 0 <= q <= n - 1 implies #[trigger] s.take(q) == p.take(q) by {
            assert(s.take(q) =~= p.take(q));
        }
        assert(s.take(n - 1) =~= p);
        assert(s.take(n) =~= s);
        lemma_byte_len_take(s, n - 1);
        assert(p.take(n - 1) =~= p);
        let w = encode_scalar(s[n - 1] as u32).len();
        assert(byte_len(s) == byte_len(p) + w);
        assert(pc.last().1 == n - 1);
        if s.last() == '\n' {
            assert(w == 1);
            assert(lc == pc.push((n, n)));
            assert(lb == pb.push((pb.last().0 + pb.last().1 + 1, 0int)));
            assert forall|l: int| 0 <= l < lc.len() implies (#[trigger] lb[l]).0 == byte_len(s.take(lc[l].0))
                && lb[l].1 == byte_len(s.take(lc[l].1)) - byte_len(s.take(lc[l].0)) by {
                if l < pc.len() {
                    assert(lc[l] == pc[l]);
                    assert(lb[l] == pb[l]);
                    assert(s.take(pc[l].0) == p.take(pc[l].0));
                    assert(s.take(pc[l].1) == p.take(pc[l].1));
                } else {
                    assert(pb.last() == pb[pc.len() - 1]);
                    assert(pc.last() == pc[pc.len() - 1]);
                    assert(s.take(pc.last().1) == p.take(pc.last().1));
                }
            }
            assert forall|l: int, q: int| 0 <= l < lc.len() && (#[trigger] lc[l]).0 <= q < lc[l].1 implies #[trigger] s[q] != '\n' by {
                if l < pc.len() {
                    assert(lc[l] == pc[l]);
                    assert(p[q] == s[q]);
                }
            }
        } else {
            let last = pc.len() - 1;
            assert(lc == pc.update(last, (pc.last().0, n)));
            assert(lb == pb.update(last, (pb.last().0, pb.last().1 + w)));
            assert forall|l: int| 0 <= l < lc.len() implies (#[trigger] lb[l]).0 == byte_len(s.take(lc[l].0))
                && lb[l].1 == byte_len(s.take(lc[l].1)) - byte_len(s.take(lc[l].0)) by {
                if l < last {
                    assert(lc[l] == pc[l]);
                    assert(lb[l] == pb[l]);
                    assert(s.take(pc[l].0) == p.take(pc[l].0));
                    assert(s.take(pc[l].1) == p.take(pc[l].1));
                } else {
                    assert(pb.last() == pb[last]);
                    assert(pc.last() == pc[last]);
                    assert(s.take(pc[last].0) == p.take(pc[last].0));
                    assert(s.take(pc[last].1) == p.take(pc[last].1));
                }
            }
            assert forall|l: int, q: int| 0 <= l < lc.len() && (#[trigger] lc[l]).0 <= q < lc[l].1 implies #[trigger] s[q] != '\n' by {
                if l < last {
                    assert(lc[l] == pc[l]);
                    assert(p[q] == s[q]);
                } else if q < n - 1 {
                    assert(pc[last].0 <= q < pc[last].1);
                    assert(p[q] == s[q]);
                }
            }
        }
        assert forall|l: int| 0 <= l < lc.len() - 1 implies s[(#[trigger] lc[l]).1] == '\n' && lc[l + 1].0 == lc[l].1 + 1 by {
            if l < pc.len() - 1 {
                assert(p[pc[l].1] == s[pc[l].1]);
            }
        }
    }
}


/// Every token the key splitter reads lies on one line: within that line's
/// start and end.
proof fn lemma_scan_lines(s: Seq<char>, i: int, line: int, st: int)
    requires
        0 <= i <= s.len(),
        0 <= line < line_chars(s).len(),
        line_chars(s)[line].0 <= i <= line_chars(s)[line].1,
        st == -1 || (line_chars(s)[line].0 <= st <= i),
    ensures
        forall|k: int|
            0 <= k < scan(s, false, i, line, st).len() ==> {
                let t = #[trigger] scan(s, false, i, line, st)[k];
                &&& 0 <= t.2 < line_chars(s).len()
                &&& line_chars(s)[t.2].0 <= t.0
                &&& t.1 <= line_chars(s)[t.2].1
            },
    decreases s.len() - i,
{
    let lc = line_chars(s);
    lemma_line_chars(s);
    let r = scan(s, false, i, line, st);
    if i >= s.len() {
        lemma_scan_end(s, false, line, st);
    } else {
        let last = lc.len() - 1;
        // The current position is inside the line's text unless it is the
        // line's `\n`.
        if i == lc[line].1 {
            if line == last {
                assert(false);
            } else {
                assert(s[i] == '\n');
            }
        }
        if is_separator(s[i], false) {
            lemma_scan_sep(s, false, i, line, st);
            let closed: Seq<(int, int, int)> = if st >= 0 { seq![(st, i, line)] } else { seq![] };
            let nl = if s[i] == '\n' { line + 1 } else { line };
            if s[i] == '\n' {
                assert(!(lc[line].0 <= i < lc[line].1));
                assert(i == lc[line].1);
                assert(line < last);
                assert(lc[line + 1].0 == i + 1);
                assert(lc[line + 1].0 <= lc[line + 1].1);
            } else {
                assert(i < lc[line].1);
            }
            lemma_scan_lines(s, i + 1, nl, -1);
            let rest = scan(s, false, i + 1, nl, -1);
            assert(r == closed + rest);
            assert forall|k: int| 0 <= k < r.len() implies {
                let t = #[trigger] r[k];
                &&& 0 <= t.2 < lc.len()
                &&& lc[t.2].0 <= t.0
                &&& t.1 <= lc[t.2].1
            } by {
                if k >= closed.len() {
                    assert(r[k] == rest[k - closed.len()]);
                }
            }
        } else {
            lemma_scan_word(s, false, i, line, st);
            assert(s[i] != '\n');
            assert(i < lc[line].1);
            let nst = if st >= 0 { st } else { i };
            lemma_scan_lines(s, i + 1, line, nst);
        }
    }
}

/// The key splitter's tokens come one after another: each ends before the
/// next starts.
proof fn lemma_scan_ordered(s: Seq<char>, i: int, line: int, st: int)
    requires
        0 <= i <= s.len(),
        st == -1 || (0 <= st <= i),
        0 <= line,
    ensures
        forall|k1: int, k2: int|
            0 <= k1 < k2 < scan(s, false, i, line, st).len() ==> (#[trigger] scan(s, false, i, line, st)[k1]).1
                < (#[trigger] scan(s, false, i, line, st)[k2]).0,
    decreases s.len() - i,
{
    let r = scan(s, false, i, line, st);
    if i >= s.len() {
        lemma_scan_end(s, false, line, st);
    } else if is_separator(s[i], false) {
        lemma_scan_sep(s, false, i, line, st);
        let closed: Seq<(int, int, int)> = if st >= 0 { seq![(st, i, line)] } else { seq![] };
        let nl = if s[i] == '\n' { line + 1 } else { line };
        lemma_scan_ordered(s, i + 1, nl, -1);
        lemma_scan_bounds(s, false, i + 1, nl, -1);
        let rest = scan(s, false, i + 1, nl, -1);
        assert(r == closed + rest);
        assert forall|k1: int, k2: int| 0 <= k1 < k2 < r.len() implies (#[trigger] r[k1]).1 < (#[trigger] r[k2]).0 by {
            let c = closed.len() as int;
            assert(r[k2] == rest[k2 - c]);
            if k1 >= c {
                assert(r[k1] == rest[k1 - c]);
            } else {
                assert(r[k1] == closed[k1]);
            }
        }
    } else {
        lemma_scan_word(s, false, i, line, st);
        let nst = if st >= 0 { st } else { i };
        lemma_scan_ordered(s, i + 1, line, nst);
    }
}

/// Keeping some tokens of an ordered sequence keeps them ordered.
proof fn lemma_filter_ordered(all: Seq<(int, int, int)>, pred: spec_fn((int, int, int)) -> bool)
    requires
        forall|k1: int, k2: int| 0 <= k1 < k2 < all.len() ==> (#[trigger] all[k1]).1 < (#[trigger] all[k2]).0,
    ensures
        forall|k1: int, k2: int|
            0 <= k1 < k2 < all.filter(pred).len() ==> (#[trigger] all.filter(pred)[k1]).1 < (#[trigger] all.filter(pred)[k2]).0,
    decreases all.len(),
{
    if all.len() > 0 {
        let d = all.drop_last();
        assert(all =~= d.push(all.last()));
        assert forall|k1: int, k2: int| 0 <= k1 < k2 < d.len() implies (#[trigger] d[k1]).1 < (#[trigger] d[k2]).0 by {
            assert(d[k1] == all[k1] && d[k2] == all[k2]);
        }
        lemma_filter_ordered(d, pred);
        d.lemma_filter_push(all.last(), pred);
        let f = all.filter(pred);
        let fd = d.filter(pred);
        if pred(all.last()) {
            assert(f == fd.push(all.last()));
            assert forall|k1: int, k2: int| 0 <= k1 < k2 < f.len() implies (#[trigger] f[k1]).1 < (#[trigger] f[k2]).0 by {
                if k2 == f.len() - 1 {
                    assert(f[k1] == fd[k1]);
                    assert(fd.contains(fd[k1]));
                    d.lemma_filter_contains_rev(pred, fd[k1]);
                    let j = choose|j: int| 0 <= j < d.len() && d[j] == fd[k1];
                    assert(all[j] == d[j]);
                    assert(all[all.len() - 1] == all.last());
                } else {
                    assert(f[k1] == fd[k1] && f[k2] == fd[k2]);
                }
            }
        } else {
            assert(f == fd);
        }
    }
}

/// The key tokens of a text each lie on one line, one after another.
proof fn lemma_key_tokens_on_lines(notes: Seq<char>)
    ensures
        forall|g: int|
            0 <= g < key_tokens(notes).len() ==> {
                let t = #[trigger] key_tokens(notes)[g];
                &&& 0 <= t.2 < line_chars(notes).len()
                &&& line_chars(notes)[t.2].0 <= t.0 <= t.1 <= line_chars(notes)[t.2].1
            },
        forall|g1: int, g2: int|
            0 <= g1 < g2 < key_tokens(notes).len() ==> (#[trigger] key_tokens(notes)[g1]).1
                < (#[trigger] key_tokens(notes)[g2]).0,
{
    let lc = line_chars(notes);
    let all = note_tokens(notes, false);
    let pred = |t: (int, int, int)| group_of(token_text(notes, t)).len() > 0;
    let kt = key_tokens(notes);
    assert(kt == all.filter(pred));
    lemma_line_chars(notes);
    lemma_scan_lines(notes, 0, 0, -1);
    lemma_scan_ordered(notes, 0, 0, -1);
    lemma_scan_bounds(notes, false, 0, 0, -1);
    lemma_filter_ordered(all, pred);
    assert forall|g: int| 0 <= g < kt.len() implies {
        let t = #[trigger] kt[g];
        &&& 0 <= t.2 < lc.len()
        &&& lc[t.2].0 <= t.0 <= t.1 <= lc[t.2].1
    } by {
        assert(all.filter(pred).contains(kt[g]));
        all.lemma_filter_contains_rev(pred, kt[g]);
        let j = choose|j: int| 0 <= j < all.len() && all[j] == kt[g];
        assert(all[j] == kt[g]);
    }
}

/// A token between a line's start and end has its span inside the line.
proof fn lemma_token_fits(notes: Seq<char>, t: (int, int, int), c0: int, c1: int)
    requires
        0 <= c0 <= t.0 <= t.1 <= c1 <= notes.len(),
        byte_len(notes) <= usize::MAX,
    ensures
        span_fits(
            span_of(notes, t),
            t.2,
            byte_len(notes.take(c0)),
            byte_len(notes.take(c1)) - byte_len(notes.take(c0)),
        ) || span_of(notes, t).line != t.2,
        byte_len(notes.take(c0)) <= byte_len(notes.take(t.0)) <= byte_len(notes.take(t.1)) <= byte_len(notes.take(c1)) <= usize::MAX,
{
    lemma_byte_len_def(notes.take(c0));
    lemma_byte_len_prefix(notes, c0, t.0);
    lemma_byte_len_prefix(notes, t.0, t.1);
    lemma_byte_len_prefix(notes, t.1, c1);
    lemma_byte_len_prefix(notes, c1, notes.len() as int);
    assert(notes.take(notes.len() as int) =~= notes);
}

/// Two tokens one after the other have spans one after the other.
proof fn lemma_tokens_ordered(notes: Seq<char>, t1: (int, int, int), t2: (int, int, int))
    requires
        0 <= t1.1 < t2.0 <= notes.len(),
        byte_len(notes) <= usize::MAX,
    ensures
        span_of(notes, t1).end <= span_of(notes, t2).start,
{
    lemma_byte_len_def(notes.take(t1.1));
    lemma_byte_len_prefix(notes, t1.1, t2.0);
    lemma_byte_len_prefix(notes, t2.0, notes.len() as int);
    assert(notes.take(notes.len() as int) =~= notes);
}

/// A text has at least as many bytes as characters.
proof fn lemma_chars_within_bytes(s: Seq<char>)
    ensures
        s.len() <= byte_len(s),
    decreases s.len(),
{
    if s.len() == 0 {
        lemma_byte_len_def(s);
    } else {
        let p = s.drop_last();
        lemma_chars_within_bytes(p);
        lemma_byte_len_take(s, s.len() - 1);
        assert(s.take(s.len() - 1) =~= p);
        assert(s.take(s.len() as int) =~= s);
    }
}

proof fn lemma_line_bound_at(notes: Seq<char>, li: int)
    requires
        0 <= li < line_bounds(notes).len(),
    ensures
        line_chars(notes).len() == line_bounds(notes).len() <= notes.len() + 1,
        0 <= line_chars(notes)[li].0 <= line_chars(notes)[li].1 <= notes.len(),
        line_bounds(notes)[li].0 == byte_len(notes.take(line_chars(notes)[li].0)),
        line_bounds(notes)[li].1 == byte_len(notes.take(line_chars(notes)[li].1)) - byte_len(notes.take(line_chars(notes)[li].0)),
{
    lemma_line_chars(notes);
    let _ = line_chars(notes)[li];
    let _ = line_bounds(notes)[li];
}

proof fn lemma_key_token_at(notes: Seq<char>, g: int)
    requires
        0 <= g < key_tokens(notes).len(),
    ensures
        0 <= key_tokens(notes)[g].2 < line_chars(notes).len(),
        line_chars(notes)[key_tokens(notes)[g].2].0 <= key_tokens(notes)[g].0 <= key_tokens(notes)[g].1
            <= line_chars(notes)[key_tokens(notes)[g].2].1,
{
    lemma_key_tokens_on_lines(notes);
    let _ = key_tokens(notes)[g];
}

proof fn lemma_key_tokens_pair(notes: Seq<char>, g1: int, g2: int)
    requires
        0 <= g1 < g2 < key_tokens(notes).len(),
    ensures
        key_tokens(notes)[g1].1 < key_tokens(notes)[g2].0,
{
    lemma_key_tokens_on_lines(notes);
    let _ = key_tokens(notes)[g1];
    let _ = key_tokens(notes)[g2];
}

/// The spans of a parsed text lie, line by line, inside their line and
/// one after another.
pub proof fn lemma_parsed_spans_ordered(notes: Seq<char>, spans: Seq<TokenSpan>, li: int)
    requires
        encode_utf8(notes).len() <= usize::MAX,
        key_spans(notes, spans),
        0 <= li < line_bounds(notes).len(),
    ensures
        line_spans_ordered(spans, li, line_bounds(notes)[li].0, line_bounds(notes)[li].1),
{
    let lc = line_chars(notes);
    let lb = line_bounds(notes);
    let kt = key_tokens(notes);
    lemma_line_bound_at(notes, li);
    lemma_byte_len_def(notes);
    let base = lb[li].0;
    let len = lb[li].1;
    assert forall|g: int| 0 <= g < spans.len() && spans[g].line == li implies #[trigger] span_fits(spans[g], li, base, len) by {
        let t = kt[g];
        assert(spans[g] == span_of(notes, t));
        lemma_key_token_at(notes, g);
        lemma_chars_within_bytes(notes);
        assert(t.2 == li);
        lemma_token_fits(notes, t, lc[li].0, lc[li].1);
    }
    assert forall|g1: int, g2: int|
        0 <= g1 < g2 < spans.len() && spans[g1].line == li && spans[g2].line == li implies #[trigger] spans[g1].end
        <= #[trigger] spans[g2].start by {
        let t1 = kt[g1];
        let t2 = kt[g2];
        assert(spans[g1] == span_of(notes, t1));
        assert(spans[g2] == span_of(notes, t2));
        lemma_key_token_at(notes, g1);
        lemma_key_token_at(notes, g2);
        lemma_line_bound_at(notes, t1.2);
        lemma_line_bound_at(notes, t2.2);
        lemma_key_tokens_pair(notes, g1, g2);
        lemma_tokens_ordered(notes, t1, t2);
    }
}

/// While a parsed melody plays, each line of the view shows the whole
/// line: its pieces cut it from the first byte to the last, one after
/// another.
pub proof fn lemma_parsed_lines_covered(notes: Seq<char>, spans: Seq<TokenSpan>, play_event: int, lines: Seq<KaraokeLine>, li: int)
    requires
        encode_utf8(notes).len() <= usize::MAX,
        key_spans(notes, spans),
        spans.len() > 0,
        is_karaoke(notes, spans, play_event, lines),
        0 <= li < lines.len(),
    ensures
        covers(lines[li].pieces@, 0, line_bounds(notes)[li].1),
{
    lemma_parsed_spans_ordered(notes, spans, li);
    lemma_line_bounds(notes);
    lemma_byte_len_def(notes);
    assert(lines[li].pieces@ == line_pieces(spans, li, line_bounds(notes)[li].0, line_bounds(notes)[li].1, current_index(spans, play_event), 0, 0));
    lemma_pieces_cover_line(spans, li, line_bounds(notes)[li].0, line_bounds(notes)[li].1, current_index(spans, play_event));
}

} // verus!
