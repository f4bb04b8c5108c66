//! Parsing of note sheets into key presses and musical pitches.
//!
//! The sheet format:
//!   * tokens are separated by whitespace, lines by `'\n'`;
//!   * `[abc]` is a chord: every character is pressed at once
//!     (ASCII-lowercased, shifted digits mapped back to digits);
//!   * a single token has its lone shifted digit mapped back, and is played
//!     as `Shift` + its lowercase letters when it reads as upper case;
//!   * after every group but the last of its line the `between_keys` pause
//!     follows, after the last one the `between_lines` pause.
//!
//! Pauses are carried as an opaque value `P` (seconds in the application):
//! the parser only copies them into place.
use vstd::prelude::*;
use vstd::utf8::*;
use crate::text::{
    ascii_lower, byte_len, chars_of, is_alphabetic, is_ascii_space, is_uppercase,
    is_white_space, lemma_byte_len_def, lemma_byte_len_empty, lemma_encode_utf8_add, lemma_byte_len_prefix, lemma_byte_len_take, letter, lower_text, spec_ascii_lower,
    spec_is_ascii_space, spec_is_white_space, sub_vec, to_lowercase, upper_letter, utf8_width,
};

verus! {

broadcast use {vstd::seq::group_seq_axioms, vstd::seq_lib::group_seq_properties};

/// One action inside a group of keys pressed together.
#[derive(Clone, Copy, Debug, PartialEq, Eq, Structural)]
pub enum KeyAction {
    Shift,
    Char(char),
}

/// Where a token sits in the source text (for highlighting while playing).
#[derive(Clone, Copy, Debug, PartialEq, Eq, Structural)]
pub struct TokenSpan {
    /// Line index (0-based).
    pub line: usize,
    /// Byte offset of the token's first byte in the source text.
    pub start: usize,
    /// Byte offset just past the token.
    pub end: usize,
}

/// A group of keys pressed together and the pause after it.
pub type Event<P> = (Vec<KeyAction>, P);

/// A group of simultaneous MIDI notes and the pause after it.
pub type PitchEvent<P> = (Vec<u8>, P);

/// Parse result: the events to play and, one for one, their positions.
pub struct Parsed<P> {
    pub events: Vec<Event<P>>,
    pub spans: Vec<TokenSpan>,
}

// ---------------------------------------------------------------------
// Specification
// ---------------------------------------------------------------------

/// Shifted digits ("as on a keyboard with Shift held") back to the digit.
pub open spec fn spec_replace_special_char(c: char) -> char {
    match c {
        '!' => '1',
        '@' => '2',
        '#' => '3',
        '$' => '4',
        '%' => '5',
        '^' => '6',
        '&' => '7',
        '*' => '8',
        '(' => '9',
        ')' => '0',
        _ => c,
    }
}

/// Token separators: ASCII whitespace for key presses, Unicode
/// `White_Space` for pitches.
pub open spec fn is_separator(c: char, unicode: bool) -> bool {
    if unicode {
        spec_is_white_space(c)
    } else {
        spec_is_ascii_space(c)
    }
}

/// Tokens of `s[i..]` as `(start, end, line)` character positions, given the
/// current line number and the start of the token being read (`-1`: none).
/// A token is a maximal run of non-separator characters.
#[verifier::opaque]
pub open spec fn scan(s: Seq<char>, unicode: bool, i: int, line: int, st: int) -> Seq<
    (int, int, int),
>
    decreases s.len() - i,
{
    if i >= s.len() {
        if st >= 0 {
            seq![(st, s.len() as int, line)]
        } else {
            seq![]
        }
    } else if is_separator(s[i], unicode) {
        let closed: Seq<(int, int, int)> = if st >= 0 {
            seq![(st, i, line)]
        } else {
            seq![]
        };
        closed + scan(s, unicode, i + 1, if s[i] == '\n' { line + 1 } else { line }, -1)
    } else {
        scan(s, unicode, i + 1, line, if st >= 0 { st } else { i })
    }
}

/// All tokens of a sheet, in order.
pub open spec fn note_tokens(s: Seq<char>, unicode: bool) -> Seq<(int, int, int)> {
    scan(s, unicode, 0, 0, -1)
}

/// The characters of a token.
pub open spec fn token_text(s: Seq<char>, t: (int, int, int)) -> Seq<char> {
    s.subrange(t.0, t.1)
}

/// `[...]` with at least the two brackets.
pub open spec fn is_chord(t: Seq<char>) -> bool {
    t.len() >= 2 && t[0] == '[' && t[t.len() - 1] == ']'
}

/// A chord of keys: `[...]` with at least one key between the brackets
/// (so that no token stands for an empty group; `[]` is two keys).
pub open spec fn is_key_chord(t: Seq<char>) -> bool {
    t.len() >= 3 && t[0] == '[' && t[t.len() - 1] == ']'
}

/// The characters between a chord's brackets.
pub open spec fn chord_inner(t: Seq<char>) -> Seq<char> {
    t.subrange(1, t.len() - 1)
}

/// A token of exactly one character has that character unshifted.
pub open spec fn special_token(t: Seq<char>) -> Seq<char> {
    if t.len() == 1 {
        seq![spec_replace_special_char(t[0])]
    } else {
        t
    }
}

/// Reads as upper case: some alphabetic character, and every
/// alphabetic character upper case.
pub open spec fn upper_like(r: Seq<char>) -> bool {
    &&& exists|i: int| 0 <= i < r.len() && letter(#[trigger] r[i])
    &&& forall|i: int| 0 <= i < r.len() && letter(#[trigger] r[i]) ==> upper_letter(r[i])
}

/// A character as a plain key action.
pub open spec fn char_key(c: char) -> KeyAction {
    KeyAction::Char(c)
}

/// Characters as plain key actions.
pub open spec fn chars_as_keys(cs: Seq<char>) -> Seq<KeyAction> {
    cs.map_values(|c: char| char_key(c))
}

proof fn lemma_chars_as_keys(cs: Seq<char>)
    ensures
        chars_as_keys(cs).len() == cs.len(),
        forall|i: int| 0 <= i < cs.len() ==> #[trigger] chars_as_keys(cs)[i] == KeyAction::Char(cs[i]),
{
}

/// The key of one chord member.
pub open spec fn chord_key(c: char) -> char {
    spec_replace_special_char(spec_ascii_lower(c))
}

/// Whether a group of keys is pressed with Shift.
pub open spec fn starts_with_shift(g: Seq<KeyAction>) -> bool {
    g.len() > 0 && g[0] == KeyAction::Shift
}

/// The group of key actions a token stands for.
pub open spec fn group_of(t: Seq<char>) -> Seq<KeyAction> {
    if is_key_chord(t) {
        chars_as_keys(chord_inner(t).map_values(|c: char| chord_key(c)))
    } else {
        let r = special_token(t);
        let shift: Seq<KeyAction> = if upper_like(r) {
            seq![KeyAction::Shift]
        } else {
            seq![]
        };
        shift + chars_as_keys(lower_text(r))
    }
}

/// The tokens that give a non-empty group of keys (every token does; see
/// [`parse`]).
pub open spec fn key_tokens(s: Seq<char>) -> Seq<(int, int, int)> {
    note_tokens(s, false).filter(|t: (int, int, int)| group_of(token_text(s, t)).len() > 0)
}

/// Whether the `k`-th of `ts` is the last one of its line.
pub open spec fn closes_line(ts: Seq<(int, int, int)>, k: int) -> bool {
    k + 1 == ts.len() || ts[k + 1].2 != ts[k].2
}

/// The pause after the `k`-th group.
pub open spec fn pause_at<P>(ts: Seq<(int, int, int)>, k: int, between_keys: P, between_lines: P) -> P {
    if closes_line(ts, k) {
        between_lines
    } else {
        between_keys
    }
}

/// The position of a token, in bytes of the UTF-8 text.
pub open spec fn span_of(s: Seq<char>, t: (int, int, int)) -> TokenSpan {
    TokenSpan {
        line: t.2 as usize,
        start: byte_len(s.take(t.0)) as usize,
        end: byte_len(s.take(t.1)) as usize,
    }
}

/// The texts `parse` takes: it works on the bytes of the text read as
/// Latin-1 characters, and the two bytes that would then read as spaces
/// (0x85, 0xA0) only occur inside multi-byte characters, where it cannot cut.
pub open spec fn parse_accepts(notes: Seq<char>) -> bool {
    !encode_utf8(notes).contains(0x85u8) && !encode_utf8(notes).contains(0xA0u8)
}

/// Layout of the 36 "white" keys, from the lowest pitch up:
/// `1234567890qwertyuiopasdfghjklzxcvbnm`.
pub open spec fn white_key_index(c: char) -> Option<int> {
    match c {
        '1' => Some(0int),
        '2' => Some(1int),
        '3' => Some(2int),
        '4' => Some(3int),
        '5' => Some(4int),
        '6' => Some(5int),
        '7' => Some(6int),
        '8' => Some(7int),
        '9' => Some(8int),
        '0' => Some(9int),
        'q' => Some(10int),
        'w' => Some(11int),
        'e' => Some(12int),
        'r' => Some(13int),
        't' => Some(14int),
        'y' => Some(15int),
        'u' => Some(16int),
        'i' => Some(17int),
        'o' => Some(18int),
        'p' => Some(19int),
        'a' => Some(20int),
        's' => Some(21int),
        'd' => Some(22int),
        'f' => Some(23int),
        'g' => Some(24int),
        'h' => Some(25int),
        'j' => Some(26int),
        'k' => Some(27int),
        'l' => Some(28int),
        'z' => Some(29int),
        'x' => Some(30int),
        'c' => Some(31int),
        'v' => Some(32int),
        'b' => Some(33int),
        'n' => Some(34int),
        'm' => Some(35int),
        _ => None,
    }
}

/// Semitone offsets of the C-major scale degrees.
pub open spec fn scale_step(degree: int) -> int {
    if degree == 0 {
        0
    } else if degree == 1 {
        2
    } else if degree == 2 {
        4
    } else if degree == 3 {
        5
    } else if degree == 4 {
        7
    } else if degree == 5 {
        9
    } else {
        11
    }
}

/// A sheet character as its base white key and whether Shift (a sharp) is on.
pub open spec fn spec_base_and_sharp(c: char) -> Option<(char, bool)> {
    if spec_replace_special_char(c) != c {
        Some((spec_replace_special_char(c), true))
    } else if 'A' <= c && c <= 'Z' {
        Some((spec_ascii_lower(c), true))
    } else if ('a' <= c && c <= 'z') || ('0' <= c && c <= '9') {
        Some((c, false))
    } else {
        None
    }
}

/// MIDI note of a sheet character: the white key's step in the C-major
/// scale starting at C3 (48), one octave per seven keys, plus one semitone
/// for Shift.
pub open spec fn spec_pitch(c: char) -> Option<u8> {
    match spec_base_and_sharp(c) {
        None => None,
        Some((base, sharp)) => match white_key_index(base) {
            None => None,
            Some(idx) => Some(
                (48 + scale_step(idx % 7) + 12 * (idx / 7) + if sharp {
                    1int
                } else {
                    0int
                }) as u8,
            ),
        },
    }
}

/// The pitches of the characters of `cs` that have one, in order.
pub open spec fn pitches_of(cs: Seq<char>) -> Seq<u8>
    decreases cs.len(),
{
    if cs.len() == 0 {
        seq![]
    } else {
        pitches_of(cs.drop_last()) + match spec_pitch(cs.last()) {
            Some(p) => seq![p],
            None => seq![],
        }
    }
}

/// The pitches a token stands for: a chord's members, or the token's characters.
pub open spec fn pitch_group(t: Seq<char>) -> Seq<u8> {
    if is_chord(t) {
        pitches_of(chord_inner(t))
    } else {
        pitches_of(t)
    }
}

/// The tokens (split on Unicode whitespace) that give at least one pitch.
pub open spec fn pitch_tokens(s: Seq<char>) -> Seq<(int, int, int)> {
    note_tokens(s, true).filter(|t: (int, int, int)| pitch_group(token_text(s, t)).len() > 0)
}

// ---------------------------------------------------------------------
// Implementation
// ---------------------------------------------------------------------

/// Maps a shifted digit back to its digit.
pub fn replace_special_char(c: char) -> (r: char)
    ensures
        r == spec_replace_special_char(c),
{
    match c {
        '!' => '1',
        '@' => '2',
        '#' => '3',
        '$' => '4',
        '%' => '5',
        '^' => '6',
        '&' => '7',
        '*' => '8',
        '(' => '9',
        ')' => '0',
        other => other,
    }
}

/// A token read in place: character and byte bounds, and its line.
#[derive(Clone, Copy)]
struct TokPos {
    start: usize,
    end: usize,
    line: usize,
    byte_start: usize,
    byte_end: usize,
}

spec fn tok_matches(p: TokPos, t: (int, int, int), s: Seq<char>) -> bool {
    &&& p.start == t.0
    &&& p.end == t.1
    &&& p.line == t.2
    &&& p.byte_start == byte_len(s.take(t.0))
    &&& p.byte_end == byte_len(s.take(t.1))
}

pub(crate) proof fn lemma_scan_bounds(s: Seq<char>, unicode: bool, i: int, line: int, st: int)
    requires
        0 <= i <= s.len(),
        st == -1 || (0 <= st < i),
        0 <= line,
    ensures
        forall|k: int|
            0 <= k < scan(s, unicode, i, line, st).len() ==> {
                let t = #[trigger] scan(s, unicode, i, line, st)[k];
                &&& 0 <= t.0 < t.1 <= s.len()
                &&& line <= t.2
                &&& (st >= 0 ==> st <= t.0)
                &&& (st < 0 ==> i <= t.0)
            },
    decreases s.len() - i,
{
    reveal(scan);
    let r = scan(s, unicode, i, line, st);
    if i >= s.len() {
    } else if is_separator(s[i], unicode) {
        let nl = if s[i] == '\n' {
            line + 1
        } else {
            line
        };
        let closed: Seq<(int, int, int)> = if st >= 0 {
            seq![(st, i, line)]
        } else {
            seq![]
        };
        let rest = scan(s, unicode, i + 1, nl, -1);
        lemma_scan_bounds(s, unicode, i + 1, nl, -1);
        assert(r == closed + rest);
        assert forall|k: int| 0 <= k < r.len() implies {
            let t = #[trigger] r[k];
            &&& 0 <= t.0 < t.1 <= s.len()
            &&& line <= t.2
            &&& (st >= 0 ==> st <= t.0)
            &&& (st < 0 ==> i <= t.0)
        } by {
            if k >= closed.len() {
                assert(r[k] == rest[k - closed.len()]);
            }
        }
    } else {
        let nst = if st >= 0 {
            st
        } else {
            i
        };
        lemma_scan_bounds(s, unicode, i + 1, line, nst);
        assert(r == scan(s, unicode, i + 1, line, nst));
    }
}

/// One separator step of [`scan`].
pub(crate) proof fn lemma_scan_sep(s: Seq<char>, unicode: bool, i: int, line: int, st: int)
    requires
        0 <= i < s.len(),
        is_separator(s[i], unicode),
    ensures
        scan(s, unicode, i, line, st) == (if st >= 0 {
            seq![(st, i, line)]
        } else {
            seq![]
        }) + scan(s, unicode, i + 1, if s[i] == '\n' { line + 1 } else { line }, -1),
{
    reveal(scan);
}

/// One in-token step of [`scan`].
pub(crate) proof fn lemma_scan_word(s: Seq<char>, unicode: bool, i: int, line: int, st: int)
    requires
        0 <= i < s.len(),
        !is_separator(s[i], unicode),
    ensures
        scan(s, unicode, i, line, st) == scan(s, unicode, i + 1, line, if st >= 0 { st } else { i }),
{
    reveal(scan);
}

/// The end of [`scan`].
pub(crate) proof fn lemma_scan_end(s: Seq<char>, unicode: bool, line: int, st: int)
    ensures
        scan(s, unicode, s.len() as int, line, st) == if st >= 0 {
            seq![(st, s.len() as int, line)]
        } else {
            Seq::<(int, int, int)>::empty()
        },
{
    reveal(scan);
}

/// Splits `chars` into tokens.
fn tokens_with_spans(chars: &Vec<char>, unicode: bool) -> (r: Vec<TokPos>)
    requires
        byte_len(chars@) <= usize::MAX,
    ensures
        r@.len() == note_tokens(chars@, unicode).len(),
        forall|k: int|
            0 <= k < r@.len() ==> tok_matches(r@[k], #[trigger] note_tokens(chars@, unicode)[k], chars@),
{
    let ghost s = chars@;
    let n = chars.len();
    let mut out: Vec<TokPos> = Vec::new();
    let ghost mut acc: Seq<(int, int, int)> = seq![];
    let mut i: usize = 0;
    let mut line: usize = 0;
    let mut in_tok = false;
    let mut st: usize = 0;
    let mut st_byte: usize = 0;
    let mut bi: usize = 0;
    proof {
        lemma_byte_len_empty(s);
        assert(acc + scan(s, unicode, 0, 0, -1) =~= note_tokens(s, unicode));
    }
    while i < n
        invariant
            n == s.len(),
            s == chars@,
            byte_len(s) <= usize::MAX,
            i <= n,
            line <= i,
            bi == byte_len(s.take(i as int)),
            in_tok ==> st < i && st_byte == byte_len(s.take(st as int)),
            acc + scan(s, unicode, i as int, line as int, if in_tok {
                st as int
            } else {
                -1
            }) == note_tokens(s, unicode),
            out@.len() == acc.len(),
            forall|k: int| 0 <= k < acc.len() ==> tok_matches(#[trigger] out@[k], acc[k], s),
        decreases n - i,
    {
        let c = chars[i];
        let w = utf8_width(c);
        proof {
            lemma_byte_len_take(s, i as int);
            lemma_byte_len_prefix(s, i + 1, n as int);
            assert(s.take(n as int) =~= s);
        }
        let sep = if unicode {
            is_white_space(c)
        } else {
            is_ascii_space(c)
        };
        let ghost old_acc = acc;
        let ghost cur = if in_tok {
            st as int
        } else {
            -1
        };
        if sep {
            let nl = if c == '\n' {
                line + 1
            } else {
                line
            };
            proof {
                lemma_scan_sep(s, unicode, i as int, line as int, cur);
            }
            if in_tok {
                let tp = TokPos { start: st, end: i, line, byte_start: st_byte, byte_end: bi };
                out.push(tp);
                proof {
                    acc = acc.push((st as int, i as int, line as int));
                    assert(tok_matches(tp, (st as int, i as int, line as int), s));
                    assert forall|k: int| 0 <= k < acc.len() implies tok_matches(
                        #[trigger] out@[k],
                        acc[k],
                        s,
                    ) by {
                        if k < old_acc.len() {
                            assert(acc[k] == old_acc[k]);
                        }
                    }
                    assert(old_acc + (seq![(st as int, i as int, line as int)] + scan(
                        s,
                        unicode,
                        i + 1,
                        nl as int,
                        -1,
                    )) =~= acc + scan(s, unicode, i + 1, nl as int, -1));
                }
            } else {
                proof {
                    assert(Seq::<(int, int, int)>::empty() + scan(s, unicode, i + 1, nl as int, -1)
                        =~= scan(s, unicode, i + 1, nl as int, -1));
                }
            }
            line = nl;
            in_tok = false;
        } else {
            proof {
                lemma_scan_word(s, unicode, i as int, line as int, cur);
            }
            if !in_tok {
                in_tok = true;
                st = i;
                st_byte = bi;
            }
        }
        bi = bi + w;
        i = i + 1;
    }
    proof {
        lemma_scan_end(s, unicode, line as int, if in_tok { st as int } else { -1 });
    }
    if in_tok {
        let tp = TokPos { start: st, end: n, line, byte_start: st_byte, byte_end: bi };
        let ghost old_acc = acc;
        out.push(tp);
        proof {
            acc = acc.push((st as int, n as int, line as int));
            assert(s.take(n as int) =~= s);
            assert(tok_matches(tp, (st as int, n as int, line as int), s));
            assert forall|k: int| 0 <= k < acc.len() implies tok_matches(
                #[trigger] out@[k],
                acc[k],
                s,
            ) by {
                if k < old_acc.len() {
                    assert(acc[k] == old_acc[k]);
                }
            }
        }
    }
    proof {
        assert(acc =~= note_tokens(s, unicode));
    }
    out
}

/// Whether a character sequence reads as upper case (see [`upper_like`]).
fn is_upper(r: &Vec<char>) -> (b: bool)
    ensures
        b == upper_like(r@),
{
    let mut has_alpha = false;
    let mut i: usize = 0;
    while i < r.len()
        invariant
            i <= r.len(),
            has_alpha == exists|j: int| 0 <= j < i && letter(#[trigger] r@[j]),
            forall|j: int| 0 <= j < i && letter(#[trigger] r@[j]) ==> upper_letter(r@[j]),
        decreases r.len() - i,
    {
        let c = r[i];
        if is_alphabetic(c) {
            has_alpha = true;
            if !is_uppercase(c) {
                return false;
            }
        }
        i += 1;
    }
    has_alpha
}

/// Appends the characters of `cs` as plain key actions.
fn push_keys(group: &mut Vec<KeyAction>, cs: &Vec<char>)
    ensures
        final(group)@ == old(group)@ + chars_as_keys(cs@),
{
    let ghost head = group@;
    let mut i: usize = 0;
    while i < cs.len()
        invariant
            i <= cs.len(),
            group@ == head + chars_as_keys(cs@.take(i as int)),
        decreases cs.len() - i,
    {
        let c = cs[i];
        let ghost before = cs@.take(i as int);
        group.push(KeyAction::Char(c));
        i += 1;
        proof {
            lemma_chars_as_keys(before);
            lemma_chars_as_keys(cs@.take(i as int));
            assert(chars_as_keys(cs@.take(i as int)) =~= chars_as_keys(before).push(char_key(c)));
        }
        assert(group@ =~= head + chars_as_keys(cs@.take(i as int)));
    }
    assert(cs@.take(cs.len() as int) =~= cs@);
}

/// A token of one character gets it unshifted (`!` to `1`, ...); longer
/// tokens stay as they are.
fn replace_special_token(tok: &Vec<char>) -> (r: Vec<char>)
    ensures
        r@ == special_token(tok@),
{
    let n = tok.len();
    if n == 1 {
        let mut one: Vec<char> = Vec::new();
        one.push(replace_special_char(tok[0]));
        assert(one@ =~= special_token(tok@));
        one
    } else {
        let r = sub_vec(tok, 0, n);
        assert(r@ =~= special_token(tok@));
        r
    }
}

/// The group of key actions of one token; a token gives at least one key.
fn build_group(tok: &Vec<char>) -> (g: Vec<KeyAction>)
    ensures
        g@ == group_of(tok@),
        tok@.len() > 0 ==> g@.len() > 0,
{
    let n = tok.len();
    let is_chord = n >= 3 && tok[0] == '[' && tok[n - 1] == ']';
    let mut group: Vec<KeyAction> = Vec::new();
    if is_chord {
        let ghost inner = chord_inner(tok@);
        let mut i: usize = 1;
        while i < n - 1
            invariant
                3 <= n == tok@.len(),
                1 <= i <= n - 1,
                inner == tok@.subrange(1, n - 1),
                group@.len() == i - 1,
                forall|j: int|
                    0 <= j < i - 1 ==> #[trigger] group@[j] == KeyAction::Char(chord_key(inner[j])),
            decreases n - 1 - i,
        {
            assert(inner[i - 1] == tok@[i as int]);
            let c = replace_special_char(ascii_lower(tok[i]));
            group.push(KeyAction::Char(c));
            i += 1;
        }
        let ghost want = chars_as_keys(inner.map_values(|c: char| chord_key(c)));
        assert(want.len() == group@.len());
        assert forall|j: int| 0 <= j < want.len() implies want[j] == group@[j] by {}
        assert(group@ =~= want);
    } else {
        let replaced = replace_special_token(tok);
        let lowered = to_lowercase(&replaced);
        if is_upper(&replaced) {
            group.push(KeyAction::Shift);
        }
        let ghost head = group@;
        push_keys(&mut group, &lowered);
        let ghost shift: Seq<KeyAction> = if upper_like(special_token(tok@)) {
            seq![KeyAction::Shift]
        } else {
            seq![]
        };
        assert(head =~= shift);
        assert(group@ =~= group_of(tok@));
    }
    group
}

/// `events` are the key-press events of `notes`: one per key token, with
/// its keys and the pause after it.
pub open spec fn key_events<P>(notes: Seq<char>, between_keys: P, between_lines: P, events: Seq<Event<P>>) -> bool {
    &&& events.len() == key_tokens(notes).len()
    &&& forall|k: int|
        0 <= k < events.len() ==> {
            &&& (#[trigger] events[k]).0@ == group_of(token_text(notes, key_tokens(notes)[k]))
            &&& events[k].1 == pause_at(key_tokens(notes), k, between_keys, between_lines)
        }
}

/// `spans` are the positions of the key tokens of `notes`.
pub open spec fn key_spans(notes: Seq<char>, spans: Seq<TokenSpan>) -> bool {
    &&& spans.len() == key_tokens(notes).len()
    &&& forall|k: int| 0 <= k < spans.len() ==> #[trigger] spans[k] == span_of(notes, key_tokens(notes)[k])
}

/// `groups` are the pitch groups of `notes`: one per token that has a
/// pitch, with the pause after it.
pub open spec fn pitch_events<P>(notes: Seq<char>, between_keys: P, between_lines: P, groups: Seq<PitchEvent<P>>) -> bool {
    &&& groups.len() == pitch_tokens(notes).len()
    &&& forall|k: int|
        0 <= k < groups.len() ==> {
            &&& (#[trigger] groups[k]).0@ == pitch_group(token_text(notes, pitch_tokens(notes)[k]))
            &&& groups[k].1 == pause_at(pitch_tokens(notes), k, between_keys, between_lines)
        }
}

/// Parses a sheet into key-press events and, one for one, their positions;
/// every token of the sheet gives one event.
pub fn parse<P: Copy>(notes: &str, between_keys: P, between_lines: P) -> (r: Parsed<P>)
    requires
        parse_accepts(notes@),
    ensures
        r.events@.len() == key_tokens(notes@).len(),
        r.spans@.len() == key_tokens(notes@).len(),
        r.events@.len() == note_tokens(notes@, false).len(),
        forall|k: int|
            0 <= k < r.events@.len() ==> {
                &&& (#[trigger] r.events@[k]).0@ == group_of(token_text(notes@, key_tokens(notes@)[k]))
                &&& r.events@[k].1 == pause_at(key_tokens(notes@), k, between_keys, between_lines)
                &&& r.spans@[k] == span_of(notes@, key_tokens(notes@)[k])
            },
{
    let chars = chars_of(notes);
    let ghost s = chars@;
    let nbytes = notes.as_bytes().len();
    proof {
        lemma_byte_len_def(s);
    }
    assert(byte_len(s) == nbytes);
    let toks = tokens_with_spans(&chars, false);
    let ghost all = note_tokens(s, false);
    let ghost pred = |t: (int, int, int)| group_of(token_text(s, t)).len() > 0;
    proof {
        lemma_scan_bounds(s, false, 0, 0, -1);
    }
    let mut events: Vec<Event<P>> = Vec::new();
    let mut spans: Vec<TokenSpan> = Vec::new();
    let mut pending: Option<(Vec<KeyAction>, TokPos)> = None;
    let ghost mut kept: Seq<(int, int, int)> = seq![];
    let mut k: usize = 0;
    proof {
        assert(all.take(0) =~= Seq::<(int, int, int)>::empty());
        assert(all.take(0).filter(pred) =~= Seq::<(int, int, int)>::empty());
    }
    while k < toks.len()
        invariant
            s == chars@,
            s == notes@,
            all == note_tokens(s, false),
            pred == (|t: (int, int, int)| group_of(token_text(s, t)).len() > 0),
            toks@.len() == all.len(),
            forall|j: int| 0 <= j < toks@.len() ==> tok_matches(toks@[j], #[trigger] all[j], s),
            forall|j: int|
                0 <= j < all.len() ==> {
                    let t = #[trigger] all[j];
                    &&& 0 <= t.0 < t.1 <= s.len()
                    &&& 0 <= t.2
                },
            k <= toks@.len(),
            kept == all.take(k as int).filter(pred),
            kept.len() == k,
            events@.len() == spans@.len(),
            events@.len() + (if pending is Some {
                1int
            } else {
                0int
            }) == kept.len(),
            pending is Some <==> kept.len() > 0,
            pending matches Some((g, p)) ==> g@ == group_of(token_text(s, kept.last()))
                && tok_matches(p, kept.last(), s),
            forall|j: int|
                0 <= j < events@.len() ==> {
                    &&& (#[trigger] events@[j]).0@ == group_of(token_text(s, kept[j]))
                    &&& events@[j].1 == pause_at(kept, j, between_keys, between_lines)
                    &&& spans@[j] == span_of(s, kept[j])
                },
        decreases toks@.len() - k,
    {
        let p = toks[k];
        let ghost tk = all[k as int];
        assert(tok_matches(p, tk, s));
        let t = sub_vec(&chars, p.start, p.end);
        let g = build_group(&t);
        proof {
            assert(t@ == token_text(s, tk));
            assert(all.take(k + 1) =~= all.take(k as int).push(tk));
            all.take(k as int).lemma_filter_push(tk, pred);
        }
        if g.len() > 0 {
            let ghost old_kept = kept;
            let ghost old_events = events@;
            let ghost old_spans = spans@;
            proof {
                kept = kept.push(tk);
            }
            match pending.take() {
                Some((pg, pp)) => {
                    let pause = if pp.line != p.line {
                        between_lines
                    } else {
                        between_keys
                    };
                    events.push((pg, pause));
                    spans.push(TokenSpan { line: pp.line, start: pp.byte_start, end: pp.byte_end });
                    proof {
                        let j = old_kept.len() - 1;
                        assert(kept[j] == old_kept.last());
                        assert(kept[j + 1] == tk);
                        assert forall|i: int| 0 <= i < events@.len() implies {
                            &&& (#[trigger] events@[i]).0@ == group_of(token_text(s, kept[i]))
                            &&& events@[i].1 == pause_at(kept, i, between_keys, between_lines)
                            &&& spans@[i] == span_of(s, kept[i])
                        } by {
                            if i < j {
                                assert(events@[i] == old_events[i]);
                                assert(spans@[i] == old_spans[i]);
                                assert(kept[i] == old_kept[i]);
                                assert(kept[i + 1] == old_kept[i + 1]);
                            }
                        }
                    }
                },
                None => {},
            }
            pending = Some((g, p));
        } else {
            assert(t@.len() > 0);
        }
        k += 1;
    }
    proof {
        assert(all.take(toks@.len() as int) =~= all);
    }
    match pending.take() {
        Some((pg, pp)) => {
            let ghost old_events = events@;
            let ghost old_spans = spans@;
            events.push((pg, between_lines));
            spans.push(TokenSpan { line: pp.line, start: pp.byte_start, end: pp.byte_end });
            proof {
                assert forall|i: int| 0 <= i < events@.len() implies {
                    &&& (#[trigger] events@[i]).0@ == group_of(token_text(s, kept[i]))
                    &&& events@[i].1 == pause_at(kept, i, between_keys, between_lines)
                    &&& spans@[i] == span_of(s, kept[i])
                } by {
                    if i < events@.len() - 1 {
                        assert(events@[i] == old_events[i]);
                        assert(spans@[i] == old_spans[i]);
                    }
                }
            }
        },
        None => {},
    }
    Parsed { events, spans }
}

/// Splits a sheet character into its base key and whether Shift is on.
fn base_and_sharp(ch: char) -> (r: Option<(char, bool)>)
    ensures
        r == spec_base_and_sharp(ch),
{
    let un = replace_special_char(ch);
    if un != ch {
        Some((un, true))
    } else if 'A' <= ch && ch <= 'Z' {
        Some((ascii_lower(ch), true))
    } else if ('a' <= ch && ch <= 'z') || ('0' <= ch && ch <= '9') {
        Some((ch, false))
    } else {
        None
    }
}

/// Position of a key in the row of white keys.
fn white_index(c: char) -> (r: Option<u32>)
    ensures
        match white_key_index(c) {
            Some(i) => r == Some(i as u32),
            None => r is None,
        },
{
    match c {
        '1' => Some(0),
        '2' => Some(1),
        '3' => Some(2),
        '4' => Some(3),
        '5' => Some(4),
        '6' => Some(5),
        '7' => Some(6),
        '8' => Some(7),
        '9' => Some(8),
        '0' => Some(9),
        'q' => Some(10),
        'w' => Some(11),
        'e' => Some(12),
        'r' => Some(13),
        't' => Some(14),
        'y' => Some(15),
        'u' => Some(16),
        'i' => Some(17),
        'o' => Some(18),
        'p' => Some(19),
        'a' => Some(20),
        's' => Some(21),
        'd' => Some(22),
        'f' => Some(23),
        'g' => Some(24),
        'h' => Some(25),
        'j' => Some(26),
        'k' => Some(27),
        'l' => Some(28),
        'z' => Some(29),
        'x' => Some(30),
        'c' => Some(31),
        'v' => Some(32),
        'b' => Some(33),
        'n' => Some(34),
        'm' => Some(35),
        _ => None,
    }
}

/// The MIDI note of a sheet character, if it has one.
pub fn pitch_of(ch: char) -> (r: Option<u8>)
    ensures
        r == spec_pitch(ch),
{
    let (base, sharp) = match base_and_sharp(ch) {
        Some(pair) => pair,
        None => return None,
    };
    let idx = match white_index(base) {
        Some(i) => i,
        None => return None,
    };
    let octave = idx / 7;
    let degree = idx % 7;
    let step: u32 = if degree == 0 {
        0
    } else if degree == 1 {
        2
    } else if degree == 2 {
        4
    } else if degree == 3 {
        5
    } else if degree == 4 {
        7
    } else if degree == 5 {
        9
    } else {
        11
    };
    let midi: u32 = 48 + step + 12 * octave + if sharp {
        1
    } else {
        0
    };
    Some(midi as u8)
}

/// The pitches of the characters of `cs`.
fn pitches(cs: &Vec<char>, from: usize, to: usize) -> (r: Vec<u8>)
    requires
        from <= to <= cs.len(),
    ensures
        r@ == pitches_of(cs@.subrange(from as int, to as int)),
{
    let mut out: Vec<u8> = Vec::new();
    let mut i = from;
    proof {
        assert(cs@.subrange(from as int, from as int) =~= Seq::<char>::empty());
    }
    while i < to
        invariant
            from <= i <= to <= cs.len(),
            out@ == pitches_of(cs@.subrange(from as int, i as int)),
        decreases to - i,
    {
        let ghost prev = cs@.subrange(from as int, i as int);
        if let Some(p) = pitch_of(cs[i]) {
            out.push(p);
        }
        i += 1;
        proof {
            let cur = cs@.subrange(from as int, i as int);
            assert(cur.drop_last() =~= prev);
            assert(cur.last() == cs@[i - 1]);
        }
    }
    out
}

/// The pitches of one token.
fn pitch_group_of(tok: &Vec<char>) -> (g: Vec<u8>)
    ensures
        g@ == pitch_group(tok@),
{
    let n = tok.len();
    if n >= 2 && tok[0] == '[' && tok[n - 1] == ']' {
        pitches(tok, 1, n - 1)
    } else {
        let g = pitches(tok, 0, n);
        assert(tok@.subrange(0, n as int) =~= tok@);
        g
    }
}

/// Parses a sheet into groups of simultaneous MIDI notes with pauses.
pub fn parse_pitches<P: Copy>(notes: &str, between_keys: P, between_lines: P) -> (r: Vec<
    PitchEvent<P>,
>)
    ensures
        r@.len() == pitch_tokens(notes@).len(),
        forall|k: int|
            0 <= k < r@.len() ==> {
                &&& (#[trigger] r@[k]).0@ == pitch_group(token_text(notes@, pitch_tokens(notes@)[k]))
                &&& r@[k].1 == pause_at(pitch_tokens(notes@), k, between_keys, between_lines)
            },
{
    let chars = chars_of(notes);
    let ghost s = chars@;
    let nbytes = notes.as_bytes().len();
    proof {
        lemma_byte_len_def(s);
    }
    assert(byte_len(s) == nbytes);
    let toks = tokens_with_spans(&chars, true);
    let ghost all = note_tokens(s, true);
    let ghost pred = |t: (int, int, int)| pitch_group(token_text(s, t)).len() > 0;
    proof {
        lemma_scan_bounds(s, true, 0, 0, -1);
    }
    let mut out: Vec<PitchEvent<P>> = Vec::new();
    let mut pending: Option<(Vec<u8>, usize)> = None;
    let ghost mut kept: Seq<(int, int, int)> = seq![];
    let mut k: usize = 0;
    proof {
        assert(all.take(0) =~= Seq::<(int, int, int)>::empty());
        assert(all.take(0).filter(pred) =~= Seq::<(int, int, int)>::empty());
    }
    while k < toks.len()
        invariant
            s == chars@,
            s == notes@,
            all == note_tokens(s, true),
            pred == (|t: (int, int, int)| pitch_group(token_text(s, t)).len() > 0),
            toks@.len() == all.len(),
            forall|j: int| 0 <= j < toks@.len() ==> tok_matches(toks@[j], #[trigger] all[j], s),
            forall|j: int|
                0 <= j < all.len() ==> {
                    let t = #[trigger] all[j];
                    &&& 0 <= t.0 < t.1 <= s.len()
                    &&& 0 <= t.2
                },
            k <= toks@.len(),
            kept == all.take(k as int).filter(pred),
            out@.len() + (if pending is Some {
                1int
            } else {
                0int
            }) == kept.len(),
            pending is Some <==> kept.len() > 0,
            pending matches Some((g, line)) ==> g@ == pitch_group(token_text(s, kept.last()))
                && line == kept.last().2,
            forall|j: int|
                0 <= j < out@.len() ==> {
                    &&& (#[trigger] out@[j]).0@ == pitch_group(token_text(s, kept[j]))
                    &&& out@[j].1 == pause_at(kept, j, between_keys, between_lines)
                },
        decreases toks@.len() - k,
    {
        let p = toks[k];
        let ghost tk = all[k as int];
        assert(tok_matches(p, tk, s));
        let t = sub_vec(&chars, p.start, p.end);
        let g = pitch_group_of(&t);
        proof {
            assert(t@ == token_text(s, tk));
            assert(all.take(k + 1) =~= all.take(k as int).push(tk));
            all.take(k as int).lemma_filter_push(tk, pred);
        }
        if g.len() > 0 {
            let ghost old_kept = kept;
            let ghost old_out = out@;
            proof {
                kept = kept.push(tk);
            }
            match pending.take() {
                Some((pg, pline)) => {
                    let pause = if pline != p.line {
                        between_lines
                    } else {
                        between_keys
                    };
                    out.push((pg, pause));
                    proof {
                        let j = old_kept.len() - 1;
                        assert(kept[j] == old_kept.last());
                        assert(kept[j + 1] == tk);
                        assert forall|i: int| 0 <= i < out@.len() implies {
                            &&& (#[trigger] out@[i]).0@ == pitch_group(token_text(s, kept[i]))
                            &&& out@[i].1 == pause_at(kept, i, between_keys, between_lines)
                        } by {
                            if i < j {
                                assert(out@[i] == old_out[i]);
                                assert(kept[i] == old_kept[i]);
                                assert(kept[i + 1] == old_kept[i + 1]);
                            }
                        }
                    }
                },
                None => {},
            }
            pending = Some((g, p.line));
        } else {
            proof {
                assert(kept == all.take(k + 1).filter(pred));
            }
        }
        k += 1;
    }
    proof {
        assert(all.take(toks@.len() as int) =~= all);
    }
    match pending.take() {
        Some((pg, _)) => {
            let ghost old_out = out@;
            out.push((pg, between_lines));
            proof {
                assert forall|i: int| 0 <= i < out@.len() implies {
                    &&& (#[trigger] out@[i]).0@ == pitch_group(token_text(s, kept[i]))
                    &&& out@[i].1 == pause_at(kept, i, between_keys, between_lines)
                } by {
                    if i < out@.len() - 1 {
                        assert(out@[i] == old_out[i]);
                    }
                }
            }
        },
        None => {},
    }
    out
}


/// The character typed with Shift on a white key: the capital letter, or
/// the symbol above the digit.
pub open spec fn shifted(c: char) -> char {
    match c {
        '1' => '!',
        '2' => '@',
        '3' => '#',
        '4' => '$',
        '5' => '%',
        '6' => '^',
        '7' => '&',
        '8' => '*',
        '9' => '(',
        '0' => ')',
        _ => ((c as u32) - 32) as char,
    }
}

/// Shift raises a white key by a semitone: the capital letter, or the
/// symbol above a digit, is one MIDI note above the key itself.
pub proof fn lemma_sharp_is_semitone_up(c: char)
    requires
        white_key_index(c) is Some,
    ensures
        spec_pitch(c) is Some,
        spec_pitch(shifted(c)) == Some((spec_pitch(c)->0 + 1) as u8),
{
    let idx = white_key_index(c)->0;
    assert(0 <= idx < 36);
    assert(spec_base_and_sharp(c) == Some((c, false)));
    assert(spec_base_and_sharp(shifted(c)) == Some((c, true)));
}

/// The bytes a span marks out are the token's own: cutting the UTF-8 text
/// at a parsed span gives back exactly the token's encoding.
#[verifier::rlimit(40)]
pub proof fn lemma_span_cuts_token(notes: Seq<char>, k: int)
    requires
        0 <= k < key_tokens(notes).len(),
        encode_utf8(notes).len() <= usize::MAX,
    ensures
        ({
            let t = key_tokens(notes)[k];
            let sp = span_of(notes, t);
            encode_utf8(notes).subrange(sp.start as int, sp.end as int) == encode_utf8(token_text(notes, t))
        }),
{
    let all = note_tokens(notes, false);
    let pred = |t: (int, int, int)| group_of(token_text(notes, t)).len() > 0;
    let t = key_tokens(notes)[k];
    assert(key_tokens(notes) == all.filter(pred));
    assert(all.filter(pred)[k] == t);
    assert(all.filter(pred).contains(t));
    all.lemma_filter_contains_rev(pred, t);
    assert(all.contains(t));
    let j = choose|j: int| 0 <= j < all.len() && all[j] == t;
    lemma_scan_bounds(notes, false, 0, 0, -1);
    assert(all[j] == t);
    assert(0 <= t.0 <= t.1 <= notes.len());
    let a = notes.take(t.0);
    let b = notes.subrange(t.0, t.1);
    let c = notes.skip(t.1);
    assert(notes.take(t.1) =~= a + b);
    assert(notes =~= a + b + c);
    lemma_encode_utf8_add(a, b);
    lemma_encode_utf8_add(a + b, c);
    lemma_byte_len_def(a);
    lemma_byte_len_def(a + b);
    let ea = encode_utf8(a);
    let eb = encode_utf8(b);
    let ec = encode_utf8(c);
    assert(encode_utf8(notes) == ea + eb + ec);
    assert((ea + eb + ec).subrange(ea.len() as int, ea.len() + eb.len() as int) =~= eb);
}


/// A token that is not a chord is pressed with Shift exactly when it has a
/// letter and every letter in it is upper case (a lone shifted digit counts
/// as its digit); a token with any lower-case letter is never shifted.
pub proof fn lemma_shift_iff_upper_letters(t: Seq<char>)
    requires
        !is_key_chord(t),
    ensures
        t.len() != 1 ==> (starts_with_shift(group_of(t)) <==> (
            (exists|i: int| 0 <= i < t.len() && letter(#[trigger] t[i]))
            && forall|i: int| 0 <= i < t.len() && letter(#[trigger] t[i]) ==> upper_letter(t[i]))),
        t.len() == 1 ==> (starts_with_shift(group_of(t)) <==> (
            letter(spec_replace_special_char(t[0])) && upper_letter(spec_replace_special_char(t[0])))),
        forall|i: int| 0 <= i < t.len() && letter(#[trigger] t[i]) && !upper_letter(t[i])
            ==> !starts_with_shift(group_of(t)),
{
    let r = special_token(t);
    let low = chars_as_keys(lower_text(r));
    lemma_chars_as_keys(lower_text(r));
    if upper_like(r) {
        assert(group_of(t)[0] == KeyAction::Shift);
    } else {
        assert(group_of(t) =~= low);
        if low.len() > 0 {
            assert(low[0] == KeyAction::Char(lower_text(r)[0]));
        }
    }
    if t.len() == 1 {
        assert(r =~= seq![spec_replace_special_char(t[0])]);
        if letter(r[0]) && upper_letter(r[0]) {
            assert(upper_like(r));
        }
        if upper_like(r) {
            let i = choose|i: int| 0 <= i < r.len() && letter(#[trigger] r[i]);
            assert(i == 0);
        }
        assert forall|i: int| 0 <= i < t.len() && letter(#[trigger] t[i]) && !upper_letter(t[i])
            implies !starts_with_shift(group_of(t)) by {
            assert(i == 0);
            assert(spec_replace_special_char(t[0]) == t[0]);
        }
    } else {
        assert(r == t);
    }
}


/// The semitone of the `idx`-th white key (no Shift) above MIDI 0.
pub open spec fn white_pitch(idx: int) -> int {
    48 + scale_step(idx % 7) + 12 * (idx / 7)
}

proof fn lemma_white_step(i: int)
    requires
        0 <= i < 35,
    ensures
        white_pitch(i) < white_pitch(i + 1),
        0 <= white_pitch(i) && white_pitch(i + 1) <= 120,
{
    let q = i / 7;
    let r = i % 7;
    assert(i == 7 * q + r && 0 <= r < 7 && 0 <= q <= 4) by (nonlinear_arith)
        requires 0 <= i < 35, q == i / 7, r == i % 7;
    if r < 6 {
        assert((i + 1) / 7 == q && (i + 1) % 7 == r + 1) by (nonlinear_arith)
            requires i == 7 * q + r, 0 <= r < 6;
    } else {
        assert((i + 1) / 7 == q + 1 && (i + 1) % 7 == 0) by (nonlinear_arith)
            requires i == 7 * q + r, r == 6;
    }
}

proof fn lemma_white_rise(i: int, j: int)
    requires
        0 <= i < j < 36,
    ensures
        white_pitch(i) < white_pitch(j),
        0 <= white_pitch(i) && white_pitch(j) <= 120,
    decreases j - i,
{
    lemma_white_step(j - 1);
    if i < j - 1 {
        lemma_white_rise(i, j - 1);
    }
}

/// Every letter and digit is a white key; each has a pitch, and Shift on
/// it (the capital, or the symbol above the digit) sounds one semitone up.
pub proof fn lemma_letters_and_digits_are_white_keys(c: char)
    requires
        ('a' <= c && c <= 'z') || ('0' <= c && c <= '9'),
    ensures
        white_key_index(c) is Some,
        spec_pitch(c) is Some,
        spec_pitch(shifted(c)) == Some((spec_pitch(c)->0 + 1) as u8),
{
    assert(white_key_index(c) is Some);
    lemma_sharp_is_semitone_up(c);
}

/// The white keys rise: along `1234567890qwertyuiopasdfghjklzxcvbnm`
/// each key sounds strictly higher than every key before it.
pub proof fn lemma_white_keys_rise(c1: char, c2: char)
    requires
        white_key_index(c1) is Some,
        white_key_index(c2) is Some,
        white_key_index(c1)->0 < white_key_index(c2)->0,
    ensures
        spec_pitch(c1) is Some,
        spec_pitch(c2) is Some,
        spec_pitch(c1)->0 < spec_pitch(c2)->0,
{
    let i = white_key_index(c1)->0;
    let j = white_key_index(c2)->0;
    assert(0 <= i < 36 && 0 <= j < 36);
    assert(spec_base_and_sharp(c1) == Some((c1, false)));
    assert(spec_base_and_sharp(c2) == Some((c2, false)));
    lemma_white_rise(i, j);
    assert(spec_pitch(c1) == Some(white_pitch(i) as u8));
    assert(spec_pitch(c2) == Some(white_pitch(j) as u8));
}

} // verus!
