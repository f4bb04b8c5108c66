//! Playing a melody as key presses in the active window.
//!
//! Keys are sent by fixed US-ANSI key codes, so the presses do not depend on
//! the active keyboard layout.  Sending them and sleeping between them is the
//! application's business; this module holds the code tables, the messages,
//! and the decisions of a playback run.
use vstd::prelude::*;
use crate::parser::{Event, KeyAction};

verus! {

/// A melody to play.
pub struct PlayRequest<P> {
    pub events: Vec<Event<P>>,
    pub countdown_secs: u64,
}

/// Messages from the playback thread to the interface.
#[derive(Debug)]
pub enum PlayerMsg {
    /// Countdown before the start (seconds left).
    Countdown(u64),
    /// (played, total)
    Progress(usize, usize),
    Finished,
    /// Stopped at this event.
    Stopped(usize),
    /// Input could not be set up (no permission and the like).
    Error(String),
}

/// macOS virtual key codes (kVK_ANSI_*) of the characters that have one.
pub open spec fn mac_keycode_spec(c: char) -> Option<u16> {
    match c {
        'a' => Some(0u16),
        's' => Some(1u16),
        'd' => Some(2u16),
        'f' => Some(3u16),
        'h' => Some(4u16),
        'g' => Some(5u16),
        'z' => Some(6u16),
        'x' => Some(7u16),
        'c' => Some(8u16),
        'v' => Some(9u16),
        'b' => Some(11u16),
        'q' => Some(12u16),
        'w' => Some(13u16),
        'e' => Some(14u16),
        'r' => Some(15u16),
        'y' => Some(16u16),
        't' => Some(17u16),
        'o' => Some(31u16),
        'u' => Some(32u16),
        'i' => Some(34u16),
        'p' => Some(35u16),
        'l' => Some(37u16),
        'j' => Some(38u16),
        'k' => Some(40u16),
        'n' => Some(45u16),
        'm' => Some(46u16),
        '1' => Some(18u16),
        '2' => Some(19u16),
        '3' => Some(20u16),
        '4' => Some(21u16),
        '5' => Some(23u16),
        '6' => Some(22u16),
        '7' => Some(26u16),
        '8' => Some(28u16),
        '9' => Some(25u16),
        '0' => Some(29u16),
        '-' => Some(27u16),
        '=' => Some(24u16),
        '[' => Some(33u16),
        ']' => Some(30u16),
        ';' => Some(41u16),
        '\'' => Some(39u16),
        '\\' => Some(42u16),
        ',' => Some(43u16),
        '.' => Some(47u16),
        '/' => Some(44u16),
        '`' => Some(50u16),
        ' ' => Some(49u16),
        _ => None,
    }
}

/// The macOS virtual key code of a character.
pub fn mac_keycode(c: char) -> (r: Option<u16>)
    ensures
        r == mac_keycode_spec(c),
{
    match c {
        'a' => Some(0),
        's' => Some(1),
        'd' => Some(2),
        'f' => Some(3),
        'h' => Some(4),
        'g' => Some(5),
        'z' => Some(6),
        'x' => Some(7),
        'c' => Some(8),
        'v' => Some(9),
        'b' => Some(11),
        'q' => Some(12),
        'w' => Some(13),
        'e' => Some(14),
        'r' => Some(15),
        'y' => Some(16),
        't' => Some(17),
        'o' => Some(31),
        'u' => Some(32),
        'i' => Some(34),
        'p' => Some(35),
        'l' => Some(37),
        'j' => Some(38),
        'k' => Some(40),
        'n' => Some(45),
        'm' => Some(46),
        '1' => Some(18),
        '2' => Some(19),
        '3' => Some(20),
        '4' => Some(21),
        '5' => Some(23),
        '6' => Some(22),
        '7' => Some(26),
        '8' => Some(28),
        '9' => Some(25),
        '0' => Some(29),
        '-' => Some(27),
        '=' => Some(24),
        '[' => Some(33),
        ']' => Some(30),
        ';' => Some(41),
        '\'' => Some(39),
        '\\' => Some(42),
        ',' => Some(43),
        '.' => Some(47),
        '/' => Some(44),
        '`' => Some(50),
        ' ' => Some(49),
        _ => None,
    }
}

/// Windows virtual-key codes: letters and digits are the code of the upper
/// case character, punctuation the US layout's OEM codes.
pub open spec fn windows_keycode_spec(c: char) -> Option<u16> {
    if 'a' <= c && c <= 'z' {
        Some(((c as u32) - 32) as u16)
    } else if '0' <= c && c <= '9' {
        Some((c as u32) as u16)
    } else {
        match c {
            ' ' => Some(0x20u16),
            '-' => Some(0xBDu16),
            '=' => Some(0xBBu16),
            '[' => Some(0xDBu16),
            ']' => Some(0xDDu16),
            ';' => Some(0xBAu16),
            '\'' => Some(0xDEu16),
            '\\' => Some(0xDCu16),
            ',' => Some(0xBCu16),
            '.' => Some(0xBEu16),
            '/' => Some(0xBFu16),
            '`' => Some(0xC0u16),
            _ => None,
        }
    }
}

/// The Windows virtual-key code of a character.
pub fn windows_keycode(c: char) -> (r: Option<u16>)
    ensures
        r == windows_keycode_spec(c),
{
    if 'a' <= c && c <= 'z' {
        Some(((c as u32) - 32) as u16)
    } else if '0' <= c && c <= '9' {
        Some((c as u32) as u16)
    } else {
        match c {
            ' ' => Some(0x20),
            '-' => Some(0xBD),
            '=' => Some(0xBB),
            '[' => Some(0xDB),
            ']' => Some(0xDD),
            ';' => Some(0xBA),
            '\'' => Some(0xDE),
            '\\' => Some(0xDC),
            ',' => Some(0xBC),
            '.' => Some(0xBE),
            '/' => Some(0xBF),
            '`' => Some(0xC0),
            _ => None,
        }
    }
}


/// The character of a macOS key code (the table read backwards).
spec fn mac_code_char(k: u16) -> char {
    match k {
        0u16 => 'a',
        1u16 => 's',
        2u16 => 'd',
        3u16 => 'f',
        4u16 => 'h',
        5u16 => 'g',
        6u16 => 'z',
        7u16 => 'x',
        8u16 => 'c',
        9u16 => 'v',
        11u16 => 'b',
        12u16 => 'q',
        13u16 => 'w',
        14u16 => 'e',
        15u16 => 'r',
        16u16 => 'y',
        17u16 => 't',
        31u16 => 'o',
        32u16 => 'u',
        34u16 => 'i',
        35u16 => 'p',
        37u16 => 'l',
        38u16 => 'j',
        40u16 => 'k',
        45u16 => 'n',
        46u16 => 'm',
        18u16 => '1',
        19u16 => '2',
        20u16 => '3',
        21u16 => '4',
        23u16 => '5',
        22u16 => '6',
        26u16 => '7',
        28u16 => '8',
        25u16 => '9',
        29u16 => '0',
        27u16 => '-',
        24u16 => '=',
        33u16 => '[',
        30u16 => ']',
        41u16 => ';',
        39u16 => '\'',
        42u16 => '\\',
        43u16 => ',',
        47u16 => '.',
        44u16 => '/',
        50u16 => '`',
        49u16 => ' ',
        _ => '\0',
    }
}

/// Distinct characters get distinct macOS key codes: no note presses the
/// key of another.
pub proof fn lemma_mac_codes_distinct(c1: char, c2: char)
    requires
        mac_keycode_spec(c1) is Some,
        mac_keycode_spec(c1) == mac_keycode_spec(c2),
    ensures
        c1 == c2,
{
    assert(mac_code_char(mac_keycode_spec(c1)->0) == c1);
    assert(mac_code_char(mac_keycode_spec(c2)->0) == c2);
}

/// Each letter's macOS key code is Apple's `kVK_ANSI_` code of that letter.
pub proof fn lemma_mac_letter_codes()
    ensures
        mac_keycode_spec('a') == Some(0u16),
        mac_keycode_spec('b') == Some(11u16),
        mac_keycode_spec('c') == Some(8u16),
        mac_keycode_spec('d') == Some(2u16),
        mac_keycode_spec('e') == Some(14u16),
        mac_keycode_spec('f') == Some(3u16),
        mac_keycode_spec('g') == Some(5u16),
        mac_keycode_spec('h') == Some(4u16),
        mac_keycode_spec('i') == Some(34u16),
        mac_keycode_spec('j') == Some(38u16),
        mac_keycode_spec('k') == Some(40u16),
        mac_keycode_spec('l') == Some(37u16),
        mac_keycode_spec('m') == Some(46u16),
        mac_keycode_spec('n') == Some(45u16),
        mac_keycode_spec('o') == Some(31u16),
        mac_keycode_spec('p') == Some(35u16),
        mac_keycode_spec('q') == Some(12u16),
        mac_keycode_spec('r') == Some(15u16),
        mac_keycode_spec('s') == Some(1u16),
        mac_keycode_spec('t') == Some(17u16),
        mac_keycode_spec('u') == Some(32u16),
        mac_keycode_spec('v') == Some(9u16),
        mac_keycode_spec('w') == Some(13u16),
        mac_keycode_spec('x') == Some(7u16),
        mac_keycode_spec('y') == Some(16u16),
        mac_keycode_spec('z') == Some(6u16),
{
}

/// A character has a key code on macOS exactly when it has one on Windows:
/// both tables cover the same keys of the US layout.
pub proof fn lemma_mac_and_windows_cover_the_same(c: char)
    ensures
        mac_keycode_spec(c) is Some <==> windows_keycode_spec(c) is Some,
{
}


/// The platform the keys are sent on.
#[derive(Clone, Copy, Debug, PartialEq, Eq, Structural)]
pub enum Platform {
    MacOs,
    Windows,
    /// Elsewhere no code table applies: characters go by their key symbol.
    Other,
}

/// The fixed key code of a character on a platform, if it has one.
pub open spec fn keycode_spec(platform: Platform, c: char) -> Option<u16> {
    match platform {
        Platform::MacOs => mac_keycode_spec(c),
        Platform::Windows => windows_keycode_spec(c),
        Platform::Other => None,
    }
}

/// The fixed key code of a character on `platform`; `None` when the
/// platform's table has no entry for it.
pub fn char_to_keycode(platform: Platform, c: char) -> (r: Option<u16>)
    ensures
        r == keycode_spec(platform, c),
{
    match platform {
        Platform::MacOs => mac_keycode(c),
        Platform::Windows => windows_keycode(c),
        Platform::Other => None,
    }
}

/// A key to send: Shift, a fixed key code, or a character by its symbol.
#[derive(Clone, Copy, Debug, PartialEq, Eq, Structural)]
pub enum SendKey {
    Shift,
    Code(u32),
    Unicode(char),
}

/// The key sent for an action: its code when the table has one, the
/// character itself otherwise.
pub open spec fn key_for_spec(platform: Platform, action: KeyAction) -> SendKey {
    match action {
        KeyAction::Shift => SendKey::Shift,
        KeyAction::Char(c) => match keycode_spec(platform, c) {
            Some(code) => SendKey::Code(code as u32),
            None => SendKey::Unicode(c),
        },
    }
}

/// The key sent for an action on `platform`.
pub fn key_for(platform: Platform, action: &KeyAction) -> (r: SendKey)
    ensures
        r == key_for_spec(platform, *action),
{
    match action {
        KeyAction::Shift => SendKey::Shift,
        KeyAction::Char(c) => match char_to_keycode(platform, *c) {
            Some(code) => SendKey::Code(code as u32),
            None => SendKey::Unicode(*c),
        },
    }
}

/// Which way a key goes.
#[derive(Clone, Copy, Debug, PartialEq, Eq, Structural)]
pub enum Direction {
    Press,
    Release,
    /// Press and release.
    Click,
}

/// One key stroke.
#[derive(Clone, Copy, Debug, PartialEq, Eq, Structural)]
pub struct Stroke {
    pub key: SendKey,
    pub direction: Direction,
}

/// The strokes of one group: a chord (more than one key) presses every
/// key in order and releases them in reverse order; a single key is one
/// click; an empty group sends nothing.
pub open spec fn strokes_spec(platform: Platform, group: Seq<KeyAction>) -> Seq<Stroke> {
    let n = group.len();
    if n > 1 {
        Seq::new(n, |i: int| Stroke { key: key_for_spec(platform, group[i]), direction: Direction::Press })
            + Seq::new(n, |i: int| Stroke { key: key_for_spec(platform, group[n - 1 - i]), direction: Direction::Release })
    } else if n == 1 {
        seq![Stroke { key: key_for_spec(platform, group[0]), direction: Direction::Click }]
    } else {
        Seq::empty()
    }
}

/// The key strokes that play one group of keys.
pub fn strokes_for(platform: Platform, group: &Vec<KeyAction>) -> (r: Vec<Stroke>)
    ensures
        r@ == strokes_spec(platform, group@),
{
    let n = group.len();
    let mut out: Vec<Stroke> = Vec::new();
    if n > 1 {
        let mut i: usize = 0;
        while i < n
            invariant
                n == group@.len(),
                i <= n,
                out@ =~= Seq::new(i as nat, |k: int| Stroke { key: key_for_spec(platform, group@[k]), direction: Direction::Press }),
            decreases n - i,
        {
            out.push(Stroke { key: key_for(platform, &group[i]), direction: Direction::Press });
            i = i + 1;
        }
        let mut j: usize = 0;
        while j < n
            invariant
                n == group@.len(),
                n > 1,
                j <= n,
                out@ =~= Seq::new(n as nat, |k: int| Stroke { key: key_for_spec(platform, group@[k]), direction: Direction::Press })
                    + Seq::new(j as nat, |k: int| Stroke { key: key_for_spec(platform, group@[n - 1 - k]), direction: Direction::Release }),
            decreases n - j,
        {
            out.push(Stroke { key: key_for(platform, &group[n - 1 - j]), direction: Direction::Release });
            j = j + 1;
        }
    } else if n == 1 {
        out.push(Stroke { key: key_for(platform, &group[0]), direction: Direction::Click });
    }
    out
}

/// Where a playback run stands.
#[derive(Clone, Copy, Debug, PartialEq, Eq, Structural)]
pub enum Phase {
    /// Counting down: seconds left.
    Countdown(u64),
    /// Playing: the next event's index.
    Playing(usize),
    /// Over (finished or stopped).
    Over,
}

/// What the key player does next.
#[derive(Clone, Copy, Debug, PartialEq, Eq, Structural)]
pub enum PlayStep {
    /// Report the countdown (seconds left), then wait a second.
    Countdown(u64),
    /// Press the keys of this event, report progress (index + 1 of the
    /// total), then wait the event's pause.
    Press(usize),
    /// Report a stop at this event; the run is over.
    Stop(usize),
    /// Report the end; the run is over.
    Finish,
}

/// A playback run of `total` events.
#[derive(Clone, Copy, Debug, PartialEq, Eq, Structural)]
pub struct PlayRun {
    pub phase: Phase,
    pub total: usize,
}

impl PlayRun {
    /// A run that counts down `countdown_secs` seconds, then plays `total` events.
    pub open spec fn fresh(countdown_secs: u64, total: usize) -> PlayRun {
        PlayRun { phase: Phase::Countdown(countdown_secs), total }
    }

    /// The first event from `i` on, once the countdown is over.
    pub open spec fn events_from(self, i: usize, stop: bool) -> (PlayRun, PlayStep) {
        if stop {
            (PlayRun { phase: Phase::Over, ..self }, PlayStep::Stop(i))
        } else if i < self.total {
            (PlayRun { phase: Phase::Playing((i + 1) as usize), ..self }, PlayStep::Press(i))
        } else {
            (PlayRun { phase: Phase::Over, ..self }, PlayStep::Finish)
        }
    }

    /// The next step, given whether the stop flag is raised: the countdown
    /// runs from its start down to 1; then each event in order; a raised
    /// flag ends the run with a stop at the current event (0 during the
    /// countdown); after the last event the run finishes.
    pub open spec fn step_spec(self, stop: bool) -> (PlayRun, PlayStep) {
        match self.phase {
            Phase::Countdown(k) => if stop {
                (PlayRun { phase: Phase::Over, ..self }, PlayStep::Stop(0))
            } else if k > 0 {
                (PlayRun { phase: Phase::Countdown((k - 1) as u64), ..self }, PlayStep::Countdown(k))
            } else {
                self.events_from(0, false)
            },
            Phase::Playing(i) => self.events_from(i, stop),
            Phase::Over => (self, PlayStep::Finish),
        }
    }

    /// A run that counts down `countdown_secs` seconds, then plays `total` events.
    pub fn new(countdown_secs: u64, total: usize) -> (r: PlayRun)
        ensures
            r == PlayRun::fresh(countdown_secs, total),
    {
        PlayRun { phase: Phase::Countdown(countdown_secs), total }
    }

    /// Whether the run is over.
    pub fn is_over(&self) -> (r: bool)
        ensures
            r == (self.phase == Phase::Over),
    {
        match self.phase {
            Phase::Over => true,
            _ => false,
        }
    }

    /// Takes the next step (`stop`: whether the stop flag is raised).
    pub fn step(&mut self, stop: bool) -> (r: PlayStep)
        ensures
            (*final(self), r) == old(self).step_spec(stop),
    {
        match self.phase {
            Phase::Countdown(k) => {
                if stop {
                    self.phase = Phase::Over;
                    PlayStep::Stop(0)
                } else if k > 0 {
                    self.phase = Phase::Countdown(k - 1);
                    PlayStep::Countdown(k)
                } else {
                    self.next_event(0, false)
                }
            },
            Phase::Playing(i) => self.next_event(i, stop),
            Phase::Over => PlayStep::Finish,
        }
    }

    fn next_event(&mut self, i: usize, stop: bool) -> (r: PlayStep)
        ensures
            (*final(self), r) == old(self).events_from(i, stop),
    {
        if stop {
            self.phase = Phase::Over;
            PlayStep::Stop(i)
        } else if i < self.total {
            self.phase = Phase::Playing(i + 1);
            PlayStep::Press(i)
        } else {
            self.phase = Phase::Over;
            PlayStep::Finish
        }
    }
}

/// The steps of `n` turns of a run whose stop flag stays down.
pub open spec fn uninterrupted(run: PlayRun, n: nat) -> Seq<PlayStep>
    decreases n,
{
    if n == 0 {
        Seq::empty()
    } else {
        let (next, s) = run.step_spec(false);
        seq![s] + uninterrupted(next, (n - 1) as nat)
    }
}

/// The run's state after `n` turns with the stop flag down.
pub open spec fn after_turns(run: PlayRun, n: nat) -> PlayRun
    decreases n,
{
    if n == 0 {
        run
    } else {
        after_turns(run.step_spec(false).0, (n - 1) as nat)
    }
}

/// The countdown reports `k`, `k - 1`, ..., 1.
pub open spec fn countdown_steps(k: nat) -> Seq<PlayStep> {
    Seq::new(k, |i: int| PlayStep::Countdown((k - i) as u64))
}

/// The presses of events `from`, ..., `total - 1`.
pub open spec fn press_steps(from: nat, total: nat) -> Seq<PlayStep> {
    Seq::new((total - from) as nat, |i: int| PlayStep::Press((from + i) as usize))
}

proof fn lemma_playing_turns(total: usize, i: usize)
    requires
        i <= total,
    ensures
        uninterrupted(PlayRun { phase: Phase::Playing(i), total }, (total - i + 1) as nat)
            == press_steps(i as nat, total as nat).push(PlayStep::Finish),
        after_turns(PlayRun { phase: Phase::Playing(i), total }, (total - i + 1) as nat).phase == Phase::Over,
    decreases total - i,
{
    let run = PlayRun { phase: Phase::Playing(i), total };
    if i == total {
        assert(uninterrupted(run.step_spec(false).0, 0) =~= Seq::<PlayStep>::empty());
        assert(press_steps(i as nat, total as nat) =~= Seq::<PlayStep>::empty());
        assert(uninterrupted(run, 1) =~= seq![PlayStep::Finish]);
        assert(after_turns(run, 1) == after_turns(run.step_spec(false).0, 0));
    } else {
        lemma_playing_turns(total, (i + 1) as usize);
        let next = PlayRun { phase: Phase::Playing((i + 1) as usize), total };
        assert(run.step_spec(false) == (next, PlayStep::Press(i)));
        assert(press_steps(i as nat, total as nat) =~= seq![PlayStep::Press(i)] + press_steps((i + 1) as nat, total as nat));
        assert(uninterrupted(run, (total - i + 1) as nat) =~= seq![PlayStep::Press(i)] + uninterrupted(next, (total - i) as nat));
        assert(after_turns(run, (total - i + 1) as nat) == after_turns(next, (total - i) as nat));
    }
}

proof fn lemma_countdown_turns(k: u64, total: usize)
    ensures
        uninterrupted(PlayRun::fresh(k, total), (k + total + 1) as nat)
            == countdown_steps(k as nat) + press_steps(0, total as nat).push(PlayStep::Finish),
        after_turns(PlayRun::fresh(k, total), (k + total + 1) as nat).phase == Phase::Over,
    decreases k,
{
    let run = PlayRun::fresh(k, total);
    if k == 0 {
        lemma_playing_turns(total, 0);
        let next = PlayRun { phase: Phase::Playing(0), total };
        if total > 0 {
            let after = PlayRun { phase: Phase::Playing(1), total };
            assert(run.step_spec(false) == (after, PlayStep::Press(0)));
            assert(next.step_spec(false) == (after, PlayStep::Press(0)));
        } else {
            assert(run.step_spec(false) == next.step_spec(false));
        }
        assert(countdown_steps(0) =~= Seq::<PlayStep>::empty());
        assert(uninterrupted(run, (total + 1) as nat) =~= uninterrupted(next, (total + 1) as nat));
        assert(after_turns(run, (total + 1) as nat) == after_turns(next, (total + 1) as nat));
    } else {
        lemma_countdown_turns((k - 1) as u64, total);
        let next = PlayRun::fresh((k - 1) as u64, total);
        assert(run.step_spec(false) == (next, PlayStep::Countdown(k)));
        assert(countdown_steps(k as nat) =~= seq![PlayStep::Countdown(k)] + countdown_steps((k - 1) as nat));
        assert(uninterrupted(run, (k + total + 1) as nat) =~= seq![PlayStep::Countdown(k)] + uninterrupted(next, (k - 1 + total + 1) as nat));
    }
}

/// A run whose stop flag stays down counts down from its start to 1,
/// presses every event in order, finishes, and is then over.
pub proof fn lemma_uninterrupted_run(countdown_secs: u64, total: usize)
    ensures
        uninterrupted(PlayRun::fresh(countdown_secs, total), (countdown_secs + total + 1) as nat)
            == countdown_steps(countdown_secs as nat) + press_steps(0, total as nat).push(PlayStep::Finish),
        after_turns(PlayRun::fresh(countdown_secs, total), (countdown_secs + total + 1) as nat).phase == Phase::Over,
{
    lemma_countdown_turns(countdown_secs, total);
}

/// A raised stop flag ends any run that is not over, with a stop at the
/// event it had reached (0 during the countdown).
pub proof fn lemma_stop_ends_run(run: PlayRun)
    requires
        run.phase != Phase::Over,
    ensures
        run.step_spec(true).0.phase == Phase::Over,
        run.step_spec(true).1 == PlayStep::Stop(match run.phase {
            Phase::Playing(i) => i,
            _ => 0usize,
        }),
{
}

} // verus!
