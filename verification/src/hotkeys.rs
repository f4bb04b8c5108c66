//! Global hotkeys: their bindings, labels, and the listener's decisions.
//!
//! Bindings are configurable (see [`HotkeyConfig`]); by default start is
//! `Ctrl+\\` and stop is `Esc`.  Listening to the keyboard is the
//! application's business; this module decides what each event means.
use vstd::prelude::*;
use crate::text::{append_chars, chars_of, decimal, decimal_of, join, matches_at, occurs_at, spec_ascii_lower, ascii_lower, string_of, sub_vec};

verus! {

broadcast use {vstd::seq::group_seq_axioms, vstd::seq_lib::group_seq_properties};

/// A key of the global keyboard listener (the keys the listener reports).
#[derive(Clone, Copy, Debug, PartialEq, Eq, Structural)]
pub enum Key {
    Alt,
    AltGr,
    Backspace,
    CapsLock,
    ControlLeft,
    ControlRight,
    Delete,
    DownArrow,
    End,
    Escape,
    F1,
    F10,
    F11,
    F12,
    F2,
    F3,
    F4,
    F5,
    F6,
    F7,
    F8,
    F9,
    Home,
    LeftArrow,
    MetaLeft,
    MetaRight,
    PageDown,
    PageUp,
    Return,
    RightArrow,
    ShiftLeft,
    ShiftRight,
    Space,
    Tab,
    UpArrow,
    PrintScreen,
    ScrollLock,
    Pause,
    NumLock,
    BackQuote,
    Num1,
    Num2,
    Num3,
    Num4,
    Num5,
    Num6,
    Num7,
    Num8,
    Num9,
    Num0,
    Minus,
    Equal,
    KeyQ,
    KeyW,
    KeyE,
    KeyR,
    KeyT,
    KeyY,
    KeyU,
    KeyI,
    KeyO,
    KeyP,
    LeftBracket,
    RightBracket,
    KeyA,
    KeyS,
    KeyD,
    KeyF,
    KeyG,
    KeyH,
    KeyJ,
    KeyK,
    KeyL,
    SemiColon,
    Quote,
    BackSlash,
    IntlBackslash,
    KeyZ,
    KeyX,
    KeyC,
    KeyV,
    KeyB,
    KeyN,
    KeyM,
    Comma,
    Dot,
    Slash,
    Insert,
    KpReturn,
    KpMinus,
    KpPlus,
    KpMultiply,
    KpDivide,
    Kp0,
    Kp1,
    Kp2,
    Kp3,
    Kp4,
    Kp5,
    Kp6,
    Kp7,
    Kp8,
    Kp9,
    KpDelete,
    Function,
    Unknown(u32),
}

/// Commands from the keyboard listener to the interface.
#[derive(Debug)]
pub enum HotkeyCmd {
    Start,
    Stop,
    /// The listener could not start (usually: no permission).
    ListenError(String),
}

/// One hotkey: modifiers and a key.
#[derive(Clone, Copy, Debug, PartialEq, Eq, Structural)]
pub struct HotkeySpec {
    pub ctrl: bool,
    pub shift: bool,
    pub alt: bool,
    pub key: Key,
}

/// The start and stop hotkeys.
#[derive(Clone, Copy, Debug)]
pub struct HotkeyConfig {
    pub start: HotkeySpec,
    pub stop: HotkeySpec,
}

/// The default bindings: start `Ctrl+\\`, stop `Esc`.
pub open spec fn default_hotkeys() -> HotkeyConfig {
    HotkeyConfig {
        start: HotkeySpec { ctrl: true, shift: false, alt: false, key: Key::BackSlash },
        stop: HotkeySpec { ctrl: false, shift: false, alt: false, key: Key::Escape },
    }
}

impl Default for HotkeyConfig {
    fn default() -> (r: HotkeyConfig)
        ensures
            r == default_hotkeys(),
    {
        HotkeyConfig {
            start: HotkeySpec { ctrl: true, shift: false, alt: false, key: Key::BackSlash },
            stop: HotkeySpec { ctrl: false, shift: false, alt: false, key: Key::Escape },
        }
    }
}

/// How the listener's key type prints itself (its derived `Debug`).
pub open spec fn debug_name(k: Key) -> Seq<char> {
    match k {
        Key::Alt => "Alt"@,
        Key::AltGr => "AltGr"@,
        Key::Backspace => "Backspace"@,
        Key::CapsLock => "CapsLock"@,
        Key::ControlLeft => "ControlLeft"@,
        Key::ControlRight => "ControlRight"@,
        Key::Delete => "Delete"@,
        Key::DownArrow => "DownArrow"@,
        Key::End => "End"@,
        Key::Escape => "Escape"@,
        Key::F1 => "F1"@,
        Key::F10 => "F10"@,
        Key::F11 => "F11"@,
        Key::F12 => "F12"@,
        Key::F2 => "F2"@,
        Key::F3 => "F3"@,
        Key::F4 => "F4"@,
        Key::F5 => "F5"@,
        Key::F6 => "F6"@,
        Key::F7 => "F7"@,
        Key::F8 => "F8"@,
        Key::F9 => "F9"@,
        Key::Home => "Home"@,
        Key::LeftArrow => "LeftArrow"@,
        Key::MetaLeft => "MetaLeft"@,
        Key::MetaRight => "MetaRight"@,
        Key::PageDown => "PageDown"@,
        Key::PageUp => "PageUp"@,
        Key::Return => "Return"@,
        Key::RightArrow => "RightArrow"@,
        Key::ShiftLeft => "ShiftLeft"@,
        Key::ShiftRight => "ShiftRight"@,
        Key::Space => "Space"@,
        Key::Tab => "Tab"@,
        Key::UpArrow => "UpArrow"@,
        Key::PrintScreen => "PrintScreen"@,
        Key::ScrollLock => "ScrollLock"@,
        Key::Pause => "Pause"@,
        Key::NumLock => "NumLock"@,
        Key::BackQuote => "BackQuote"@,
        Key::Num1 => "Num1"@,
        Key::Num2 => "Num2"@,
        Key::Num3 => "Num3"@,
        Key::Num4 => "Num4"@,
        Key::Num5 => "Num5"@,
        Key::Num6 => "Num6"@,
        Key::Num7 => "Num7"@,
        Key::Num8 => "Num8"@,
        Key::Num9 => "Num9"@,
        Key::Num0 => "Num0"@,
        Key::Minus => "Minus"@,
        Key::Equal => "Equal"@,
        Key::KeyQ => "KeyQ"@,
        Key::KeyW => "KeyW"@,
        Key::KeyE => "KeyE"@,
        Key::KeyR => "KeyR"@,
        Key::KeyT => "KeyT"@,
        Key::KeyY => "KeyY"@,
        Key::KeyU => "KeyU"@,
        Key::KeyI => "KeyI"@,
        Key::KeyO => "KeyO"@,
        Key::KeyP => "KeyP"@,
        Key::LeftBracket => "LeftBracket"@,
        Key::RightBracket => "RightBracket"@,
        Key::KeyA => "KeyA"@,
        Key::KeyS => "KeyS"@,
        Key::KeyD => "KeyD"@,
        Key::KeyF => "KeyF"@,
        Key::KeyG => "KeyG"@,
        Key::KeyH => "KeyH"@,
        Key::KeyJ => "KeyJ"@,
        Key::KeyK => "KeyK"@,
        Key::KeyL => "KeyL"@,
        Key::SemiColon => "SemiColon"@,
        Key::Quote => "Quote"@,
        Key::BackSlash => "BackSlash"@,
        Key::IntlBackslash => "IntlBackslash"@,
        Key::KeyZ => "KeyZ"@,
        Key::KeyX => "KeyX"@,
        Key::KeyC => "KeyC"@,
        Key::KeyV => "KeyV"@,
        Key::KeyB => "KeyB"@,
        Key::KeyN => "KeyN"@,
        Key::KeyM => "KeyM"@,
        Key::Comma => "Comma"@,
        Key::Dot => "Dot"@,
        Key::Slash => "Slash"@,
        Key::Insert => "Insert"@,
        Key::KpReturn => "KpReturn"@,
        Key::KpMinus => "KpMinus"@,
        Key::KpPlus => "KpPlus"@,
        Key::KpMultiply => "KpMultiply"@,
        Key::KpDivide => "KpDivide"@,
        Key::Kp0 => "Kp0"@,
        Key::Kp1 => "Kp1"@,
        Key::Kp2 => "Kp2"@,
        Key::Kp3 => "Kp3"@,
        Key::Kp4 => "Kp4"@,
        Key::Kp5 => "Kp5"@,
        Key::Kp6 => "Kp6"@,
        Key::Kp7 => "Kp7"@,
        Key::Kp8 => "Kp8"@,
        Key::Kp9 => "Kp9"@,
        Key::KpDelete => "KpDelete"@,
        Key::Function => "Function"@,
        Key::Unknown(n) => "Unknown("@ + decimal(n as nat) + ")"@,
    }
}

/// The printed name of a key other than `Unknown`.
fn fixed_name(k: Key) -> (r: &'static str)
    requires
        !(k is Unknown),
    ensures
        r@ == debug_name(k),
{
    match k {
        Key::Alt => "Alt",
        Key::AltGr => "AltGr",
        Key::Backspace => "Backspace",
        Key::CapsLock => "CapsLock",
        Key::ControlLeft => "ControlLeft",
        Key::ControlRight => "ControlRight",
        Key::Delete => "Delete",
        Key::DownArrow => "DownArrow",
        Key::End => "End",
        Key::Escape => "Escape",
        Key::F1 => "F1",
        Key::F10 => "F10",
        Key::F11 => "F11",
        Key::F12 => "F12",
        Key::F2 => "F2",
        Key::F3 => "F3",
        Key::F4 => "F4",
        Key::F5 => "F5",
        Key::F6 => "F6",
        Key::F7 => "F7",
        Key::F8 => "F8",
        Key::F9 => "F9",
        Key::Home => "Home",
        Key::LeftArrow => "LeftArrow",
        Key::MetaLeft => "MetaLeft",
        Key::MetaRight => "MetaRight",
        Key::PageDown => "PageDown",
        Key::PageUp => "PageUp",
        Key::Return => "Return",
        Key::RightArrow => "RightArrow",
        Key::ShiftLeft => "ShiftLeft",
        Key::ShiftRight => "ShiftRight",
        Key::Space => "Space",
        Key::Tab => "Tab",
        Key::UpArrow => "UpArrow",
        Key::PrintScreen => "PrintScreen",
        Key::ScrollLock => "ScrollLock",
        Key::Pause => "Pause",
        Key::NumLock => "NumLock",
        Key::BackQuote => "BackQuote",
        Key::Num1 => "Num1",
        Key::Num2 => "Num2",
        Key::Num3 => "Num3",
        Key::Num4 => "Num4",
        Key::Num5 => "Num5",
        Key::Num6 => "Num6",
        Key::Num7 => "Num7",
        Key::Num8 => "Num8",
        Key::Num9 => "Num9",
        Key::Num0 => "Num0",
        Key::Minus => "Minus",
        Key::Equal => "Equal",
        Key::KeyQ => "KeyQ",
        Key::KeyW => "KeyW",
        Key::KeyE => "KeyE",
        Key::KeyR => "KeyR",
        Key::KeyT => "KeyT",
        Key::KeyY => "KeyY",
        Key::KeyU => "KeyU",
        Key::KeyI => "KeyI",
        Key::KeyO => "KeyO",
        Key::KeyP => "KeyP",
        Key::LeftBracket => "LeftBracket",
        Key::RightBracket => "RightBracket",
        Key::KeyA => "KeyA",
        Key::KeyS => "KeyS",
        Key::KeyD => "KeyD",
        Key::KeyF => "KeyF",
        Key::KeyG => "KeyG",
        Key::KeyH => "KeyH",
        Key::KeyJ => "KeyJ",
        Key::KeyK => "KeyK",
        Key::KeyL => "KeyL",
        Key::SemiColon => "SemiColon",
        Key::Quote => "Quote",
        Key::BackSlash => "BackSlash",
        Key::IntlBackslash => "IntlBackslash",
        Key::KeyZ => "KeyZ",
        Key::KeyX => "KeyX",
        Key::KeyC => "KeyC",
        Key::KeyV => "KeyV",
        Key::KeyB => "KeyB",
        Key::KeyN => "KeyN",
        Key::KeyM => "KeyM",
        Key::Comma => "Comma",
        Key::Dot => "Dot",
        Key::Slash => "Slash",
        Key::Insert => "Insert",
        Key::KpReturn => "KpReturn",
        Key::KpMinus => "KpMinus",
        Key::KpPlus => "KpPlus",
        Key::KpMultiply => "KpMultiply",
        Key::KpDivide => "KpDivide",
        Key::Kp0 => "Kp0",
        Key::Kp1 => "Kp1",
        Key::Kp2 => "Kp2",
        Key::Kp3 => "Kp3",
        Key::Kp4 => "Kp4",
        Key::Kp5 => "Kp5",
        Key::Kp6 => "Kp6",
        Key::Kp7 => "Kp7",
        Key::Kp8 => "Kp8",
        Key::Kp9 => "Kp9",
        Key::KpDelete => "KpDelete",
        Key::Function => "Function",
        Key::Unknown(_) => "",
    }
}

/// How the listener's key type prints itself.
fn debug_name_of(k: Key) -> (r: Vec<char>)
    ensures
        r@ == debug_name(k),
{
    match k {
        Key::Unknown(n) => {
            let mut r = chars_of("Unknown(");
            append_chars(&mut r, &decimal_of(n as u64));
            append_chars(&mut r, &chars_of(")"));
            r
        },
        _ => chars_of(fixed_name(k)),
    }
}

/// A printed name without a leading `Key` or `Num`.
pub open spec fn strip_debug_prefix(s: Seq<char>) -> Seq<char> {
    if occurs_at(s, "Key"@, 0) {
        s.skip("Key"@.len() as int)
    } else if occurs_at(s, "Num"@, 0) {
        s.skip("Num"@.len() as int)
    } else {
        s
    }
}

/// The label of a key shown to the user.
pub open spec fn key_label_spec(k: Key) -> Seq<char> {
    match k {
        Key::BackSlash => "\\"@,
        Key::Slash => "/"@,
        Key::Space => "Space"@,
        Key::Escape => "Esc"@,
        Key::Return => "Enter"@,
        Key::Tab => "Tab"@,
        Key::Backspace => "Backspace"@,
        Key::Home => "Home"@,
        Key::End => "End"@,
        Key::Insert => "Insert"@,
        Key::Delete => "Delete"@,
        Key::PageUp => "PageUp"@,
        Key::PageDown => "PageDown"@,
        Key::UpArrow => "↑"@,
        Key::DownArrow => "↓"@,
        Key::LeftArrow => "←"@,
        Key::RightArrow => "→"@,
        Key::Minus => "-"@,
        Key::Equal => "="@,
        Key::LeftBracket => "["@,
        Key::RightBracket => "]"@,
        Key::SemiColon => ";"@,
        Key::Quote => "'"@,
        Key::Comma => ","@,
        Key::Dot => "."@,
        Key::BackQuote => "`"@,
        Key::F1 => "F1"@,
        Key::F2 => "F2"@,
        Key::F3 => "F3"@,
        Key::F4 => "F4"@,
        Key::F5 => "F5"@,
        Key::F6 => "F6"@,
        Key::F7 => "F7"@,
        Key::F8 => "F8"@,
        Key::F9 => "F9"@,
        Key::F10 => "F10"@,
        Key::F11 => "F11"@,
        Key::F12 => "F12"@,
        _ => strip_debug_prefix(debug_name(k)),
    }
}

/// The fixed label of a key, if it has one.
fn fixed_label(k: Key) -> (r: Option<&'static str>)
    ensures
        match r {
            Some(s) => s@ == key_label_spec(k),
            None => key_label_spec(k) == strip_debug_prefix(debug_name(k)),
        },
{
    match k {
        Key::BackSlash => Some("\\"),
        Key::Slash => Some("/"),
        Key::Space => Some("Space"),
        Key::Escape => Some("Esc"),
        Key::Return => Some("Enter"),
        Key::Tab => Some("Tab"),
        Key::Backspace => Some("Backspace"),
        Key::Home => Some("Home"),
        Key::End => Some("End"),
        Key::Insert => Some("Insert"),
        Key::Delete => Some("Delete"),
        Key::PageUp => Some("PageUp"),
        Key::PageDown => Some("PageDown"),
        Key::UpArrow => Some("↑"),
        Key::DownArrow => Some("↓"),
        Key::LeftArrow => Some("←"),
        Key::RightArrow => Some("→"),
        Key::Minus => Some("-"),
        Key::Equal => Some("="),
        Key::LeftBracket => Some("["),
        Key::RightBracket => Some("]"),
        Key::SemiColon => Some(";"),
        Key::Quote => Some("'"),
        Key::Comma => Some(","),
        Key::Dot => Some("."),
        Key::BackQuote => Some("`"),
        Key::F1 => Some("F1"),
        Key::F2 => Some("F2"),
        Key::F3 => Some("F3"),
        Key::F4 => Some("F4"),
        Key::F5 => Some("F5"),
        Key::F6 => Some("F6"),
        Key::F7 => Some("F7"),
        Key::F8 => Some("F8"),
        Key::F9 => Some("F9"),
        Key::F10 => Some("F10"),
        Key::F11 => Some("F11"),
        Key::F12 => Some("F12"),
        _ => None,
    }
}

/// The label of a key shown to the user, e.g. `\\`, `Esc`, `A`, `1`.
pub fn key_label(key: Key) -> (r: Vec<char>)
    ensures
        r@ == key_label_spec(key),
{
    if let Some(s) = fixed_label(key) {
        return chars_of(s);
    }
    let d = debug_name_of(key);
    let kp = chars_of("Key");
    let np = chars_of("Num");
    if matches_at(&d, &kp, 0) {
        let r = sub_vec(&d, kp.len(), d.len());
        assert(r@ =~= d@.skip(kp@.len() as int));
        r
    } else if matches_at(&d, &np, 0) {
        let r = sub_vec(&d, np.len(), d.len());
        assert(r@ =~= d@.skip(np@.len() as int));
        r
    } else {
        d
    }
}

/// The parts of a hotkey's label, in order.
pub open spec fn label_parts(s: HotkeySpec) -> Seq<Seq<char>> {
    (if s.ctrl {
        seq!["Ctrl"@]
    } else {
        seq![]
    }) + (if s.alt {
        seq!["Alt"@]
    } else {
        seq![]
    }) + (if s.shift {
        seq!["Shift"@]
    } else {
        seq![]
    }) + seq![key_label_spec(s.key)]
}

/// The label of a hotkey, e.g. `Ctrl+\\` or `Esc`.
pub open spec fn hotkey_label(s: HotkeySpec) -> Seq<char> {
    join(label_parts(s), "+"@)
}

/// Appends `part` to a `+`-joined label of `parts`.
proof fn lemma_join_push_plus(parts: Seq<Seq<char>>, part: Seq<char>)
    ensures
        join(parts.push(part), "+"@) == if parts.len() == 0 {
            part
        } else {
            join(parts, "+"@) + "+"@ + part
        },
{
    let p = parts.push(part);
    assert(p.drop_last() =~= parts);
    if parts.len() == 0 {
        assert(p[0] == part);
    }
}

impl HotkeySpec {
    /// The label shown to the user.
    pub fn label(&self) -> (r: String)
        ensures
            r@ == hotkey_label(*self),
    {
        let plus = chars_of("+");
        let mut out: Vec<char> = Vec::new();
        let ghost mut parts: Seq<Seq<char>> = seq![];
        if self.ctrl {
            out = chars_of("Ctrl");
            proof {
                lemma_join_push_plus(parts, "Ctrl"@);
                parts = parts.push("Ctrl"@);
            }
        }
        if self.alt {
            let p = chars_of("Alt");
            proof {
                lemma_join_push_plus(parts, "Alt"@);
            }
            if self.ctrl {
                append_chars(&mut out, &plus);
            }
            append_chars(&mut out, &p);
            proof {
                parts = parts.push("Alt"@);
            }
        }
        if self.shift {
            let p = chars_of("Shift");
            proof {
                lemma_join_push_plus(parts, "Shift"@);
            }
            if self.ctrl || self.alt {
                append_chars(&mut out, &plus);
            }
            append_chars(&mut out, &p);
            proof {
                parts = parts.push("Shift"@);
            }
        }
        let k = key_label(self.key);
        proof {
            lemma_join_push_plus(parts, k@);
        }
        if self.ctrl || self.alt || self.shift {
            append_chars(&mut out, &plus);
        }
        append_chars(&mut out, &k);
        proof {
            parts = parts.push(k@);
            assert(parts =~= label_parts(*self));
        }
        string_of(&out)
    }
}

/// A terminal character as a listener key (after ASCII lowercasing).
pub open spec fn char_key_spec(c: char) -> Option<Key> {
    match spec_ascii_lower(c) {
        'a' => Some(Key::KeyA),
        'b' => Some(Key::KeyB),
        'c' => Some(Key::KeyC),
        'd' => Some(Key::KeyD),
        'e' => Some(Key::KeyE),
        'f' => Some(Key::KeyF),
        'g' => Some(Key::KeyG),
        'h' => Some(Key::KeyH),
        'i' => Some(Key::KeyI),
        'j' => Some(Key::KeyJ),
        'k' => Some(Key::KeyK),
        'l' => Some(Key::KeyL),
        'm' => Some(Key::KeyM),
        'n' => Some(Key::KeyN),
        'o' => Some(Key::KeyO),
        'p' => Some(Key::KeyP),
        'q' => Some(Key::KeyQ),
        'r' => Some(Key::KeyR),
        's' => Some(Key::KeyS),
        't' => Some(Key::KeyT),
        'u' => Some(Key::KeyU),
        'v' => Some(Key::KeyV),
        'w' => Some(Key::KeyW),
        'x' => Some(Key::KeyX),
        'y' => Some(Key::KeyY),
        'z' => Some(Key::KeyZ),
        '0' => Some(Key::Num0),
        '1' => Some(Key::Num1),
        '2' => Some(Key::Num2),
        '3' => Some(Key::Num3),
        '4' => Some(Key::Num4),
        '5' => Some(Key::Num5),
        '6' => Some(Key::Num6),
        '7' => Some(Key::Num7),
        '8' => Some(Key::Num8),
        '9' => Some(Key::Num9),
        '-' => Some(Key::Minus),
        '=' => Some(Key::Equal),
        '[' => Some(Key::LeftBracket),
        ']' => Some(Key::RightBracket),
        ';' => Some(Key::SemiColon),
        '\'' => Some(Key::Quote),
        '\\' => Some(Key::BackSlash),
        ',' => Some(Key::Comma),
        '.' => Some(Key::Dot),
        '/' => Some(Key::Slash),
        '`' => Some(Key::BackQuote),
        ' ' => Some(Key::Space),
        _ => None,
    }
}

/// A terminal character as a listener key.
pub fn char_to_key(c: char) -> (r: Option<Key>)
    ensures
        r == char_key_spec(c),
{
    match ascii_lower(c) {
        'a' => Some(Key::KeyA),
        'b' => Some(Key::KeyB),
        'c' => Some(Key::KeyC),
        'd' => Some(Key::KeyD),
        'e' => Some(Key::KeyE),
        'f' => Some(Key::KeyF),
        'g' => Some(Key::KeyG),
        'h' => Some(Key::KeyH),
        'i' => Some(Key::KeyI),
        'j' => Some(Key::KeyJ),
        'k' => Some(Key::KeyK),
        'l' => Some(Key::KeyL),
        'm' => Some(Key::KeyM),
        'n' => Some(Key::KeyN),
        'o' => Some(Key::KeyO),
        'p' => Some(Key::KeyP),
        'q' => Some(Key::KeyQ),
        'r' => Some(Key::KeyR),
        's' => Some(Key::KeyS),
        't' => Some(Key::KeyT),
        'u' => Some(Key::KeyU),
        'v' => Some(Key::KeyV),
        'w' => Some(Key::KeyW),
        'x' => Some(Key::KeyX),
        'y' => Some(Key::KeyY),
        'z' => Some(Key::KeyZ),
        '0' => Some(Key::Num0),
        '1' => Some(Key::Num1),
        '2' => Some(Key::Num2),
        '3' => Some(Key::Num3),
        '4' => Some(Key::Num4),
        '5' => Some(Key::Num5),
        '6' => Some(Key::Num6),
        '7' => Some(Key::Num7),
        '8' => Some(Key::Num8),
        '9' => Some(Key::Num9),
        '-' => Some(Key::Minus),
        '=' => Some(Key::Equal),
        '[' => Some(Key::LeftBracket),
        ']' => Some(Key::RightBracket),
        ';' => Some(Key::SemiColon),
        '\'' => Some(Key::Quote),
        '\\' => Some(Key::BackSlash),
        ',' => Some(Key::Comma),
        '.' => Some(Key::Dot),
        '/' => Some(Key::Slash),
        '`' => Some(Key::BackQuote),
        ' ' => Some(Key::Space),
        _ => None,
    }
}

/// A function key number as a listener key.
pub open spec fn f_key_spec(n: u8) -> Option<Key> {
    match n {
        1 => Some(Key::F1),
        2 => Some(Key::F2),
        3 => Some(Key::F3),
        4 => Some(Key::F4),
        5 => Some(Key::F5),
        6 => Some(Key::F6),
        7 => Some(Key::F7),
        8 => Some(Key::F8),
        9 => Some(Key::F9),
        10 => Some(Key::F10),
        11 => Some(Key::F11),
        12 => Some(Key::F12),
        _ => None,
    }
}

/// A function key number as a listener key.
pub fn f_to_key(n: u8) -> (r: Option<Key>)
    ensures
        r == f_key_spec(n),
{
    match n {
        1 => Some(Key::F1),
        2 => Some(Key::F2),
        3 => Some(Key::F3),
        4 => Some(Key::F4),
        5 => Some(Key::F5),
        6 => Some(Key::F6),
        7 => Some(Key::F7),
        8 => Some(Key::F8),
        9 => Some(Key::F9),
        10 => Some(Key::F10),
        11 => Some(Key::F11),
        12 => Some(Key::F12),
        _ => None,
    }
}

} // verus!

verus! {

/// A key code reported by the terminal, as far as rebinding cares.
#[derive(Clone, Copy, Debug, PartialEq, Eq, Structural)]
pub enum TermKeyCode {
    Char(char),
    F(u8),
    Home,
    End,
    Insert,
    Delete,
    PageUp,
    PageDown,
    Up,
    Down,
    Left,
    Right,
    Backspace,
    Tab,
    Enter,
    Esc,
    /// Shift+Tab.
    BackTab,
    /// Any other key.
    Other,
}

/// A key press reported by the terminal: code and held modifiers.
#[derive(Clone, Copy, Debug, PartialEq, Eq, Structural)]
pub struct TermKey {
    pub code: TermKeyCode,
    pub ctrl: bool,
    pub shift: bool,
    pub alt: bool,
}

/// A control character (below 0x20) as the character typed with Ctrl.
pub open spec fn unctrl(c: char) -> char {
    ((c as u32) + 0x40) as char
}

/// The hotkey a terminal key press stands for, if the listener knows its key.
/// Ctrl+letter often arrives as a control character (below 0x20): it counts
/// as Ctrl plus the letter.
pub open spec fn spec_from_term(k: TermKey) -> Option<HotkeySpec> {
    let (ctrl, key) = match k.code {
        TermKeyCode::Char(c) => if (c as u32) < 0x20 {
            (true, char_key_spec(unctrl(c)))
        } else {
            (k.ctrl, char_key_spec(c))
        },
        TermKeyCode::F(n) => (k.ctrl, f_key_spec(n)),
        TermKeyCode::Home => (k.ctrl, Some(Key::Home)),
        TermKeyCode::End => (k.ctrl, Some(Key::End)),
        TermKeyCode::Insert => (k.ctrl, Some(Key::Insert)),
        TermKeyCode::Delete => (k.ctrl, Some(Key::Delete)),
        TermKeyCode::PageUp => (k.ctrl, Some(Key::PageUp)),
        TermKeyCode::PageDown => (k.ctrl, Some(Key::PageDown)),
        TermKeyCode::Up => (k.ctrl, Some(Key::UpArrow)),
        TermKeyCode::Down => (k.ctrl, Some(Key::DownArrow)),
        TermKeyCode::Left => (k.ctrl, Some(Key::LeftArrow)),
        TermKeyCode::Right => (k.ctrl, Some(Key::RightArrow)),
        TermKeyCode::Backspace => (k.ctrl, Some(Key::Backspace)),
        TermKeyCode::Tab => (k.ctrl, Some(Key::Tab)),
        TermKeyCode::Enter => (k.ctrl, Some(Key::Return)),
        TermKeyCode::Esc | TermKeyCode::BackTab | TermKeyCode::Other => (k.ctrl, None),
    };
    match key {
        Some(key) => Some(HotkeySpec { ctrl, shift: k.shift, alt: k.alt, key }),
        None => None,
    }
}

/// Turns a terminal key press into a hotkey for rebinding; `None` when the
/// key cannot be bound globally.
pub fn spec_from_crossterm(key: TermKey) -> (r: Option<HotkeySpec>)
    ensures
        r == spec_from_term(key),
{
    let mut ctrl = key.ctrl;
    let shift = key.shift;
    let alt = key.alt;
    let rkey = match key.code {
        TermKeyCode::Char(c) => {
            let c = if (c as u32) < 0x20 {
                ctrl = true;
                let b: u8 = ((c as u32) + 0x40) as u8;
                b as char
            } else {
                c
            };
            match char_to_key(c) {
                Some(k) => k,
                None => return None,
            }
        },
        TermKeyCode::F(n) => match f_to_key(n) {
            Some(k) => k,
            None => return None,
        },
        TermKeyCode::Home => Key::Home,
        TermKeyCode::End => Key::End,
        TermKeyCode::Insert => Key::Insert,
        TermKeyCode::Delete => Key::Delete,
        TermKeyCode::PageUp => Key::PageUp,
        TermKeyCode::PageDown => Key::PageDown,
        TermKeyCode::Up => Key::UpArrow,
        TermKeyCode::Down => Key::DownArrow,
        TermKeyCode::Left => Key::LeftArrow,
        TermKeyCode::Right => Key::RightArrow,
        TermKeyCode::Backspace => Key::Backspace,
        TermKeyCode::Tab => Key::Tab,
        TermKeyCode::Enter => Key::Return,
        TermKeyCode::Esc | TermKeyCode::BackTab | TermKeyCode::Other => return None,
    };
    Some(HotkeySpec { ctrl, shift, alt, key: rkey })
}

/// Left or right Control.
pub open spec fn spec_is_ctrl(k: Key) -> bool {
    k == Key::ControlLeft || k == Key::ControlRight
}

/// Left or right Shift.
pub open spec fn spec_is_shift(k: Key) -> bool {
    k == Key::ShiftLeft || k == Key::ShiftRight
}

/// Alt or AltGr.
pub open spec fn spec_is_alt(k: Key) -> bool {
    k == Key::Alt || k == Key::AltGr
}

fn is_ctrl(k: Key) -> (r: bool)
    ensures
        r == spec_is_ctrl(k),
{
    k == Key::ControlLeft || k == Key::ControlRight
}

fn is_shift(k: Key) -> (r: bool)
    ensures
        r == spec_is_shift(k),
{
    k == Key::ShiftLeft || k == Key::ShiftRight
}

fn is_alt(k: Key) -> (r: bool)
    ensures
        r == spec_is_alt(k),
{
    k == Key::Alt || k == Key::AltGr
}

/// A hotkey matches a key pressed with exactly these modifiers held.
pub open spec fn spec_matches(spec: HotkeySpec, ctrl: bool, shift: bool, alt: bool, key: Key) -> bool {
    spec.key == key && spec.ctrl == ctrl && spec.shift == shift && spec.alt == alt
}

/// Whether a hotkey matches a key pressed with these modifiers held.
pub fn matches(spec: &HotkeySpec, ctrl: bool, shift: bool, alt: bool, key: Key) -> (r: bool)
    ensures
        r == spec_matches(*spec, ctrl, shift, alt, key),
{
    spec.key == key && spec.ctrl == ctrl && spec.shift == shift && spec.alt == alt
}

/// A keyboard event seen by the global listener.
#[derive(Clone, Copy, Debug, PartialEq, Eq, Structural)]
pub enum ListenerEvent {
    Press(Key),
    Release(Key),
    /// Mouse and other events.
    Other,
}

/// The modifiers the listener believes are held.
#[derive(Clone, Copy, Debug, PartialEq, Eq, Structural)]
pub struct HeldModifiers {
    pub ctrl: bool,
    pub shift: bool,
    pub alt: bool,
}

/// A command the listener sends for an event, if any.
#[derive(Clone, Copy, Debug, PartialEq, Eq, Structural)]
pub enum HotkeyAction {
    Start,
    Stop,
}

/// The modifiers after an event.
pub open spec fn held_after(m: HeldModifiers, ev: ListenerEvent) -> HeldModifiers {
    match ev {
        ListenerEvent::Press(k) => if spec_is_ctrl(k) {
            HeldModifiers { ctrl: true, ..m }
        } else if spec_is_shift(k) {
            HeldModifiers { shift: true, ..m }
        } else if spec_is_alt(k) {
            HeldModifiers { alt: true, ..m }
        } else {
            m
        },
        ListenerEvent::Release(k) => if spec_is_ctrl(k) {
            HeldModifiers { ctrl: false, ..m }
        } else if spec_is_shift(k) {
            HeldModifiers { shift: false, ..m }
        } else if spec_is_alt(k) {
            HeldModifiers { alt: false, ..m }
        } else {
            m
        },
        ListenerEvent::Other => m,
    }
}

/// The command an event triggers: pressing a non-modifier key that, with the
/// held modifiers, matches the start binding starts; else, matching the stop
/// binding stops.
pub open spec fn action_for(m: HeldModifiers, ev: ListenerEvent, cfg: HotkeyConfig) -> Option<
    HotkeyAction,
> {
    match ev {
        ListenerEvent::Press(k) => if spec_is_ctrl(k) || spec_is_shift(k) || spec_is_alt(k) {
            None
        } else if spec_matches(cfg.start, m.ctrl, m.shift, m.alt, k) {
            Some(HotkeyAction::Start)
        } else if spec_matches(cfg.stop, m.ctrl, m.shift, m.alt, k) {
            Some(HotkeyAction::Stop)
        } else {
            None
        },
        _ => None,
    }
}

impl HeldModifiers {
    /// Nothing held.
    pub fn new() -> (r: HeldModifiers)
        ensures
            r == (HeldModifiers { ctrl: false, shift: false, alt: false }),
    {
        HeldModifiers { ctrl: false, shift: false, alt: false }
    }

    /// Updates the held modifiers for an event and returns the command it
    /// triggers under the current bindings.
    pub fn on_event(&mut self, ev: ListenerEvent, cfg: &HotkeyConfig) -> (r: Option<HotkeyAction>)
        ensures
            *final(self) == held_after(*old(self), ev),
            r == action_for(*old(self), ev, *cfg),
    {
        match ev {
            ListenerEvent::Press(k) => {
                if is_ctrl(k) {
                    self.ctrl = true;
                    None
                } else if is_shift(k) {
                    self.shift = true;
                    None
                } else if is_alt(k) {
                    self.alt = true;
                    None
                } else if matches(&cfg.start, self.ctrl, self.shift, self.alt, k) {
                    Some(HotkeyAction::Start)
                } else if matches(&cfg.stop, self.ctrl, self.shift, self.alt, k) {
                    Some(HotkeyAction::Stop)
                } else {
                    None
                }
            },
            ListenerEvent::Release(k) => {
                if is_ctrl(k) {
                    self.ctrl = false;
                } else if is_shift(k) {
                    self.shift = false;
                } else if is_alt(k) {
                    self.alt = false;
                }
                None
            },
            ListenerEvent::Other => None,
        }
    }
}

/// The terminal character of a listener key (the table read backwards).
spec fn key_char(k: Key) -> char {
    match k {
        Key::KeyA => 'a',
        Key::KeyB => 'b',
        Key::KeyC => 'c',
        Key::KeyD => 'd',
        Key::KeyE => 'e',
        Key::KeyF => 'f',
        Key::KeyG => 'g',
        Key::KeyH => 'h',
        Key::KeyI => 'i',
        Key::KeyJ => 'j',
        Key::KeyK => 'k',
        Key::KeyL => 'l',
        Key::KeyM => 'm',
        Key::KeyN => 'n',
        Key::KeyO => 'o',
        Key::KeyP => 'p',
        Key::KeyQ => 'q',
        Key::KeyR => 'r',
        Key::KeyS => 's',
        Key::KeyT => 't',
        Key::KeyU => 'u',
        Key::KeyV => 'v',
        Key::KeyW => 'w',
        Key::KeyX => 'x',
        Key::KeyY => 'y',
        Key::KeyZ => 'z',
        Key::Num0 => '0',
        Key::Num1 => '1',
        Key::Num2 => '2',
        Key::Num3 => '3',
        Key::Num4 => '4',
        Key::Num5 => '5',
        Key::Num6 => '6',
        Key::Num7 => '7',
        Key::Num8 => '8',
        Key::Num9 => '9',
        Key::Minus => '-',
        Key::Equal => '=',
        Key::LeftBracket => '[',
        Key::RightBracket => ']',
        Key::SemiColon => ';',
        Key::Quote => '\'',
        Key::BackSlash => '\\',
        Key::Comma => ',',
        Key::Dot => '.',
        Key::Slash => '/',
        Key::BackQuote => '`',
        Key::Space => ' ',
        _ => '\0',
    }
}

/// Two terminal characters give the same listener key only when they are
/// the same character up to ASCII case.
pub proof fn lemma_char_keys_distinct(c1: char, c2: char)
    requires
        char_key_spec(c1) is Some,
        char_key_spec(c1) == char_key_spec(c2),
    ensures
        spec_ascii_lower(c1) == spec_ascii_lower(c2),
{
    assert(key_char(char_key_spec(c1)->0) == spec_ascii_lower(c1));
    assert(key_char(char_key_spec(c2)->0) == spec_ascii_lower(c2));
}

/// `c` in ASCII upper case.
pub open spec fn ascii_upper(c: char) -> char {
    if 'a' <= c && c <= 'z' {
        ((c as u32) - 32) as char
    } else {
        c
    }
}

proof fn lemma_strip_key(x: char)
    ensures
        strip_debug_prefix(seq!['K', 'e', 'y', x]) == seq![x],
{
    reveal_strlit("Key");
    let s = seq!['K', 'e', 'y', x];
    assert(s.subrange(0, 3) =~= "Key"@);
    assert(s.skip(3) =~= seq![x]);
}

proof fn lemma_strip_num(x: char)
    ensures
        strip_debug_prefix(seq!['N', 'u', 'm', x]) == seq![x],
{
    reveal_strlit("Key");
    reveal_strlit("Num");
    let s = seq!['N', 'u', 'm', x];
    assert(s.subrange(0, 3)[0] != "Key"@[0]);
    assert(s.subrange(0, 3) =~= "Num"@);
    assert(s.skip(3) =~= seq![x]);
}

/// A terminal character is bound to the key labelled with that character:
/// a letter to the key of the same letter (shown in upper case), a digit or
/// punctuation mark to its own key, and the space bar to `Space`.
pub proof fn lemma_char_key_label(c: char)
    requires
        char_key_spec(c) is Some,
    ensures
        c != ' ' ==> key_label_spec(char_key_spec(c)->0) == seq![ascii_upper(spec_ascii_lower(c))],
        c == ' ' ==> key_label_spec(char_key_spec(c)->0) == "Space"@,
{
    let l = spec_ascii_lower(c);
    if l == 'a' {
        reveal_strlit("KeyA");
        assert("KeyA"@ =~= seq!['K', 'e', 'y', 'A']);
        lemma_strip_key('A');
    } else if l == 'b' {
        reveal_strlit("KeyB");
        assert("KeyB"@ =~= seq!['K', 'e', 'y', 'B']);
        lemma_strip_key('B');
    } else if l == 'c' {
        reveal_strlit("KeyC");
        assert("KeyC"@ =~= seq!['K', 'e', 'y', 'C']);
        lemma_strip_key('C');
    } else if l == 'd' {
        reveal_strlit("KeyD");
        assert("KeyD"@ =~= seq!['K', 'e', 'y', 'D']);
        lemma_strip_key('D');
    } else if l == 'e' {
        reveal_strlit("KeyE");
        assert("KeyE"@ =~= seq!['K', 'e', 'y', 'E']);
        lemma_strip_key('E');
    } else if l == 'f' {
        reveal_strlit("KeyF");
        assert("KeyF"@ =~= seq!['K', 'e', 'y', 'F']);
        lemma_strip_key('F');
    } else if l == 'g' {
        reveal_strlit("KeyG");
        assert("KeyG"@ =~= seq!['K', 'e', 'y', 'G']);
        lemma_strip_key('G');
    } else if l == 'h' {
        reveal_strlit("KeyH");
        assert("KeyH"@ =~= seq!['K', 'e', 'y', 'H']);
        lemma_strip_key('H');
    } else if l == 'i' {
        reveal_strlit("KeyI");
        assert("KeyI"@ =~= seq!['K', 'e', 'y', 'I']);
        lemma_strip_key('I');
    } else if l == 'j' {
        reveal_strlit("KeyJ");
        assert("KeyJ"@ =~= seq!['K', 'e', 'y', 'J']);
        lemma_strip_key('J');
    } else if l == 'k' {
        reveal_strlit("KeyK");
        assert("KeyK"@ =~= seq!['K', 'e', 'y', 'K']);
        lemma_strip_key('K');
    } else if l == 'l' {
        reveal_strlit("KeyL");
        assert("KeyL"@ =~= seq!['K', 'e', 'y', 'L']);
        lemma_strip_key('L');
    } else if l == 'm' {
        reveal_strlit("KeyM");
        assert("KeyM"@ =~= seq!['K', 'e', 'y', 'M']);
        lemma_strip_key('M');
    } else if l == 'n' {
        reveal_strlit("KeyN");
        assert("KeyN"@ =~= seq!['K', 'e', 'y', 'N']);
        lemma_strip_key('N');
    } else if l == 'o' {
        reveal_strlit("KeyO");
        assert("KeyO"@ =~= seq!['K', 'e', 'y', 'O']);
        lemma_strip_key('O');
    } else if l == 'p' {
        reveal_strlit("KeyP");
        assert("KeyP"@ =~= seq!['K', 'e', 'y', 'P']);
        lemma_strip_key('P');
    } else if l == 'q' {
        reveal_strlit("KeyQ");
        assert("KeyQ"@ =~= seq!['K', 'e', 'y', 'Q']);
        lemma_strip_key('Q');
    } else if l == 'r' {
        reveal_strlit("KeyR");
        assert("KeyR"@ =~= seq!['K', 'e', 'y', 'R']);
        lemma_strip_key('R');
    } else if l == 's' {
        reveal_strlit("KeyS");
        assert("KeyS"@ =~= seq!['K', 'e', 'y', 'S']);
        lemma_strip_key('S');
    } else if l == 't' {
        reveal_strlit("KeyT");
        assert("KeyT"@ =~= seq!['K', 'e', 'y', 'T']);
        lemma_strip_key('T');
    } else if l == 'u' {
        reveal_strlit("KeyU");
        assert("KeyU"@ =~= seq!['K', 'e', 'y', 'U']);
        lemma_strip_key('U');
    } else if l == 'v' {
        reveal_strlit("KeyV");
        assert("KeyV"@ =~= seq!['K', 'e', 'y', 'V']);
        lemma_strip_key('V');
    } else if l == 'w' {
        reveal_strlit("KeyW");
        assert("KeyW"@ =~= seq!['K', 'e', 'y', 'W']);
        lemma_strip_key('W');
    } else if l == 'x' {
        reveal_strlit("KeyX");
        assert("KeyX"@ =~= seq!['K', 'e', 'y', 'X']);
        lemma_strip_key('X');
    } else if l == 'y' {
        reveal_strlit("KeyY");
        assert("KeyY"@ =~= seq!['K', 'e', 'y', 'Y']);
        lemma_strip_key('Y');
    } else if l == 'z' {
        reveal_strlit("KeyZ");
        assert("KeyZ"@ =~= seq!['K', 'e', 'y', 'Z']);
        lemma_strip_key('Z');
    } else if l == '0' {
        reveal_strlit("Num0");
        assert("Num0"@ =~= seq!['N', 'u', 'm', '0']);
        lemma_strip_num('0');
    } else if l == '1' {
        reveal_strlit("Num1");
        assert("Num1"@ =~= seq!['N', 'u', 'm', '1']);
        lemma_strip_num('1');
    } else if l == '2' {
        reveal_strlit("Num2");
        assert("Num2"@ =~= seq!['N', 'u', 'm', '2']);
        lemma_strip_num('2');
    } else if l == '3' {
        reveal_strlit("Num3");
        assert("Num3"@ =~= seq!['N', 'u', 'm', '3']);
        lemma_strip_num('3');
    } else if l == '4' {
        reveal_strlit("Num4");
        assert("Num4"@ =~= seq!['N', 'u', 'm', '4']);
        lemma_strip_num('4');
    } else if l == '5' {
        reveal_strlit("Num5");
        assert("Num5"@ =~= seq!['N', 'u', 'm', '5']);
        lemma_strip_num('5');
    } else if l == '6' {
        reveal_strlit("Num6");
        assert("Num6"@ =~= seq!['N', 'u', 'm', '6']);
        lemma_strip_num('6');
    } else if l == '7' {
        reveal_strlit("Num7");
        assert("Num7"@ =~= seq!['N', 'u', 'm', '7']);
        lemma_strip_num('7');
    } else if l == '8' {
        reveal_strlit("Num8");
        assert("Num8"@ =~= seq!['N', 'u', 'm', '8']);
        lemma_strip_num('8');
    } else if l == '9' {
        reveal_strlit("Num9");
        assert("Num9"@ =~= seq!['N', 'u', 'm', '9']);
        lemma_strip_num('9');
    } else if l == '-' {
        reveal_strlit("-");
        assert("-"@ =~= seq!['-']);
    } else if l == '=' {
        reveal_strlit("=");
        assert("="@ =~= seq!['=']);
    } else if l == '[' {
        reveal_strlit("[");
        assert("["@ =~= seq!['[']);
    } else if l == ']' {
        reveal_strlit("]");
        assert("]"@ =~= seq![']']);
    } else if l == ';' {
        reveal_strlit(";");
        assert(";"@ =~= seq![';']);
    } else if l == '\'' {
        reveal_strlit("'");
        assert("'"@ =~= seq!['\'']);
    } else if l == '\\' {
        reveal_strlit("\\");
        assert("\\"@ =~= seq!['\\']);
    } else if l == ',' {
        reveal_strlit(",");
        assert(","@ =~= seq![',']);
    } else if l == '.' {
        reveal_strlit(".");
        assert("."@ =~= seq!['.']);
    } else if l == '/' {
        reveal_strlit("/");
        assert("/"@ =~= seq!['/']);
    } else if l == '`' {
        reveal_strlit("`");
        assert("`"@ =~= seq!['`']);
    }
}


/// Pressing exactly the start binding's modifiers and then its key starts
/// playback, whatever the stop binding is, provided the binding's key is not
/// itself a modifier.
pub proof fn lemma_start_binding_fires(cfg: HotkeyConfig)
    requires
        !spec_is_ctrl(cfg.start.key),
        !spec_is_shift(cfg.start.key),
        !spec_is_alt(cfg.start.key),
    ensures
        action_for(
            HeldModifiers { ctrl: cfg.start.ctrl, shift: cfg.start.shift, alt: cfg.start.alt },
            ListenerEvent::Press(cfg.start.key),
            cfg,
        ) == Some(HotkeyAction::Start),
{
}

/// Releasing a modifier after pressing it restores the held state.
pub proof fn lemma_press_release_restores(m: HeldModifiers, k: Key)
    requires
        spec_is_ctrl(k) ==> !m.ctrl,
        spec_is_shift(k) ==> !m.shift,
        spec_is_alt(k) ==> !m.alt,
    ensures
        held_after(held_after(m, ListenerEvent::Press(k)), ListenerEvent::Release(k)) == m,
{
}

} // verus!
