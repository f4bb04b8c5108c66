use pianzo::hotkeys::{
    char_to_key, f_to_key, key_label, spec_from_crossterm, HeldModifiers, HotkeyAction, HotkeyConfig, HotkeySpec, Key,
    ListenerEvent, TermKey, TermKeyCode,
};

fn tk(code: TermKeyCode, ctrl: bool, shift: bool, alt: bool) -> TermKey {
    TermKey { code, ctrl, shift, alt }
}

fn label(k: Key) -> String {
    key_label(k).into_iter().collect()
}

#[test]
fn default_bindings_and_labels() {
    let c = HotkeyConfig::default();
    assert_eq!(c.start.label(), "Ctrl+\\");
    assert_eq!(c.stop.label(), "Esc");
}

#[test]
fn labels_of_keys() {
    assert_eq!(label(Key::KeyA), "A");
    assert_eq!(label(Key::Num7), "7");
    assert_eq!(label(Key::F11), "F11");
    assert_eq!(label(Key::Return), "Enter");
    assert_eq!(label(Key::UpArrow), "↑");
    assert_eq!(label(Key::ShiftLeft), "ShiftLeft");
    assert_eq!(label(Key::Unknown(7)), "Unknown(7)");
    let s = HotkeySpec { ctrl: true, shift: true, alt: true, key: Key::KeyP };
    assert_eq!(s.label(), "Ctrl+Alt+Shift+P");
}

#[test]
fn chars_and_function_keys() {
    assert_eq!(char_to_key('Q'), Some(Key::KeyQ));
    assert_eq!(char_to_key('\\'), Some(Key::BackSlash));
    assert_eq!(char_to_key(' '), Some(Key::Space));
    assert_eq!(char_to_key('é'), None);
    assert_eq!(f_to_key(1), Some(Key::F1));
    assert_eq!(f_to_key(12), Some(Key::F12));
    assert_eq!(f_to_key(13), None);
}

#[test]
fn terminal_keys_become_bindings() {
    let s = spec_from_crossterm(tk(TermKeyCode::Char('p'), true, false, false)).unwrap();
    assert_eq!(s, HotkeySpec { ctrl: true, shift: false, alt: false, key: Key::KeyP });
    // Ctrl+\ often arrives as the control character 0x1C.
    let s = spec_from_crossterm(tk(TermKeyCode::Char('\u{1c}'), false, false, false)).unwrap();
    assert_eq!(s, HotkeySpec { ctrl: true, shift: false, alt: false, key: Key::BackSlash });
    let s = spec_from_crossterm(tk(TermKeyCode::F(5), false, true, false)).unwrap();
    assert_eq!(s, HotkeySpec { ctrl: false, shift: true, alt: false, key: Key::F5 });
    assert_eq!(spec_from_crossterm(tk(TermKeyCode::Esc, false, false, false)), None);
    assert_eq!(spec_from_crossterm(tk(TermKeyCode::F(20), false, false, false)), None);
    assert_eq!(spec_from_crossterm(tk(TermKeyCode::Char('é'), false, false, false)), None);
}

#[test]
fn binding_matches_exact_modifiers() {
    let s = HotkeySpec { ctrl: true, shift: false, alt: false, key: Key::BackSlash };
    assert!(pianzo::hotkeys::matches(&s, true, false, false, Key::BackSlash));
    assert!(!pianzo::hotkeys::matches(&s, true, true, false, Key::BackSlash));
    assert!(!pianzo::hotkeys::matches(&s, false, false, false, Key::BackSlash));
}

#[test]
fn listener_fires_start_and_stop() {
    let cfg = HotkeyConfig::default();
    let mut held = HeldModifiers::new();
    assert_eq!(held.on_event(ListenerEvent::Press(Key::BackSlash), &cfg), None);
    assert_eq!(held.on_event(ListenerEvent::Press(Key::ControlLeft), &cfg), None);
    assert_eq!(held.on_event(ListenerEvent::Press(Key::BackSlash), &cfg), Some(HotkeyAction::Start));
    assert_eq!(held.on_event(ListenerEvent::Release(Key::ControlLeft), &cfg), None);
    assert_eq!(held, HeldModifiers::new());
    assert_eq!(held.on_event(ListenerEvent::Press(Key::Escape), &cfg), Some(HotkeyAction::Stop));
    assert_eq!(held.on_event(ListenerEvent::Other, &cfg), None);
}

#[test]
fn modifiers_are_tracked() {
    let cfg = HotkeyConfig::default();
    let mut held = HeldModifiers::new();
    held.on_event(ListenerEvent::Press(Key::ShiftRight), &cfg);
    held.on_event(ListenerEvent::Press(Key::AltGr), &cfg);
    assert!(held.shift && held.alt && !held.ctrl);
    // With Shift held, Esc is not the stop binding.
    assert_eq!(held.on_event(ListenerEvent::Press(Key::Escape), &cfg), None);
    held.on_event(ListenerEvent::Release(Key::ShiftLeft), &cfg);
    held.on_event(ListenerEvent::Release(Key::Alt), &cfg);
    assert_eq!(held, HeldModifiers::new());
}
