use pianzo::parser::KeyAction;
use pianzo::player::{char_to_keycode, key_for, strokes_for, Direction, PlayRun, PlayStep, Platform, SendKey, Stroke};
use pianzo::updater::{platform_target, Arch};

#[test]
fn mac_codes() {
    assert_eq!(char_to_keycode(Platform::MacOs, 'a'), Some(0));
    assert_eq!(char_to_keycode(Platform::MacOs, 'b'), Some(11));
    assert_eq!(char_to_keycode(Platform::MacOs, '5'), Some(23));
    assert_eq!(char_to_keycode(Platform::MacOs, ' '), Some(49));
    assert_eq!(char_to_keycode(Platform::MacOs, '!'), None);
}

#[test]
fn windows_codes() {
    assert_eq!(char_to_keycode(Platform::Windows, 'a'), Some(0x41));
    assert_eq!(char_to_keycode(Platform::Windows, 'z'), Some(0x5A));
    assert_eq!(char_to_keycode(Platform::Windows, '0'), Some(0x30));
    assert_eq!(char_to_keycode(Platform::Windows, '/'), Some(0xBF));
    assert_eq!(char_to_keycode(Platform::Windows, 'A'), None);
    assert_eq!(char_to_keycode(Platform::Other, 'a'), None);
}

#[test]
fn keys_fall_back_to_symbols() {
    assert_eq!(key_for(Platform::MacOs, &KeyAction::Char('a')), SendKey::Code(0));
    assert_eq!(key_for(Platform::MacOs, &KeyAction::Char('é')), SendKey::Unicode('é'));
    assert_eq!(key_for(Platform::Other, &KeyAction::Char('a')), SendKey::Unicode('a'));
    assert_eq!(key_for(Platform::Windows, &KeyAction::Shift), SendKey::Shift);
}

#[test]
fn chords_press_then_release_in_reverse() {
    let g = vec![KeyAction::Shift, KeyAction::Char('a'), KeyAction::Char('b')];
    let s = strokes_for(Platform::Windows, &g);
    let want = vec![
        Stroke { key: SendKey::Shift, direction: Direction::Press },
        Stroke { key: SendKey::Code(0x41), direction: Direction::Press },
        Stroke { key: SendKey::Code(0x42), direction: Direction::Press },
        Stroke { key: SendKey::Code(0x42), direction: Direction::Release },
        Stroke { key: SendKey::Code(0x41), direction: Direction::Release },
        Stroke { key: SendKey::Shift, direction: Direction::Release },
    ];
    assert_eq!(s, want);
}

#[test]
fn single_key_is_a_click() {
    let s = strokes_for(Platform::MacOs, &vec![KeyAction::Char('s')]);
    assert_eq!(s, vec![Stroke { key: SendKey::Code(1), direction: Direction::Click }]);
    assert!(strokes_for(Platform::MacOs, &vec![]).is_empty());
}

#[test]
fn uninterrupted_run_counts_down_plays_and_finishes() {
    let mut run = PlayRun::new(2, 3);
    let mut steps = Vec::new();
    while !run.is_over() {
        steps.push(run.step(false));
    }
    assert_eq!(
        steps,
        vec![
            PlayStep::Countdown(2),
            PlayStep::Countdown(1),
            PlayStep::Press(0),
            PlayStep::Press(1),
            PlayStep::Press(2),
            PlayStep::Finish,
        ]
    );
}

#[test]
fn stop_during_countdown_or_play() {
    let mut run = PlayRun::new(3, 2);
    assert_eq!(run.step(false), PlayStep::Countdown(3));
    assert_eq!(run.step(true), PlayStep::Stop(0));
    assert!(run.is_over());
    let mut run = PlayRun::new(0, 4);
    assert_eq!(run.step(false), PlayStep::Press(0));
    assert_eq!(run.step(false), PlayStep::Press(1));
    assert_eq!(run.step(true), PlayStep::Stop(2));
    assert!(run.is_over());
}

#[test]
fn empty_melody_finishes_after_countdown() {
    let mut run = PlayRun::new(1, 0);
    assert_eq!(run.step(false), PlayStep::Countdown(1));
    assert_eq!(run.step(false), PlayStep::Finish);
    assert!(run.is_over());
}

#[test]
fn update_targets() {
    assert_eq!(platform_target(Platform::MacOs, Arch::Aarch64), "silicon-apple");
    assert_eq!(platform_target(Platform::MacOs, Arch::X86_64), "intel-apple");
    assert_eq!(platform_target(Platform::Windows, Arch::Aarch64), "x86_64-windows");
    assert_eq!(platform_target(Platform::Other, Arch::X86_64), "unknown");
    assert_eq!(platform_target(Platform::MacOs, Arch::Other), "unknown");
}
