use pianzo::app::{App, EditFocus, Mode, SettingsSection};
use pianzo::audio::AudioMsg;
use pianzo::control::Effect;
use pianzo::general::{default_countdown, GeneralConfig};
use pianzo::hotkeys::{HotkeyCmd, HotkeyConfig, TermKey, TermKeyCode};
use pianzo::notifications::NotificationConfig;
use pianzo::player::PlayerMsg;
use pianzo::processes::{ProcessConfig, ProcessEntry, ProcessMode};
use pianzo::storage::Bookmark;
use pianzo::view::{status_text, window_indicator, Tone};

fn bm(name: &str, notes: &str) -> Bookmark<f64> {
    Bookmark { name: name.to_string(), notes: notes.to_string(), between_keys: 0.1, between_lines: 0.2 }
}

fn notif(on: bool) -> NotificationConfig {
    NotificationConfig { enabled: on, on_playing: on, on_stopped: on, on_finished: on, on_error: on }
}

fn app_with(list: Vec<Bookmark<f64>>) -> App<f64> {
    App::new(list, HotkeyConfig::default(), notif(true), ProcessConfig { enabled: false, entries: vec![] }, 0.11)
}

fn key(code: TermKeyCode) -> TermKey {
    TermKey { code, ctrl: false, shift: false, alt: false }
}

fn ch(c: char) -> TermKey {
    key(TermKeyCode::Char(c))
}

fn ctrl(code: TermKeyCode) -> TermKey {
    TermKey { code, ctrl: true, shift: false, alt: false }
}

fn names(app: &App<f64>) -> Vec<&str> {
    app.bookmarks.iter().map(|b| b.name.as_str()).collect()
}

#[test]
fn sections_and_focus_order() {
    assert_eq!(SettingsSection::all(), &[SettingsSection::Hotkeys, SettingsSection::Notifications]);
    assert_eq!(SettingsSection::Hotkeys.label(), "Хоткеи");
    assert_eq!(SettingsSection::Notifications.label(), "Уведомления");
    assert_eq!(EditFocus::Name.next(), EditFocus::Notes);
    assert_eq!(EditFocus::Delays.next(), EditFocus::Name);
    assert_eq!(EditFocus::Name.prev(), EditFocus::Delays);
    for f in [EditFocus::Name, EditFocus::Notes, EditFocus::Delays] {
        assert_eq!(f.next().prev(), f);
    }
}

#[test]
fn new_loads_the_first_melody() {
    let app = app_with(vec![bm("a", "q w"), bm("b", "e")]);
    assert_eq!(app.selected(), Some(0));
    assert_eq!(app.current_name.as_deref(), Some("a"));
    assert_eq!(app.notes, "q w");
    assert_eq!(app.status, "Готово. Ctrl+\\ — старт, Esc — стоп.");
    let empty = app_with(vec![]);
    assert_eq!(empty.selected(), None);
    assert_eq!(empty.current_name, None);
    assert_eq!(empty.between_keys, 0.11);
}

#[test]
fn list_navigation_wraps() {
    let mut app = app_with(vec![bm("a", ""), bm("b", ""), bm("c", "")]);
    app.on_key(ch('k'));
    assert_eq!(app.selected(), Some(2));
    app.on_key(key(TermKeyCode::Down));
    assert_eq!(app.selected(), Some(0));
    app.on_key(ch('j'));
    app.on_key(key(TermKeyCode::Enter));
    assert_eq!(app.current_name.as_deref(), Some("b"));
    assert_eq!(app.status, "Заряжено (играет старт): b");
    assert_eq!(app.selected_bookmark().unwrap().name, "b");
}

#[test]
fn down_then_up_returns() {
    let mut app = app_with(vec![bm("a", ""), bm("b", ""), bm("c", "")]);
    for start in 0..3 {
        app.selected = Some(start);
        app.select_next();
        app.select_prev();
        assert_eq!(app.selected(), Some(start));
        app.select_prev();
        app.select_next();
        assert_eq!(app.selected(), Some(start));
    }
}

#[test]
fn quit_and_focus_keys() {
    let mut app = app_with(vec![]);
    app.on_key(ch('u'));
    assert!(!app.focused);
    assert_eq!(app.status, "UNFOCUSED — старт-хоткей отключён (стоп работает).");
    app.on_key(ch('U'));
    assert!(app.focused);
    assert_eq!(app.status, "FOCUSED — старт-хоткей активен.");
    assert!(matches!(app.on_key(ch('+')), Effect::Volume(true)));
    assert!(matches!(app.on_key(ch('_')), Effect::Volume(false)));
    assert!(matches!(app.on_key(ch('p')), Effect::StartPlayback));
    assert!(matches!(app.on_key(ch('T')), Effect::StartAudio));
    app.on_key(ch('q'));
    assert!(app.should_quit);
}

#[test]
fn adding_a_melody_opens_the_editor() {
    let mut app = app_with(vec![]);
    app.on_key(ch('a'));
    assert_eq!(app.mode, Mode::AddName);
    for c in "  Newx".chars() {
        app.on_key(ch(c));
    }
    app.on_key(key(TermKeyCode::Backspace));
    app.on_key(ch(' '));
    let e = app.on_key(key(TermKeyCode::Enter));
    assert!(matches!(e, Effect::ClearEditor));
    assert_eq!(app.mode, Mode::Edit);
    assert_eq!(app.input, "New");
    assert_eq!(app.creating.as_deref(), Some("New"));
    assert_eq!((app.input_keys.as_str(), app.input_lines.as_str()), ("0.110", "0.110"));
    assert_eq!(app.edit_focus, EditFocus::Notes);
}

#[test]
fn empty_name_is_refused() {
    let mut app = app_with(vec![]);
    app.on_key(ch('a'));
    app.on_key(ch(' '));
    let e = app.on_key(key(TermKeyCode::Enter));
    assert!(matches!(e, Effect::Nothing));
    assert_eq!(app.mode, Mode::Normal);
    assert_eq!(app.status, "Имя не может быть пустым");
}

#[test]
fn edit_window_keys() {
    let mut app = app_with(vec![bm("song", "q")]);
    assert!(matches!(app.on_key(ch('e')), Effect::FillEditor));
    assert_eq!(app.mode, Mode::Edit);
    assert_eq!(app.edit_focus, EditFocus::Delays);
    assert_eq!(app.editing.as_deref(), Some("song"));
    app.input_keys = "0.1".to_string();
    app.on_key(ch('5'));
    app.on_key(ch('x'));
    assert_eq!(app.input_keys, "0.15");
    app.on_key(key(TermKeyCode::Down));
    assert_eq!(app.delay_field, 1);
    app.on_key(ch(','));
    assert_eq!(app.input_lines, ",");
    app.on_key(key(TermKeyCode::Backspace));
    assert_eq!(app.input_lines, "");
    assert!(matches!(app.on_key(key(TermKeyCode::Right)), Effect::NudgeDelay(true)));
    assert!(matches!(app.on_key(key(TermKeyCode::Left)), Effect::NudgeDelay(false)));
    app.on_key(key(TermKeyCode::Tab));
    assert_eq!(app.edit_focus, EditFocus::Name);
    app.on_key(ch('2'));
    assert_eq!(app.input, "song2");
    app.on_key(key(TermKeyCode::BackTab));
    assert_eq!(app.edit_focus, EditFocus::Delays);
    app.on_key(key(TermKeyCode::BackTab));
    assert!(matches!(app.on_key(ch('z')), Effect::EditNotes));
    assert!(matches!(app.on_key(key(TermKeyCode::Esc)), Effect::CommitEdit));
    app.on_key(ctrl(TermKeyCode::Char('q')));
    assert_eq!(app.mode, Mode::Normal);
    assert_eq!(app.status, "Правка отменена.");
    assert_eq!(app.editing, None);
}

#[test]
fn editing_without_a_hovered_melody() {
    let mut app = app_with(vec![]);
    assert!(matches!(app.on_key(ch('e')), Effect::Nothing));
    assert_eq!(app.status, "Нет закладки для правки.");
    assert_eq!(app.mode, Mode::Normal);
}

#[test]
fn renaming_a_loaded_melody() {
    let mut app = app_with(vec![bm("b", "q"), bm("c", "w")]);
    app.begin_edit();
    app.input = " a ".to_string();
    let plan = app.commit_edit("t y".to_string(), 0.3, 0.4).unwrap();
    assert_eq!(plan.delete.as_deref(), Some("b"));
    assert_eq!(plan.save.name, "a");
    assert_eq!(plan.save.notes, "t y");
    assert_eq!(app.mode, Mode::Normal);
    assert_eq!(names(&app), vec!["c"]);
    assert_eq!(app.current_name.as_deref(), Some("a"));
    let b = plan.save.duplicate();
    app.store_saved(b, Ok(()));
    assert_eq!(names(&app), vec!["a", "c"]);
    assert_eq!(app.selected(), Some(0));
    assert_eq!(app.notes, "t y");
    assert_eq!((app.between_keys, app.between_lines), (0.3, 0.4));
    assert_eq!(app.status, "Сохранено в Documents/Pianzo/tracks: a");
}

#[test]
fn empty_edit_name_keeps_the_window() {
    let mut app = app_with(vec![bm("b", "q")]);
    app.begin_edit();
    app.input = "   ".to_string();
    assert!(app.commit_edit(String::new(), 0.1, 0.1).is_none());
    assert_eq!(app.mode, Mode::Edit);
    assert_eq!(app.status, "Имя не может быть пустым — исправь и сохрани.");
}

#[test]
fn failed_save_only_reports() {
    let mut app = app_with(vec![bm("b", "q")]);
    app.store_saved(bm("x", ""), Err("disk full".to_string()));
    assert_eq!(names(&app), vec!["b"]);
    assert_eq!(app.status, "Ошибка сохранения: disk full");
}

#[test]
fn saving_under_an_existing_name_replaces_it() {
    let mut app = app_with(vec![bm("A", "1"), bm("b", "2")]);
    app.store_saved(bm("b", "new"), Ok(()));
    assert_eq!(names(&app), vec!["A", "b"]);
    assert_eq!(app.bookmarks[1].notes, "new");
    assert_eq!(app.selected(), Some(1));
}

#[test]
fn save_hovered_under_a_new_name() {
    let mut app = app_with(vec![bm("a", "q w")]);
    app.on_key(ch('S'));
    assert_eq!(app.mode, Mode::SaveBookmark);
    assert_eq!(app.input, "a");
    app.on_key(ch('2'));
    match app.on_key(key(TermKeyCode::Enter)) {
        Effect::Save(b) => {
            assert_eq!(b.name, "a2");
            assert_eq!(b.notes, "q w");
        }
        _ => panic!("expected a save"),
    }
    assert_eq!(app.mode, Mode::Normal);
}

#[test]
fn save_as_needs_a_name_and_a_melody() {
    let mut app = app_with(vec![bm("a", "")]);
    assert!(app.save_hovered_as("  ".to_string()).is_none());
    assert_eq!(app.status, "Имя закладки не может быть пустым");
    let mut empty = app_with(vec![]);
    assert!(empty.save_hovered_as("x".to_string()).is_none());
    assert_eq!(empty.status, "Нет закладки для сохранения.");
}

#[test]
fn deleting_the_hovered_melody() {
    let mut app = app_with(vec![bm("a", "q"), bm("b", "w")]);
    app.on_key(ch('j'));
    app.on_key(ch('d'));
    assert_eq!(app.mode, Mode::ConfirmDelete);
    match app.on_key(ch('Y')) {
        Effect::DeleteFile(n) => assert_eq!(n, "b"),
        _ => panic!("expected a deletion"),
    }
    assert_eq!(names(&app), vec!["a"]);
    assert_eq!(app.selected(), Some(0));
    assert_eq!(app.status, "Удалено: b");
    assert_eq!(app.current_name.as_deref(), Some("a"));
    app.on_key(ch('d'));
    app.on_key(ch('y'));
    assert!(app.bookmarks.is_empty());
    assert_eq!(app.selected(), None);
    assert_eq!(app.current_name, None);
    assert_eq!(app.notes, "");
}

#[test]
fn delete_can_be_declined() {
    let mut app = app_with(vec![bm("a", "q")]);
    app.on_key(ch('d'));
    app.on_key(ch('n'));
    assert_eq!(app.mode, Mode::Normal);
    assert_eq!(names(&app), vec!["a"]);
}

#[test]
fn rebinding_start_from_settings() {
    let mut app = app_with(vec![]);
    app.on_key(ch('s'));
    assert_eq!(app.mode, Mode::Settings);
    app.on_key(key(TermKeyCode::Enter));
    assert!(app.settings_inside);
    app.on_key(key(TermKeyCode::Enter));
    assert_eq!(app.mode, Mode::CaptureStart);
    assert_eq!(app.status, "Нажмите новую комбинацию для СТАРТА (Esc — отмена).");
    let e = app.on_key(ctrl(TermKeyCode::Char('p')));
    assert!(matches!(e, Effect::SaveHotkeys(false)));
    assert_eq!(app.mode, Mode::Settings);
    app.report_hotkeys(false, Ok(()));
    assert_eq!(app.status, "Хоткей обновлён: старт Ctrl+P, стоп Esc");
    assert_eq!(app.ready_hint(), "Готово. Ctrl+P — старт, Esc — стоп.");
}

#[test]
fn capture_refuses_unknown_keys_and_cancels() {
    let mut app = app_with(vec![]);
    app.on_key(ch('s'));
    app.on_key(key(TermKeyCode::Right));
    app.on_key(key(TermKeyCode::Down));
    app.on_key(key(TermKeyCode::Enter));
    assert_eq!(app.mode, Mode::CaptureStop);
    app.on_key(key(TermKeyCode::Other));
    assert_eq!(app.status, "Эту клавишу нельзя назначить.");
    app.on_key(key(TermKeyCode::Esc));
    assert_eq!(app.mode, Mode::Settings);
    assert_eq!(app.status, "Перепривязка отменена.");
}

#[test]
fn resetting_bindings() {
    let mut app = app_with(vec![]);
    app.hotkeys.stop.ctrl = true;
    app.on_key(ch('s'));
    app.on_key(key(TermKeyCode::Enter));
    let e = app.on_key(ctrl(TermKeyCode::Backspace));
    assert!(matches!(e, Effect::SaveHotkeys(true)));
    assert!(!app.hotkeys.stop.ctrl);
    app.report_hotkeys(true, Ok(()));
    assert_eq!(app.status, "Хоткеи сброшены: старт Ctrl+\\, стоп Esc");
    app.report_hotkeys(true, Err("denied".to_string()));
    assert_eq!(app.status, "Ошибка сохранения конфига: denied");
}

#[test]
fn notification_switches_from_settings() {
    let mut app = app_with(vec![]);
    app.on_key(ch('s'));
    app.on_key(ch('j'));
    assert_eq!(app.settings_selected, 1);
    app.on_key(ch('j'));
    assert_eq!(app.settings_selected, 1);
    app.on_key(key(TermKeyCode::Enter));
    assert!(matches!(app.on_key(ch(' ')), Effect::SaveConfig));
    assert!(!app.notif_config.enabled && !app.notif_config.on_playing);
    app.on_key(key(TermKeyCode::Down));
    // Individual switches do nothing while notifications are off.
    assert!(matches!(app.on_key(key(TermKeyCode::Enter)), Effect::SaveConfig));
    assert!(!app.notif_config.on_playing);
    for _ in 0..10 {
        app.on_key(key(TermKeyCode::Down));
    }
    assert_eq!(app.settings_item, 4);
    app.on_key(key(TermKeyCode::Esc));
    assert!(!app.settings_inside);
    assert_eq!(app.settings_item, 0);
    app.on_key(key(TermKeyCode::Esc));
    assert_eq!(app.mode, Mode::Normal);
}

#[test]
fn playing_a_melody() {
    let mut app = app_with(vec![bm("song", "a b\nc")]);
    let req = app.start_playback(3).unwrap();
    assert_eq!(req.events.len(), 3);
    assert_eq!(req.countdown_secs, 3);
    let n = req.notice.unwrap();
    assert_eq!((n.title.as_str(), n.body.as_str()), ("Сейчас играет", "song"));
    assert!(app.playing);
    assert_eq!(app.progress, (0, 3));
    assert_eq!(app.countdown, Some(3));
    assert_eq!(app.status, "Старт через 3…");
    assert_eq!(app.spans.len(), 3);
    // Keys are ignored while playing; a second start does nothing.
    assert!(matches!(app.on_key(ch('q')), Effect::Nothing));
    assert!(!app.should_quit);
    assert!(app.start_playback(3).is_none());
    assert!(app.on_player_msg(PlayerMsg::Countdown(2)).is_none());
    assert_eq!(app.status, "Старт через 2… (переключитесь в нужное окно)");
    app.on_player_msg(PlayerMsg::Progress(2, 3));
    assert_eq!((app.countdown, app.progress, app.play_event), (None, (2, 3), 1));
    let n = app.on_player_msg(PlayerMsg::Finished).unwrap();
    assert_eq!(n.title, "Воспроизведение завершено");
    assert!(!app.playing);
    assert_eq!(app.status, "Готово.");
}

#[test]
fn playing_needs_a_loaded_melody_with_notes() {
    let mut app = app_with(vec![]);
    assert!(app.start_playback(3).is_none());
    assert_eq!(app.status, "Ничего не заряжено — нажми Enter на нужной мелодии.");
    let mut app = app_with(vec![bm("x", "  \n ")]);
    assert!(app.start_playback(3).is_none());
    assert_eq!(app.status, "Нет нот для воспроизведения.");
    assert!(!app.playing);
}

#[test]
fn stop_and_failure_messages() {
    let mut app = app_with(vec![bm("song", "a")]);
    app.start_playback(1);
    assert!(matches!(app.on_hotkey_cmd(HotkeyCmd::Stop), Effect::RaiseStop));
    assert_eq!(app.status, "Остановка...");
    let n = app.on_player_msg(PlayerMsg::Stopped(4)).unwrap();
    assert_eq!(n.title, "Остановлено");
    assert_eq!(app.status, "Остановлено на позиции 4.");
    assert!(matches!(app.on_hotkey_cmd(HotkeyCmd::Stop), Effect::Nothing));
    app.notif_config = notif(false);
    assert!(app.on_player_msg(PlayerMsg::Error("Нет доступа".to_string())).is_none());
    assert_eq!(app.status, "Нет доступа. Разрешите Accessibility в System Settings.");
    app.start_playback(1);
    app.playback_unavailable();
    assert!(!app.playing);
    assert_eq!(app.status, "Поток воспроизведения недоступен.");
    app.on_hotkey_cmd(HotkeyCmd::ListenError("NoPermission".to_string()));
    assert_eq!(app.status, "Глобальные хоткеи недоступны (NoPermission). Разрешите Input Monitoring.");
}

#[test]
fn global_start_obeys_focus_and_window_rules() {
    let mut app = app_with(vec![bm("song", "a")]);
    assert!(matches!(app.on_hotkey_cmd(HotkeyCmd::Start), Effect::StartPlayback));
    app.focused = false;
    assert!(matches!(app.on_hotkey_cmd(HotkeyCmd::Start), Effect::Nothing));
    app.process_config = ProcessConfig {
        enabled: true,
        entries: vec![
            ProcessEntry { name: "game".to_string(), mode: ProcessMode::Track },
            ProcessEntry { name: "mail".to_string(), mode: ProcessMode::Ignore },
        ],
    };
    app.active_window = Some("Game".to_string());
    assert!(app.can_start_play());
    assert!(matches!(app.on_hotkey_cmd(HotkeyCmd::Start), Effect::StartPlayback));
    app.focused = true;
    app.active_window = Some("Mail".to_string());
    assert!(!app.can_start_play());
    app.active_window = Some("editor".to_string());
    assert!(app.can_start_play());
    app.mode = Mode::Settings;
    assert!(matches!(app.on_hotkey_cmd(HotkeyCmd::Start), Effect::Nothing));
}

#[test]
fn sound_test_of_the_hovered_melody() {
    let mut app = app_with(vec![bm("a", "q"), bm("b", "[qe] r")]);
    app.on_key(ch('j'));
    let groups = app.start_audio(40).unwrap();
    // The loaded melody stays the first one.
    assert_eq!(app.current_name.as_deref(), Some("a"));
    assert_eq!(app.notes, "q");
    assert_eq!(groups.len(), 2);
    assert_eq!(groups[0].0, vec![65, 69]);
    assert!(app.audio_playing);
    assert_eq!(app.play_notes, "[qe] r");
    assert_eq!(app.status, "♪ Тест «b» (громкость 40%)");
    assert!(app.start_audio(40).is_none());
    app.on_audio_msg(AudioMsg::Finished);
    assert!(!app.audio_playing);
    assert_eq!(app.status, "Тест: готово.");
    app.start_audio(40);
    app.audio_unavailable();
    assert_eq!(app.status, "Аудио-поток недоступен.");
    app.start_audio(40);
    app.on_audio_msg(AudioMsg::Stopped);
    assert_eq!(app.status, "Тест остановлен.");
    app.on_audio_msg(AudioMsg::Error("Нет аудио-выхода".to_string()));
    assert_eq!(app.status, "Нет аудио-выхода");
}

#[test]
fn sound_test_needs_pitches() {
    let mut app = app_with(vec![bm("a", "?? ..")]);
    assert!(app.start_audio(50).is_none());
    assert_eq!(app.status, "Нет нот для теста.");
    let mut empty = app_with(vec![]);
    assert!(empty.start_audio(50).is_none());
    assert_eq!(empty.status, "Нет закладки для теста.");
}

#[test]
fn status_bar_texts() {
    let mut app = app_with(vec![bm("song", "a b")]);
    assert_eq!(status_text(&app, 50), ("● Готово. Ctrl+\\ — старт, Esc — стоп.".to_string(), Tone::Cyan));
    app.start_playback(2);
    assert_eq!(status_text(&app, 50).0, "⏳ Старт через 2…  (переключитесь в нужное окно)");
    app.on_player_msg(PlayerMsg::Progress(1, 2));
    assert_eq!(status_text(&app, 50), ("▶ ВОСПРОИЗВЕДЕНИЕ  1/2".to_string(), Tone::Green));
    app.on_player_msg(PlayerMsg::Finished);
    app.start_audio(70);
    assert_eq!(status_text(&app, 70), ("♪ ТЕСТ  (70%)".to_string(), Tone::Magenta));
}

#[test]
fn window_indicator_texts() {
    let off = ProcessConfig { enabled: false, entries: vec![] };
    assert_eq!(window_indicator(None, &off, &Some("x".to_string())), None);
    assert_eq!(window_indicator(Some("1.2.0"), &off, &None), Some(("↑ v1.2.0".to_string(), Tone::Green)));
    let on = ProcessConfig { enabled: true, entries: vec![ProcessEntry { name: "game".to_string(), mode: ProcessMode::Ignore }] };
    assert_eq!(window_indicator(None, &on, &Some("Game".to_string())), Some(("Game".to_string(), Tone::Red)));
    assert_eq!(window_indicator(None, &on, &Some("term".to_string())), Some(("term".to_string(), Tone::Gray)));
}

#[test]
fn countdown_setting() {
    assert_eq!(default_countdown(), 3);
    let mut g = GeneralConfig::with_delays(0.11, 0.11);
    assert_eq!(g.countdown_secs, 3);
    g.nudge_countdown(-1);
    g.nudge_countdown(-5);
    assert_eq!(g.countdown_secs, 1);
    g.nudge_countdown(4);
    assert_eq!(g.countdown_secs, 5);
}

#[test]
fn keys_while_playing_are_dropped_whatever_the_state() {
    let mut app = app_with(vec![bm("song", "a b")]);
    app.start_playback(1).unwrap();
    app.selected = Some(usize::MAX);
    app.settings_selected = 9;
    app.settings_inside = true;
    app.mode = Mode::Settings;
    assert!(matches!(app.on_key(key(TermKeyCode::Down)), Effect::Nothing));
    assert_eq!(app.selected, Some(usize::MAX));
    assert_eq!(app.settings_selected, 9);
    assert_eq!(app.mode, Mode::Settings);
}

#[test]
fn countdown_reads_as_signed() {
    let mut g = GeneralConfig::with_delays(0.11, 0.11);
    g.countdown_secs = u64::MAX;
    g.nudge_countdown(5);
    assert_eq!(g.countdown_secs, 4);
    g.countdown_secs = u64::MAX;
    g.nudge_countdown(1);
    assert_eq!(g.countdown_secs, 1);
}

#[test]
fn saving_keeps_names_unique() {
    let mut app = app_with(vec![bm("b", "1"), bm("a", "2")]);
    app.store_saved(bm("B", "3"), Ok(()));
    app.store_saved(bm("a", "4"), Ok(()));
    assert_eq!(names(&app), vec!["a", "b", "B"]);
    assert_eq!(app.bookmarks[0].notes, "4");
    assert_eq!(app.selected_bookmark().unwrap().name, "a");
}

#[test]
fn key_releases_are_dropped() {
    let mut app = app_with(vec![]);
    assert!(matches!(app.on_key_event(true, ch('q')), Effect::Nothing));
    assert!(!app.should_quit);
    app.on_key_event(false, ch('q'));
    assert!(app.should_quit);
}
