use pianzo::notifications::{access_error, apple_script, finished, playing, stopped, NotificationConfig};

fn all(on: bool) -> NotificationConfig {
    NotificationConfig { enabled: on, on_playing: on, on_stopped: on, on_finished: on, on_error: on }
}

#[test]
fn master_switch_off_silences_everything() {
    let mut c = all(true);
    c.toggle_global();
    assert!(!c.enabled && !c.on_playing && !c.on_stopped && !c.on_finished && !c.on_error);
}

#[test]
fn master_switch_on_wakes_all_when_none_chosen() {
    let mut c = all(false);
    c.toggle_global();
    assert!(c.enabled && c.on_playing && c.on_stopped && c.on_finished && c.on_error);
}

#[test]
fn master_switch_on_keeps_a_choice() {
    let mut c = all(false);
    c.on_stopped = true;
    c.toggle_global();
    assert!(c.enabled && !c.on_playing && c.on_stopped && !c.on_finished && !c.on_error);
}

#[test]
fn switch_off_leaves_master_alone() {
    let mut c = all(false);
    c.enabled = true;
    c.on_error = true;
    c.toggle_error();
    assert!(c.enabled && !c.on_error);
}

#[test]
fn switch_on_turns_master_on() {
    let mut c = all(false);
    c.toggle_playing();
    assert!(c.enabled && c.on_playing);
    c.toggle_finished();
    c.toggle_stopped();
    assert!(c.on_finished && c.on_stopped);
}

#[test]
fn toggling_twice_restores() {
    let mut c = all(false);
    c.enabled = true;
    c.on_playing = true;
    c.on_stopped = true;
    let before = (c.enabled, c.on_playing, c.on_stopped, c.on_finished, c.on_error);
    c.toggle_stopped();
    c.toggle_stopped();
    assert_eq!(before, (c.enabled, c.on_playing, c.on_stopped, c.on_finished, c.on_error));
}

#[test]
fn notices_carry_title_and_name() {
    let n = playing("Song");
    assert_eq!((n.title.as_str(), n.body.as_str()), ("Сейчас играет", "Song"));
    let n = stopped("Song");
    assert_eq!(n.title, "Остановлено");
    let n = finished("Song");
    assert_eq!(n.title, "Воспроизведение завершено");
    let n = access_error();
    assert_eq!((n.title.as_str(), n.body.as_str()), ("Ошибка доступа", "Разрешите Accessibility в System Settings"));
}

#[test]
fn apple_script_escapes_quotes() {
    let n = playing("My \"Song\"");
    assert_eq!(
        apple_script(&n),
        "display notification \"My \\\"Song\\\"\" with title \"Сейчас играет\""
    );
}
