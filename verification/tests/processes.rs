use pianzo::processes::{process_list, search_processes, strip_exe, ProcessConfig, ProcessEntry, ProcessMode};

fn cfg(enabled: bool, entries: &[(&str, ProcessMode)]) -> ProcessConfig {
    ProcessConfig {
        enabled,
        entries: entries.iter().map(|(n, m)| ProcessEntry { name: n.to_string(), mode: *m }).collect(),
    }
}

#[test]
fn modes_cycle() {
    assert_eq!(ProcessMode::Neutral.next(), ProcessMode::Track);
    assert_eq!(ProcessMode::Track.next(), ProcessMode::Ignore);
    assert_eq!(ProcessMode::Ignore.next(), ProcessMode::Neutral);
    assert_eq!(ProcessMode::default(), ProcessMode::Neutral);
}

#[test]
fn window_mode_matches_either_way_ignoring_case() {
    let c = cfg(true, &[("Roblox", ProcessMode::Track), ("chrome", ProcessMode::Ignore)]);
    assert_eq!(c.window_mode("RobloxPlayerBeta"), Some(ProcessMode::Track));
    assert_eq!(c.window_mode("CHROME"), Some(ProcessMode::Ignore));
    assert_eq!(c.window_mode("rob"), Some(ProcessMode::Track));
    assert_eq!(c.window_mode("firefox"), None);
}

#[test]
fn should_allow_follows_rules() {
    let c = cfg(true, &[("game", ProcessMode::Track), ("mail", ProcessMode::Ignore), ("x", ProcessMode::Neutral)]);
    assert_eq!(c.should_allow(&Some("Game.exe".to_string())), Some(true));
    assert_eq!(c.should_allow(&Some("mail".to_string())), Some(false));
    assert_eq!(c.should_allow(&Some("x".to_string())), None);
    assert_eq!(c.should_allow(&Some("other".to_string())), None);
    let off = cfg(false, &[("game", ProcessMode::Track)]);
    assert_eq!(off.should_allow(&Some("game".to_string())), None);
}

#[test]
fn no_window_matches_every_entry() {
    // An empty name is contained in every entry name.
    let c = cfg(true, &[("game", ProcessMode::Ignore)]);
    assert_eq!(c.should_allow(&None), Some(false));
}

#[test]
fn search_is_case_insensitive_and_capped() {
    let names: Vec<String> = (0..12).map(|i| format!("App{i}")).chain(vec!["other".to_string()]).collect();
    let r = search_processes("app", &names);
    assert_eq!(r.len(), 8);
    assert_eq!(r[0], "App0");
    assert!(search_processes("", &names).is_empty());
    assert_eq!(search_processes("OTH", &names), vec!["other".to_string()]);
}

#[test]
fn exe_is_stripped_on_windows_only() {
    assert_eq!(strip_exe("game.EXE".to_string(), true), "game");
    assert_eq!(strip_exe("game.exe".to_string(), false), "game.exe");
    assert_eq!(strip_exe("exe".to_string(), true), "exe");
}

#[test]
fn process_list_is_distinct_and_sorted() {
    let raw = vec!["b.exe".to_string(), "A".to_string(), "b".to_string(), "c".to_string(), "A".to_string()];
    let r = process_list(raw, true);
    assert_eq!(r, vec!["A".to_string(), "b".to_string(), "c".to_string()]);
}
