use pianzo::storage::{file_name, sanitize, sort_by_name, Bookmark};

fn bm(name: &str) -> Bookmark<u32> {
    Bookmark { name: name.to_string(), notes: String::new(), between_keys: 1, between_lines: 2 }
}

#[test]
fn sanitize_keeps_safe_characters() {
    assert_eq!(sanitize("My song (v2)_x-y"), "My song (v2)_x-y");
    assert_eq!(sanitize("a/b:c*d"), "a_b_c_d");
    assert_eq!(sanitize("Песня 1"), "Песня 1");
}

#[test]
fn sanitize_trims_and_defaults() {
    assert_eq!(sanitize("  x  "), "x");
    assert_eq!(sanitize("   "), "melody");
    assert_eq!(sanitize(""), "melody");
}

#[test]
fn sanitize_of_a_safe_name_is_itself() {
    for n in ["", "  ", "?*", " a/b ", "Песня: 1", "melody"] {
        let s = sanitize(n);
        assert!(!s.is_empty());
        assert_eq!(s.trim(), s);
        assert_eq!(sanitize(&s), s);
    }
    assert_eq!(sanitize(&sanitize("///")), "___");
    assert_eq!(sanitize(&sanitize("")), "melody");
}

#[test]
fn file_name_adds_extension() {
    assert_eq!(file_name("a?b"), "a_b.json");
    assert_eq!(file_name(""), "melody.json");
}

#[test]
fn sort_is_case_insensitive_and_stable() {
    let v = vec![bm("b"), bm("A"), bm("a"), bm("C")];
    let s = sort_by_name(v);
    let names: Vec<&str> = s.iter().map(|b| b.name.as_str()).collect();
    assert_eq!(names, vec!["A", "a", "b", "C"]);
}

#[test]
fn duplicate_copies_everything() {
    let mut b = bm("x");
    b.notes = "a b".to_string();
    let c = b.duplicate();
    assert_eq!((c.name, c.notes, c.between_keys, c.between_lines), ("x".to_string(), "a b".to_string(), 1, 2));
}

#[test]
fn safe_names_are_stable() {
    for n in ["  a/b  ", "x:y", "Песня (1)", "***"] {
        let s = sanitize(n);
        assert!(!s.is_empty());
        assert_eq!(s.trim(), s);
        assert_eq!(sanitize(&s), s);
    }
    assert_eq!(file_name("a/b"), file_name("a:b"));
    assert_ne!(file_name("a"), file_name("b"));
}
