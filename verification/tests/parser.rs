use pianzo::parser::{parse, parse_pitches, pitch_of, replace_special_char, KeyAction};

#[test]
fn single_upper_becomes_shift() {
    let p = parse("E", 0.06, 0.1);
    assert_eq!(p.events.len(), 1);
    assert_eq!(p.events[0].0, vec![KeyAction::Shift, KeyAction::Char('e')]);
}

#[test]
fn special_char_mapped() {
    let p = parse("^", 0.06, 0.1);
    assert_eq!(p.events[0].0, vec![KeyAction::Char('6')]);
}

#[test]
fn chord_is_lowercased_without_shift() {
    let p = parse("[oP]", 0.06, 0.1);
    assert_eq!(p.events[0].0, vec![KeyAction::Char('o'), KeyAction::Char('p')]);
}

#[test]
fn chord_special_chars_mapped() {
    let p = parse("[!E]", 0.06, 0.1);
    assert_eq!(p.events[0].0, vec![KeyAction::Char('1'), KeyAction::Char('e')]);
}

#[test]
fn pauses_between_keys_and_lines() {
    let p = parse("a b\nc", 0.06, 0.1);
    assert_eq!(p.events.len(), 3);
    assert_eq!(p.events[0].1, 0.06);
    assert_eq!(p.events[1].1, 0.1);
    assert_eq!(p.events[2].1, 0.1);
}

#[test]
fn pitch_sharp_is_semitone_up() {
    let q = pitch_of('q').unwrap();
    let qs = pitch_of('Q').unwrap();
    assert_eq!(qs, q + 1);
    assert_eq!(pitch_of('!').unwrap(), pitch_of('1').unwrap() + 1);
}

#[test]
fn pitch_chord_parsed() {
    let ev = parse_pitches("[qe] r", 0.06, 0.1);
    assert_eq!(ev.len(), 2);
    assert_eq!(ev[0].0.len(), 2);
    assert_eq!(ev[1].0.len(), 1);
}

#[test]
fn spans_match_tokens() {
    let notes = "ab cd\nef";
    let p = parse(notes, 0.06, 0.1);
    assert_eq!(p.spans.len(), p.events.len());
    assert_eq!((p.spans[0].line, p.spans[0].start, p.spans[0].end), (0, 0, 2));
    assert_eq!((p.spans[1].line, p.spans[1].start, p.spans[1].end), (0, 3, 5));
    assert_eq!((p.spans[2].line, p.spans[2].start, p.spans[2].end), (1, 6, 8));
    assert_eq!(&notes[p.spans[2].start..p.spans[2].end], "ef");
}

#[test]
fn pitch_values_follow_the_white_keys() {
    assert_eq!(pitch_of('1'), Some(48));
    assert_eq!(pitch_of('2'), Some(50));
    assert_eq!(pitch_of('q'), Some(65));
    assert_eq!(pitch_of('Q'), Some(66));
    assert_eq!(pitch_of('m'), Some(108));
    assert_eq!(pitch_of('?'), None);
    assert_eq!(pitch_of(' '), None);
}

#[test]
fn pitch_groups_have_their_notes_and_pauses() {
    let ev = parse_pitches("[qe] r\n?? t", 1u32, 2u32);
    assert_eq!(ev.len(), 3);
    assert_eq!(ev[0].0, vec![65, 69]);
    assert_eq!(ev[0].1, 1);
    assert_eq!(ev[1].0, vec![71]);
    assert_eq!(ev[1].1, 2);
    assert_eq!(ev[2].1, 2);
}

#[test]
fn special_chars_unshift_to_digits() {
    assert_eq!(replace_special_char('!'), '1');
    assert_eq!(replace_special_char(')'), '0');
    assert_eq!(replace_special_char('*'), '8');
    assert_eq!(replace_special_char('a'), 'a');
}

#[test]
fn multi_char_token_keeps_special_chars() {
    // Only a token that is a single special character is unshifted.
    let p = parse("!a", 0u8, 1u8);
    assert_eq!(p.events[0].0, vec![KeyAction::Char('!'), KeyAction::Char('a')]);
}

#[test]
fn upper_word_is_shifted_and_lowered() {
    let p = parse("AB", 0u8, 1u8);
    assert_eq!(p.events[0].0, vec![KeyAction::Shift, KeyAction::Char('a'), KeyAction::Char('b')]);
    let p = parse("Ab", 0u8, 1u8);
    assert_eq!(p.events[0].0, vec![KeyAction::Char('a'), KeyAction::Char('b')]);
}

#[test]
fn empty_brackets_are_two_keys() {
    let p = parse("[] a", 0u8, 1u8);
    assert_eq!(p.events.len(), 2);
    assert_eq!(p.events[0].0, vec![KeyAction::Char('['), KeyAction::Char(']')]);
    assert_eq!((p.spans[0].start, p.spans[0].end), (0, 2));
    assert_eq!(p.events[1].0, vec![KeyAction::Char('a')]);
    assert_eq!(p.spans[1].start, 3);
}

#[test]
fn every_token_gives_keys() {
    let notes = "[] [ ] ! [x] ?";
    let p = parse(notes, 0u8, 1u8);
    assert_eq!(p.events.len(), 6);
    assert!(p.events.iter().all(|e| !e.0.is_empty()));
    assert_eq!(p.events[1].0, vec![KeyAction::Char('[')]);
    assert_eq!(p.events[3].0, vec![KeyAction::Char('1')]);
    assert_eq!(p.events[4].0, vec![KeyAction::Char('x')]);
}

#[test]
fn blank_text_has_no_events() {
    let p = parse("  \n\t\n", 0u8, 1u8);
    assert!(p.events.is_empty());
    assert!(p.spans.is_empty());
    assert!(parse_pitches("   ", 0u8, 1u8).is_empty());
}

#[test]
fn spans_count_bytes_of_wide_characters() {
    let notes = "é a\nb";
    let p = parse(notes, 0u8, 1u8);
    assert_eq!(p.events.len(), 3);
    assert_eq!((p.spans[1].start, p.spans[1].end), (3, 4));
    assert_eq!(&notes[p.spans[2].start..p.spans[2].end], "b");
}

#[test]
fn every_span_cuts_out_its_token() {
    let notes = "[qe] R  t\n\n ^ Yy";
    let p = parse(notes, 0u8, 1u8);
    let texts: Vec<&str> = p.spans.iter().map(|s| &notes[s.start..s.end]).collect();
    assert_eq!(texts, vec!["[qe]", "R", "t", "^", "Yy"]);
    let lines: Vec<usize> = p.spans.iter().map(|s| s.line).collect();
    assert_eq!(lines, vec![0, 0, 0, 2, 2]);
}

#[test]
fn white_keys_rise_in_order() {
    let w = "1234567890qwertyuiopasdfghjklzxcvbnm";
    let p: Vec<u8> = w.chars().map(|c| pitch_of(c).unwrap()).collect();
    for i in 1..p.len() {
        assert!(p[i - 1] < p[i]);
    }
    for c in 'a'..='z' {
        assert_eq!(pitch_of(c.to_ascii_uppercase()), Some(pitch_of(c).unwrap() + 1));
    }
}
