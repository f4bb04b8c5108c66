use pianzo::karaoke::{build_karaoke, Piece, PieceStyle};
use pianzo::parser::parse;
use pianzo::view::notes_scroll;

fn render(notes: &str, play_event: usize) -> Vec<(bool, Vec<(String, PieceStyle)>)> {
    let p = parse(notes, 0u8, 1u8);
    let lines: Vec<&str> = notes.split('\n').collect();
    build_karaoke(notes, &p.spans, play_event)
        .into_iter()
        .enumerate()
        .map(|(i, l)| {
            (l.marked, l.pieces.iter().map(|pc: &Piece| (lines[i][pc.start..pc.end].to_string(), pc.style)).collect())
        })
        .collect()
}

#[test]
fn tokens_are_styled_by_progress() {
    let v = render("ab cd\nef", 1);
    assert_eq!(v.len(), 2);
    assert!(v[0].0);
    assert!(!v[1].0);
    assert_eq!(
        v[0].1,
        vec![
            ("ab".to_string(), PieceStyle::Played),
            (" ".to_string(), PieceStyle::Plain),
            ("cd".to_string(), PieceStyle::Current),
        ]
    );
    assert_eq!(v[1].1, vec![("ef".to_string(), PieceStyle::Future)]);
}

#[test]
fn pieces_cover_each_line() {
    let notes = "  [qe] r \n\nT y";
    let v = render(notes, 2);
    for (i, line) in notes.split('\n').enumerate() {
        let joined: String = v[i].1.iter().map(|(t, _)| t.as_str()).collect();
        assert_eq!(joined, line);
    }
    assert!(v[2].0);
    assert_eq!(v[1].1.len(), 0);
}

#[test]
fn past_the_end_highlights_the_last_token() {
    let v = render("a b", 10);
    assert_eq!(v[0].1.last().unwrap().1, PieceStyle::Current);
}

#[test]
fn scroll_centres_the_current_line() {
    let notes = "a\nb\nc\nd\ne\nf\ng\nh";
    let p = parse(notes, 0u8, 1u8);
    assert_eq!(notes_scroll(&p.spans, 0, 8, 4), 0);
    assert_eq!(notes_scroll(&p.spans, 5, 8, 4), 3);
    assert_eq!(notes_scroll(&p.spans, 7, 8, 4), 4);
    assert_eq!(notes_scroll(&p.spans, 7, 8, 20), 0);
}

#[test]
fn wide_characters_keep_whole_lines() {
    let notes = "é Ж\t[qe]\nŒ  r";
    let v = render(notes, 4);
    for (i, line) in notes.split('\n').enumerate() {
        let joined: String = v[i].1.iter().map(|(t, _)| t.as_str()).collect();
        assert_eq!(joined, line);
    }
    assert_eq!(v[1].1.last().unwrap(), &("r".to_string(), PieceStyle::Current));
}
