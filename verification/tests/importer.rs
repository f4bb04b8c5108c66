use pianzo::importer::{html_decode, import, strip_tags, ImportError};

const PAGE: &str = "<html><head><title>Play Gravity Falls Music Sheet | Virtual Piano</title></head>\
<body><div id=\"sheet-content\" class=\"x\"><span>w</span><p class=\"n\">[6e] t || y <b>u</b>&amp;||||  o &#39;p||</p></div></body></html>";

#[test]
fn imports_title_and_notes() {
    let r = import("https://virtualpiano.net/music-sheet/gravity", Ok(PAGE.to_string())).unwrap();
    assert_eq!(r.name, "Gravity Falls");
    assert_eq!(r.notes, "[6e] t\ny u&\no 'p");
}

#[test]
fn fetch_error_is_reported() {
    let r = import("https://virtualpiano.net/x", Err("timeout".to_string()));
    match r {
        Err(e) => {
            assert!(matches!(e, ImportError::Fetch(ref m) if m == "timeout"));
            assert_eq!(e.message(), "Ошибка загрузки: timeout");
        }
        Ok(_) => panic!("expected an error"),
    }
}

#[test]
fn other_sites_are_refused() {
    let r = import("https://example.com/sheet", Ok(PAGE.to_string()));
    match r {
        Err(e) => {
            assert!(matches!(e, ImportError::Parse(ref m) if m == "Сайт не поддерживается"));
            assert_eq!(e.message(), "Ошибка парсинга: Сайт не поддерживается");
        }
        Ok(_) => panic!("expected an error"),
    }
}

#[test]
fn page_without_notes_is_a_parse_error() {
    let page = "<title>Play X Music Sheet</title><div id=\"sheet-content\"><p>|| ||</p></div>";
    let r = import("virtualpiano.net/x", Ok(page.to_string()));
    assert!(matches!(r, Err(ImportError::Parse(ref m)) if m == "Ноты не найдены на странице"));
    let r = import("virtualpiano.net/x", Ok("<p>a</p>".to_string()));
    assert!(matches!(r, Err(ImportError::Parse(_))));
}

#[test]
fn title_falls_back() {
    let page = "<title>Song | Site</title><div id=\"sheet-content\"><p>a</p></div>";
    let r = import("virtualpiano.net", Ok(page.to_string())).unwrap();
    assert_eq!(r.name, "Song");
    let page = "<div id=\"sheet-content\"><p>a</p></div>";
    let r = import("virtualpiano.net", Ok(page.to_string())).unwrap();
    assert_eq!(r.name, "Imported");
    assert_eq!(r.notes, "a");
}

#[test]
fn entities_are_decoded() {
    let page = "<div id=\"sheet-content\"><p>&lt;a&gt; &quot;b&quot; c&nbsp;d</p></div>";
    let r = import("virtualpiano.net", Ok(page.to_string())).unwrap();
    assert_eq!(r.notes, "<a> \"b\" c d");
}

#[test]
fn html_decode_gives_each_entity_its_character() {
    assert_eq!(
        html_decode(r#"&lt;b&gt; &quot;x&quot; &#39;y&#39; a&amp;b"#),
        r#"<b> "x" 'y' a&b"#
    );
    assert_eq!(html_decode("a&nbsp;b&#13;&#10;c"), "a b\r\nc");
}

#[test]
fn html_decode_does_not_decode_twice() {
    assert_eq!(html_decode("&amp;lt;"), "&lt;");
    assert_eq!(html_decode("&amp;amp;"), "&amp;");
    assert_eq!(html_decode("&&lt;;"), "&<;");
    assert_eq!(html_decode("& amp; &unknown;"), "& amp; &unknown;");
}

#[test]
fn strip_tags_keeps_text_outside_tags() {
    assert_eq!(strip_tags("<b>bold</b> and <i>it</i>"), "bold and it");
    assert_eq!(strip_tags("a > b"), "a  b");
    assert_eq!(strip_tags("x <unclosed"), "x ");
    let once = strip_tags("<p>1 < 2 > 0</p>");
    assert_eq!(strip_tags(&once), once);
    assert!(!once.contains('<') && !once.contains('>'));
}
