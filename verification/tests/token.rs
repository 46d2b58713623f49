use rust_wasm_dodrio_templating::token::{is_readable, open_reader};

#[test]
fn text_that_can_be_read_to_its_end() {
    assert!(is_readable("<div>é</div>"));
    assert!(is_readable("<div/>\n"));
    assert!(is_readable("é "));
    assert!(is_readable("\u{7f}"));
}

#[test]
fn text_that_cannot_be_read_to_its_end() {
    assert!(!is_readable(""));
    assert!(!is_readable("<div/>é"));
    assert!(!is_readable("\u{80}"));
    assert!(!is_readable("abc\u{a0}"));
    assert!(!is_readable("日"));
}

#[test]
fn reader_is_opened_over_a_text_that_can_be_read() {
    match open_reader("<a>b</a>") {
        Some(mut reader) => {
            assert!(matches!(reader.next(), Some(Ok(reader_for_microxml::Token::StartElement("a")))));
            assert!(matches!(reader.next(), Some(Ok(reader_for_microxml::Token::TextNode("b")))));
            assert!(matches!(reader.next(), Some(Ok(reader_for_microxml::Token::EndElement("a")))));
            assert!(reader.next().is_none());
        }
        None => panic!("no reader"),
    }
}

#[test]
fn no_reader_is_opened_over_a_text_that_cannot_be_read() {
    assert!(open_reader("").is_none());
    assert!(open_reader("<a>é").is_none());
}
