use planet_relay::framing::{frame, frame_quoted};

#[test]
fn frame_of_earth() {
    assert_eq!(frame("Earth"), "data: Planet created: \"Earth\"\n\n");
}

#[test]
fn frame_quotes_the_empty_payload() {
    assert_eq!(frame(""), "data: Planet created: \"\"\n\n");
}

#[test]
fn frame_escapes_quotes_and_line_breaks() {
    assert_eq!(
        frame("{\"name\":\"Mars\"}\n"),
        "data: Planet created: \"{\\\"name\\\":\\\"Mars\\\"}\\n\"\n\n"
    );
}

#[test]
fn frame_escapes_backslashes_and_tabs() {
    assert_eq!(frame("a\\b\tc"), "data: Planet created: \"a\\\\b\\tc\"\n\n");
}

#[test]
fn frame_keeps_letters_outside_ascii() {
    assert_eq!(frame("Zürich"), "data: Planet created: \"Zürich\"\n\n");
}

#[test]
fn frame_ends_with_one_blank_line() {
    let chunk = frame("Venus");
    assert!(chunk.starts_with("data: Planet created: "));
    assert!(chunk.ends_with("\"\n\n"));
    assert_eq!(chunk.matches('\n').count(), 2);
}

#[test]
fn frame_quoted_wraps_without_quoting() {
    assert_eq!(frame_quoted("Earth"), "data: Planet created: Earth\n\n");
    assert_eq!(frame_quoted(""), "data: Planet created: \n\n");
    assert_eq!(frame_quoted("\"Earth\""), frame("Earth"));
}
