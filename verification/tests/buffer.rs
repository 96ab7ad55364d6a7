use std::path::PathBuf;

use terminal_editor_rust::buffer::{name_or_untitled, position_after, Buffer};
use terminal_editor_rust::cursor::{Position, TextRange};

#[test]
fn empty_buffer_always_has_one_editable_line() {
    let buffer = Buffer::new();

    assert_eq!(buffer.lines(), &[String::new()]);
    assert_eq!(
        buffer.clamp_position(Position::new(20, 20)),
        Position::new(0, 0)
    );
}

#[test]
fn replaces_a_multiline_range() {
    let mut buffer = Buffer::from_text(None, "hello\nwide world\nlast");

    let change = buffer.replace_range(
        TextRange::new(Position::new(0, 3), Position::new(2, 2)),
        "p!\nnew",
    );

    assert_eq!(change.removed, "lo\nwide world\nla");
    assert_eq!(buffer.text(), "help!\nnewst");
    assert_eq!(change.inserted_range().end, Position::new(1, 3));
}

#[test]
fn cursor_columns_are_unicode_safe() {
    let mut buffer = Buffer::from_text(None, "a🦀b");

    buffer.replace_range(TextRange::empty(Position::new(0, 2)), "é");
    buffer.replace_range(TextRange::new(Position::new(0, 1), Position::new(0, 2)), "");

    assert_eq!(buffer.text(), "aéb");
    assert_eq!(buffer.line_len(0), 3);
}

#[test]
fn opens_windows_line_endings_without_rendering_carriage_returns() {
    let buffer = Buffer::from_text(None, "one\r\ntwo\r\n");

    assert_eq!(buffer.lines(), &["one", "two", ""]);
}

#[test]
fn undoing_a_replacement_restores_the_text() {
    let mut buffer = Buffer::from_text(None, "alpha\nbeta\ngamma");
    let change = buffer.replace_range(
        TextRange::new(Position::new(2, 1), Position::new(0, 2)),
        "X\nY\nZ",
    );
    assert_eq!(change.start, Position::new(0, 2));
    assert_eq!(change.removed, "pha\nbeta\ng");
    assert_eq!(buffer.text(), "alX\nY\nZamma");
    assert_eq!(buffer.text_in_range(change.inserted_range()), "X\nY\nZ");

    let inverse = buffer.replace_range(change.inserted_range(), &change.removed);
    assert_eq!(inverse.removed, "X\nY\nZ");
    assert_eq!(buffer.text(), "alpha\nbeta\ngamma");
    assert_eq!(buffer.text_in_range(change.removed_range()), "pha\nbeta\ng");

    buffer.replace_range(change.removed_range(), &change.inserted);
    assert_eq!(buffer.text(), "alX\nY\nZamma");
}

#[test]
fn text_round_trips_through_lines() {
    let text = "first\n\nthird line\n";
    let buffer = Buffer::from_text(None, text);
    assert_eq!(buffer.line_count(), 4);
    assert_eq!(buffer.text(), text);
    assert_eq!(buffer.line(3), Some(""));
    assert_eq!(buffer.line(4), None);
    assert_eq!(buffer.line_len(9), 0);
}

#[test]
fn ranges_are_clamped_and_normalized() {
    let buffer = Buffer::from_text(None, "ab\ncd");
    assert_eq!(buffer.clamp_position(Position::new(0, 9)), Position::new(0, 2));
    assert_eq!(buffer.clamp_position(Position::new(7, 1)), Position::new(1, 1));
    assert_eq!(
        buffer.text_in_range(TextRange::new(Position::new(9, 9), Position::new(0, 1))),
        "b\ncd"
    );
    assert_eq!(buffer.text_in_range(TextRange::empty(Position::new(1, 1))), "");
}

#[test]
fn position_after_counts_lines_and_characters() {
    assert_eq!(position_after(Position::new(2, 3), "héllo"), Position::new(2, 8));
    assert_eq!(position_after(Position::new(2, 3), "a\nbc\n"), Position::new(4, 0));
    assert_eq!(position_after(Position::new(2, 3), "a\nxyz"), Position::new(3, 3));
    assert_eq!(position_after(Position::new(2, 3), ""), Position::new(2, 3));
}

#[test]
fn change_ranges_and_noop_detection() {
    let mut buffer = Buffer::from_text(None, "one two");
    let change = buffer.replace_range(
        TextRange::new(Position::new(0, 4), Position::new(0, 7)),
        "two",
    );
    assert!(change.is_noop());
    assert_eq!(buffer.text(), "one two");
    let change = buffer.replace_range(TextRange::empty(Position::new(0, 3)), ",\n");
    assert!(!change.is_noop());
    assert_eq!(change.removed_range(), TextRange::empty(Position::new(0, 3)));
    assert_eq!(
        change.inserted_range(),
        TextRange::new(Position::new(0, 3), Position::new(1, 0))
    );
}

#[test]
fn display_name_uses_the_file_name() {
    let untitled = Buffer::new();
    assert_eq!(untitled.display_name(), "[untitled]");
    assert!(untitled.path().is_none());

    let named = Buffer::from_text(Some(PathBuf::from("/tmp/notes/todo.txt")), "x");
    assert_eq!(named.display_name(), "todo.txt");
    assert_eq!(named.path(), Some(std::path::Path::new("/tmp/notes/todo.txt")));

    let copy = named.clone();
    assert_eq!(copy.path(), named.path());
    assert_eq!(copy.text(), "x");
}

#[test]
fn changes_compare_by_start_and_texts() {
    let mut first = Buffer::from_text(None, "abc");
    let mut second = Buffer::from_text(None, "abc");
    let a = first.replace_range(TextRange::new(Position::new(0, 1), Position::new(0, 2)), "x");
    let b = second.replace_range(TextRange::new(Position::new(0, 2), Position::new(0, 1)), "x");
    assert_eq!(a, b);
    let c = second.replace_range(TextRange::empty(Position::new(0, 1)), "x");
    assert_ne!(a, c);
}

/// The character offset of a position in the joined text.
fn offset(text: &str, position: Position) -> usize {
    let lines: Vec<&str> = text.split('\n').collect();
    lines[..position.line].iter().map(|line| line.chars().count() + 1).sum::<usize>()
        + position.column
}

#[test]
fn replacement_splices_the_joined_text() {
    let cases = [
        ("one\ntwo\nthree", (0, 1), (2, 3), "X"),
        ("one\ntwo\nthree", (1, 0), (1, 3), "a\nb\n"),
        ("é\n\n🦀z", (2, 1), (0, 0), ""),
        ("", (0, 0), (0, 0), "\n\n"),
    ];
    for (text, start, end, replacement) in cases {
        let mut buffer = Buffer::from_text(None, text);
        let range = TextRange::new(Position::new(start.0, start.1), Position::new(end.0, end.1));
        let change = buffer.replace_range(range, replacement);
        let chars: Vec<char> = text.chars().collect();
        let from = offset(text, change.start);
        let to = offset(text, change.removed_range().end);
        let removed: String = chars[from..to].iter().collect();
        assert_eq!(change.removed, removed);
        let expected: String = chars[..from]
            .iter()
            .chain(replacement.chars().collect::<Vec<_>>().iter())
            .chain(chars[to..].iter())
            .collect();
        assert_eq!(buffer.text(), expected);
    }
}

#[test]
fn a_path_without_a_file_name_shows_as_untitled() {
    let root = Buffer::from_text(Some(PathBuf::from("/")), "");
    assert_eq!(root.display_name(), "[untitled]");
    let parent = Buffer::from_text(Some(PathBuf::from("notes/..")), "");
    assert_eq!(parent.display_name(), "[untitled]");
    let nested = Buffer::from_text(Some(PathBuf::from("dir/notes.txt")), "");
    assert_eq!(nested.display_name(), "notes.txt");
    assert_eq!(name_or_untitled(Some("a.rs".to_owned())), "a.rs");
    assert_eq!(name_or_untitled(None), "[untitled]");
}
