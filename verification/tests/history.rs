use terminal_editor_rust::buffer::{Buffer, TextChange};
use terminal_editor_rust::cursor::{CursorState, Position, TextRange};
use terminal_editor_rust::history::EditHistory;

fn replace(buffer: &mut Buffer, start: (usize, usize), end: (usize, usize), text: &str) -> TextChange {
    buffer.replace_range(
        TextRange::new(Position::new(start.0, start.1), Position::new(end.0, end.1)),
        text,
    )
}

#[test]
fn record_then_undo_gives_back_the_text_and_redo_repeats_it() {
    let mut buffer = Buffer::from_text(None, "abc");
    let mut history = EditHistory::default();
    let before = CursorState::collapsed(Position::new(0, 1));
    let after = CursorState::collapsed(Position::new(0, 3));
    let change = replace(&mut buffer, (0, 1), (0, 2), "XY");
    history.record(change, before, after);
    assert!(history.is_modified());
    assert_eq!(history.redo(&mut buffer), None);
    assert_eq!(buffer.text(), "aXYc");

    assert_eq!(history.undo(&mut buffer), Some(before));
    assert_eq!(buffer.text(), "abc");
    assert!(!history.is_modified());
    assert_eq!(history.undo(&mut buffer), None);
    assert_eq!(buffer.text(), "abc");

    assert_eq!(history.redo(&mut buffer), Some(after));
    assert_eq!(buffer.text(), "aXYc");
    assert!(history.is_modified());
}

#[test]
fn a_change_that_keeps_the_text_is_not_recorded() {
    let mut buffer = Buffer::from_text(None, "abc");
    let mut history = EditHistory::default();
    let change = replace(&mut buffer, (0, 0), (0, 1), "Z");
    history.record(change, CursorState::collapsed(Position::new(0, 0)), CursorState::collapsed(Position::new(0, 1)));
    history.undo(&mut buffer);
    let far = Position::new(usize::MAX, usize::MAX);
    let noop = TextChange { start: far, removed: "x\ny".to_owned(), inserted: "x\ny".to_owned() };
    history.record(noop, CursorState::collapsed(far), CursorState::collapsed(far));
    assert!(!history.is_modified());
    assert_eq!(history.redo(&mut buffer), Some(CursorState::collapsed(Position::new(0, 1))));
    assert_eq!(buffer.text(), "Zbc");
}

#[test]
fn the_saved_point_is_a_revision_not_a_count_of_edits() {
    let mut buffer = Buffer::from_text(None, "abc");
    let mut history = EditHistory::default();
    let cursor = CursorState::collapsed(Position::new(0, 0));
    let first = replace(&mut buffer, (0, 0), (0, 0), "1");
    history.record(first, cursor, cursor);
    history.mark_saved();
    assert!(!history.is_modified());
    let second = replace(&mut buffer, (0, 0), (0, 0), "2");
    history.record(second, cursor, cursor);
    assert!(history.is_modified());
    history.undo(&mut buffer);
    assert!(!history.is_modified());
    assert_eq!(buffer.text(), "1abc");
    history.undo(&mut buffer);
    assert!(history.is_modified());
    assert_eq!(buffer.text(), "abc");
}
