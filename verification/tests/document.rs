use terminal_editor_rust::buffer::Buffer;
use terminal_editor_rust::cursor::{Position, TextRange};
use terminal_editor_rust::document::{Direction, Document};

fn document(text: &str) -> Document {
    Document::new(Buffer::from_text(None, text))
}

#[test]
fn edit_actions_share_undo_and_redo_history() {
    let mut document = document("one\ntwo");
    document.move_cursor(Direction::End, false);
    document.insert_text("!");
    document.insert_newline();
    document.insert_text("next");
    document.backspace();

    assert_eq!(document.buffer().text(), "one!\nnex\ntwo");

    document.undo();
    assert_eq!(document.buffer().text(), "one!\nnext\ntwo");
    document.undo();
    assert_eq!(document.buffer().text(), "one!\n\ntwo");
    document.redo();
    assert_eq!(document.buffer().text(), "one!\nnext\ntwo");
}

#[test]
fn selection_can_be_copied_cut_and_pasted() {
    let mut document = document("alpha beta");
    for _ in 0..5 {
        document.move_cursor(Direction::Right, true);
    }

    assert_eq!(document.selected_text().as_deref(), Some("alpha"));
    assert_eq!(document.cut_selection().as_deref(), Some("alpha"));
    assert_eq!(document.buffer().text(), " beta");

    document.move_cursor(Direction::End, false);
    document.insert_text("alpha");
    assert_eq!(document.buffer().text(), " betaalpha");
}

#[test]
fn a_new_edit_clears_the_redo_branch() {
    let mut document = document("");
    document.insert_text("a");
    document.undo();
    document.insert_text("b");
    document.redo();

    assert_eq!(document.buffer().text(), "b");
}

#[test]
fn vertical_movement_remembers_the_preferred_column() {
    let mut document = document("12345\n1\n12345");
    document.move_cursor(Direction::End, false);
    document.move_cursor(Direction::Down, false);
    assert_eq!(document.cursor().position(), Position::new(1, 1));

    document.move_cursor(Direction::Down, false);
    assert_eq!(document.cursor().position(), Position::new(2, 5));
}

#[test]
fn mouse_style_cursor_placement_clamps_and_extends_selection() {
    let mut document = document("first\nsecond");

    document.set_cursor(Position::new(0, 2), false);
    document.set_cursor(Position::new(50, 50), true);

    assert_eq!(document.cursor().position(), Position::new(1, 6));
    assert_eq!(document.selected_text().as_deref(), Some("rst\nsecond"));
}

#[test]
fn undo_restores_text_and_cursor_and_the_modified_flag() {
    let mut document = document("abc");
    document.move_cursor(Direction::Right, false);
    let before = document.cursor().snapshot();
    assert!(!document.is_modified());

    document.insert_text("XY\nZ");
    assert_eq!(document.buffer().text(), "aXY\nZbc");
    assert_eq!(document.cursor().position(), Position::new(1, 1));
    assert!(document.is_modified());

    document.undo();
    assert_eq!(document.buffer().text(), "abc");
    assert_eq!(document.cursor().snapshot(), before);
    assert!(!document.is_modified());

    document.redo();
    assert_eq!(document.buffer().text(), "aXY\nZbc");
    assert_eq!(document.cursor().position(), Position::new(1, 1));
    assert!(document.is_modified());
}

#[test]
fn backspace_and_delete_join_lines_and_stop_at_the_ends() {
    let mut document = document("ab\ncd");
    document.backspace();
    assert_eq!(document.buffer().text(), "ab\ncd");
    document.move_cursor(Direction::Down, false);
    document.backspace();
    assert_eq!(document.buffer().text(), "abcd");
    assert_eq!(document.cursor().position(), Position::new(0, 2));
    document.delete();
    assert_eq!(document.buffer().text(), "abd");
    document.move_cursor(Direction::End, false);
    document.delete();
    assert_eq!(document.buffer().text(), "abd");
    assert!(!document.cursor().selection().is_some());
}

#[test]
fn select_all_then_type_replaces_everything() {
    let mut document = document("one\ntwo\nthree");
    document.select_all();
    assert_eq!(
        document.cursor().selection(),
        Some(TextRange::new(Position::new(0, 0), Position::new(2, 5)))
    );
    document.insert_text("x");
    assert_eq!(document.buffer().text(), "x");
    document.undo();
    assert_eq!(document.buffer().text(), "one\ntwo\nthree");
}

#[test]
fn moving_without_shift_collapses_a_selection_to_its_side() {
    let mut document = document("hello");
    document.move_cursor(Direction::End, false);
    document.move_cursor(Direction::Left, true);
    document.move_cursor(Direction::Left, true);
    assert_eq!(document.selected_text().as_deref(), Some("lo"));
    document.move_cursor(Direction::Right, false);
    assert_eq!(document.cursor().position(), Position::new(0, 5));
    assert_eq!(document.cursor().selection(), None);
    document.move_cursor(Direction::Left, true);
    document.move_cursor(Direction::Home, false);
    assert_eq!(document.cursor().position(), Position::new(0, 4));
    document.clear_selection();
    assert_eq!(document.selected_text(), None);
}

#[test]
fn the_view_follows_the_cursor() {
    let mut document = document("a\nb\nc\nd\ne");
    document.set_viewport_size(10, 2);
    document.set_cursor(Position::new(4, 0), false);
    assert_eq!(document.viewport().offset_y, 3);
    document.scroll_lines(-10);
    assert_eq!(document.viewport().offset_y, 0);
    document.move_cursor(Direction::Up, false);
    assert_eq!(document.viewport().offset_y, 2);
}

#[test]
fn cutting_and_typing_the_cut_text_back_restores_the_document() {
    let mut document = document("one\ntwo three\nfour");
    document.set_cursor(Position::new(2, 2), false);
    document.set_cursor(Position::new(0, 1), true);
    let cut = document.cut_selection().unwrap();
    assert_eq!(cut, "ne\ntwo three\nfo");
    assert_eq!(document.buffer().text(), "our");
    document.insert_text(&cut);
    assert_eq!(document.buffer().text(), "one\ntwo three\nfour");
}

#[test]
fn redo_after_undo_and_undo_after_redo_give_back_the_text() {
    let mut document = document("x");
    document.insert_text("a");
    document.insert_text("b\n");
    document.undo();
    document.undo();
    assert_eq!(document.buffer().text(), "x");
    document.redo();
    document.redo();
    assert_eq!(document.buffer().text(), "ab\nx");
    document.redo();
    assert_eq!(document.buffer().text(), "ab\nx");
    document.undo();
    assert_eq!(document.buffer().text(), "ax");
    document.redo();
    assert_eq!(document.buffer().text(), "ab\nx");
}

#[test]
fn enter_splits_the_line_at_the_cursor() {
    let mut document = document("hello\nworld");
    document.move_cursor(Direction::Right, false);
    document.move_cursor(Direction::Right, false);
    document.insert_newline();
    assert_eq!(document.buffer().text(), "he\nllo\nworld");
    assert_eq!(document.buffer().line_count(), 3);
    assert_eq!(document.cursor().position(), Position::new(1, 0));
    assert_eq!(document.cursor().selection(), None);
}

#[test]
fn enter_replaces_the_selection_by_a_line_break() {
    let mut document = document("hello\nworld");
    document.move_cursor(Direction::Right, false);
    document.move_cursor(Direction::Down, true);
    document.insert_newline();
    assert_eq!(document.buffer().text(), "h\norld");
    assert_eq!(document.cursor().position(), Position::new(1, 0));
}
