use terminal_editor_rust::cursor::{Position, TextRange};
use terminal_editor_rust::terminal::{
    characters_between, cursor_screen_position, gutter_label, line_number_gutter_width,
    line_segments, selected_columns, status_line, visible_rows, Terminal,
};
use terminal_editor_rust::viewport::Viewport;

#[test]
fn gutter_grows_when_line_numbers_gain_a_digit() {
    assert_eq!(line_number_gutter_width(1), 3);
    assert_eq!(line_number_gutter_width(9), 3);
    assert_eq!(line_number_gutter_width(10), 4);
    assert_eq!(line_number_gutter_width(100), 5);
}

#[test]
fn gutter_width_of_an_empty_count_and_of_the_largest_count() {
    assert_eq!(line_number_gutter_width(0), 3);
    assert_eq!(line_number_gutter_width(usize::MAX), usize::MAX.to_string().len() + 2);
}

#[test]
fn gutter_labels_are_right_aligned_and_cut_to_the_terminal() {
    assert_eq!(gutter_label(7, 3, 80), "  7 \u{2502}");
    assert_eq!(gutter_label(1234, 2, 80), "1234 \u{2502}");
    assert_eq!(gutter_label(42, 3, 2), " 4");
    assert_eq!(gutter_label(0, 1, 80), "0 \u{2502}");
}

#[test]
fn status_line_fills_the_width_exactly() {
    let line = status_line("notes.txt", true, 30);
    assert_eq!(line, " notes.txt [+]  Ctrl-Q Quit | ");
    let wide = status_line("a", false, 70);
    assert_eq!(wide.chars().count(), 70);
    assert!(wide.starts_with(" a  Ctrl-Q Quit | Ctrl-Z/Y Undo/Redo | Ctrl-C/X/V Clipboard "));
    assert!(wide.ends_with("   "));
    assert_eq!(status_line("a", false, 0), "");
}

#[test]
fn characters_between_stops_at_the_end_of_the_text() {
    assert_eq!(characters_between("héllo", 1, 3), "él");
    assert_eq!(characters_between("héllo", 3, 99), "lo");
    assert_eq!(characters_between("héllo", 9, 12), "");
    assert_eq!(characters_between("héllo", 3, 1), "");
}

#[test]
fn selected_columns_per_line() {
    let selection = TextRange::new(Position::new(1, 2), Position::new(3, 4));
    assert_eq!(selected_columns(selection, 0, 10), None);
    assert_eq!(selected_columns(selection, 1, 10), Some((2, 10)));
    assert_eq!(selected_columns(selection, 2, 7), Some((0, 7)));
    assert_eq!(selected_columns(selection, 3, 10), Some((0, 4)));
    assert_eq!(selected_columns(selection, 1, 2), None);
    assert_eq!(selected_columns(selection, 4, 10), None);
}

#[test]
fn line_segments_split_at_the_visible_selection() {
    let selection = TextRange::new(Position::new(0, 2), Position::new(0, 5));
    let parts = line_segments("abcdefgh", 0, 1, 5, Some(selection));
    assert_eq!((parts.before.as_str(), parts.selected.as_str(), parts.after.as_str()), ("b", "cde", "f"));
    let parts = line_segments("abcdefgh", 1, 1, 5, Some(selection));
    assert_eq!((parts.before.as_str(), parts.selected.as_str(), parts.after.as_str()), ("bcdef", "", ""));
    let parts = line_segments("abcdefgh", 0, 4, 2, None);
    assert_eq!((parts.before.as_str(), parts.selected.as_str(), parts.after.as_str()), ("ef", "", ""));
}

#[test]
fn cursor_is_placed_after_the_gutter_only_when_visible() {
    let viewport = Viewport { width: 10, height: 5, offset_x: 2, offset_y: 3 };
    assert_eq!(cursor_screen_position(viewport, Position::new(4, 5), 3), Some((6, 1)));
    assert_eq!(cursor_screen_position(viewport, Position::new(2, 5), 3), None);
    assert_eq!(cursor_screen_position(viewport, Position::new(4, 12), 3), None);
    let empty = Viewport { width: 0, ..viewport };
    assert_eq!(cursor_screen_position(empty, Position::new(4, 5), 3), None);
}

#[test]
fn terminal_remembers_its_size() {
    let mut terminal = Terminal::new((80, 24));
    assert_eq!(terminal.size(), (80, 24));
    terminal.resize(100, 40);
    assert_eq!(terminal.size(), (100, 40));
}

#[test]
fn visible_rows_start_at_the_viewport_and_stop_at_the_last_line() {
    assert_eq!(visible_rows(0, 5, 3), (0, 3));
    assert_eq!(visible_rows(2, 5, 10), (2, 7));
    assert_eq!(visible_rows(8, 5, 10), (8, 10));
    assert_eq!(visible_rows(12, 5, 10), (10, 10));
    assert_eq!(visible_rows(1, 0, 10), (1, 1));
}

#[test]
fn cursor_position_needs_no_room_beyond_the_visible_columns() {
    let wide = Viewport { width: usize::MAX, height: 5, offset_x: 0, offset_y: 0 };
    assert_eq!(cursor_screen_position(wide, Position::new(1, 4), 3), Some((7, 1)));
}
