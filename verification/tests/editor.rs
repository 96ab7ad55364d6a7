use std::cell::RefCell;
use std::io;
use std::rc::Rc;

use terminal_editor_rust::buffer::Buffer;
use terminal_editor_rust::clipboard::Clipboard;
use terminal_editor_rust::cursor::Position;
use terminal_editor_rust::document::{Direction, Document};
use terminal_editor_rust::editor::{
    action_for_key, content_size, is_actionable_key, position_for_mouse, Editor,
    EditorAction, Event, EventOutcome, KeyCode, KeyEvent, KeyEventKind, KeyModifiers,
    MouseButton, MouseEvent, MouseEventKind,
};
use terminal_editor_rust::terminal::Terminal;

#[test]
fn plain_q_is_text_and_control_q_quits() {
    let plain_q = KeyEvent::new(KeyCode::Char('q'), KeyModifiers::none());
    let control_q = KeyEvent::new(KeyCode::Char('q'), KeyModifiers::control());

    assert_eq!(
        action_for_key(plain_q),
        EditorAction::Insert("q".to_owned())
    );
    assert_eq!(action_for_key(control_q), EditorAction::Quit);
}

#[test]
fn selection_and_history_shortcuts_map_to_actions() {
    let shift_left = KeyEvent::new(KeyCode::Left, KeyModifiers::shift());
    let undo = KeyEvent::new(KeyCode::Char('z'), KeyModifiers::control());
    let redo = KeyEvent::new(KeyCode::Char('y'), KeyModifiers::control());

    assert_eq!(
        action_for_key(shift_left),
        EditorAction::Move(Direction::Left, true)
    );
    assert_eq!(action_for_key(undo), EditorAction::Undo);
    assert_eq!(action_for_key(redo), EditorAction::Redo);
}

#[test]
fn content_width_reserves_space_for_line_numbers() {
    assert_eq!(content_size((80, 24), 9), (77, 23));
    assert_eq!(content_size((80, 24), 10), (76, 23));
    assert_eq!(content_size((2, 1), 100), (0, 0));
}

#[test]
fn mouse_coordinates_account_for_the_gutter_and_viewport() {
    let mut document = Document::new(Buffer::from_text(
        None,
        "zero\none\ntwo\nthree",
    ));
    document.set_viewport_size(20, 2);
    document.scroll_lines(1);

    assert_eq!(
        position_for_mouse(&document, 0, 0),
        Some(Position::new(1, 0))
    );
    assert_eq!(
        position_for_mouse(&document, 5, 1),
        Some(Position::new(2, 2))
    );
    assert_eq!(position_for_mouse(&document, 5, 2), None);
}

#[test]
fn shortcuts_accept_either_case_and_ctrl_shift_z_redoes() {
    let mut both = KeyModifiers::control();
    both.shift = true;
    assert_eq!(action_for_key(KeyEvent::new(KeyCode::Char('Z'), both)), EditorAction::Redo);
    assert_eq!(
        action_for_key(KeyEvent::new(KeyCode::Char('A'), KeyModifiers::control())),
        EditorAction::SelectAll
    );
    assert_eq!(
        action_for_key(KeyEvent::new(KeyCode::Char('k'), KeyModifiers::control())),
        EditorAction::NoAction
    );
    let mut alt = KeyModifiers::none();
    alt.alt = true;
    assert_eq!(action_for_key(KeyEvent::new(KeyCode::Char('k'), alt)), EditorAction::NoAction);
    assert_eq!(
        action_for_key(KeyEvent::new(KeyCode::Tab, KeyModifiers::none())),
        EditorAction::Insert("\t".to_owned())
    );
    assert_eq!(
        action_for_key(KeyEvent::new(KeyCode::Esc, KeyModifiers::none())),
        EditorAction::ClearSelection
    );
    let mut release = KeyEvent::new(KeyCode::Enter, KeyModifiers::none());
    assert!(is_actionable_key(release));
    release.kind = KeyEventKind::Release;
    assert!(!is_actionable_key(release));
}

fn key(code: KeyCode, modifiers: KeyModifiers) -> Event {
    Event::Key(KeyEvent::new(code, modifiers))
}

#[test]
fn events_edit_the_current_document_through_the_clipboard() {
    let mut editor = Editor::new(Terminal::new((40, 10)));
    assert_eq!(editor.current_document().viewport().width, 37);
    assert_eq!(editor.current_document().viewport().height, 9);

    for c in "hello".chars() {
        let outcome = editor.handle_event(key(KeyCode::Char(c), KeyModifiers::none())).unwrap();
        assert_eq!(outcome, EventOutcome::Redraw);
    }
    editor.handle_event(key(KeyCode::Char('a'), KeyModifiers::control())).unwrap();
    editor.handle_event(key(KeyCode::Char('x'), KeyModifiers::control())).unwrap();
    assert_eq!(editor.current_document().buffer().text(), "");
    editor.handle_event(key(KeyCode::Char('v'), KeyModifiers::control())).unwrap();
    editor.handle_event(key(KeyCode::Char('v'), KeyModifiers::control())).unwrap();
    assert_eq!(editor.current_document().buffer().text(), "hellohello");
    editor.handle_event(Event::Paste("!".to_owned())).unwrap();
    assert_eq!(editor.current_document().buffer().text(), "hellohello!");

    let mut release = KeyEvent::new(KeyCode::Char('z'), KeyModifiers::control());
    release.kind = KeyEventKind::Release;
    assert_eq!(editor.handle_event(Event::Key(release)).unwrap(), EventOutcome::Ignore);
    assert_eq!(
        editor.handle_event(key(KeyCode::Char('q'), KeyModifiers::control())).unwrap(),
        EventOutcome::Quit
    );
    assert_eq!(editor.handle_event(Event::Resize(100, 30)).unwrap(), EventOutcome::Redraw);
    assert_eq!(editor.terminal().size(), (100, 30));
    assert_eq!(editor.handle_event(Event::Other).unwrap(), EventOutcome::Ignore);
}

#[test]
fn mouse_clicks_place_the_cursor_and_the_wheel_scrolls() {
    let mut editor = Editor::new(Terminal::new((40, 3)));
    editor.open_file(Buffer::from_text(None, "zero\none\ntwo\nthree"));
    editor.sync_current_viewport_size();
    let click = |column, row, shift| MouseEvent {
        kind: MouseEventKind::Down(MouseButton::Left),
        column,
        row,
        modifiers: if shift { KeyModifiers::shift() } else { KeyModifiers::none() },
    };
    assert!(editor.handle_mouse(click(4, 1, false)));
    assert_eq!(editor.current_document().cursor().position(), Position::new(1, 1));
    assert!(editor.handle_mouse(click(5, 0, true)));
    assert_eq!(editor.current_document().selected_text().as_deref(), Some("ro\no"));
    assert!(!editor.handle_mouse(click(3, 2, false)));
    let wheel = MouseEvent {
        kind: MouseEventKind::ScrollDown,
        column: 0,
        row: 0,
        modifiers: KeyModifiers::none(),
    };
    assert!(editor.handle_mouse(wheel));
    assert_eq!(editor.current_document().viewport().offset_y, 2);
    let moved = MouseEvent { kind: MouseEventKind::Moved, ..wheel };
    assert!(!editor.handle_mouse(moved));
}

#[test]
fn opening_a_file_replaces_only_the_untouched_startup_document() {
    let mut editor = Editor::new(Terminal::new((80, 24)));
    editor.open_file(Buffer::from_text(None, "first"));
    assert_eq!(editor.current_document().buffer().text(), "first");
    editor.handle_event(key(KeyCode::Char('x'), KeyModifiers::none())).unwrap();
    editor.open_file(Buffer::from_text(None, "second"));
    assert_eq!(editor.current_document().buffer().text(), "second");
    assert_eq!(editor.current_document().viewport().width, 77);
}

/// A clipboard that answers reads with a fixed text and keeps every text written.
struct RecordingClipboard {
    reply: String,
    written: Rc<RefCell<Vec<String>>>,
}

impl Clipboard for RecordingClipboard {
    fn read(&mut self) -> io::Result<String> {
        Ok(self.reply.clone())
    }

    fn write(&mut self, text: &str) -> io::Result<()> {
        self.written.borrow_mut().push(text.to_owned());
        Ok(())
    }
}

/// A clipboard whose every call fails, counting the calls.
struct FailingClipboard {
    calls: Rc<RefCell<usize>>,
}

impl Clipboard for FailingClipboard {
    fn read(&mut self) -> io::Result<String> {
        *self.calls.borrow_mut() += 1;
        Err(io::Error::new(io::ErrorKind::Other, "no clipboard"))
    }

    fn write(&mut self, _text: &str) -> io::Result<()> {
        *self.calls.borrow_mut() += 1;
        Err(io::Error::new(io::ErrorKind::Other, "no clipboard"))
    }
}

fn editor_with_text(clipboard: Box<dyn Clipboard>, text: &str) -> Editor {
    let mut editor = Editor::with_clipboard(clipboard, Terminal::new((40, 10)));
    editor.open_file(Buffer::from_text(None, text));
    editor
}

#[test]
fn copy_writes_exactly_the_selection_and_paste_types_exactly_what_was_read() {
    let written = Rc::new(RefCell::new(Vec::new()));
    let clipboard = RecordingClipboard { reply: "abc".to_owned(), written: written.clone() };
    let mut editor = editor_with_text(Box::new(clipboard), "one\ntwo");

    assert_eq!(editor.handle_action(EditorAction::Copy).unwrap(), false);
    assert!(written.borrow().is_empty());

    editor.handle_action(EditorAction::Move(Direction::Right, true)).unwrap();
    editor.handle_action(EditorAction::Move(Direction::Down, true)).unwrap();
    assert_eq!(editor.handle_action(EditorAction::Copy).unwrap(), false);
    assert_eq!(*written.borrow(), vec!["one\nt".to_owned()]);
    assert_eq!(editor.current_document().buffer().text(), "one\ntwo");

    assert_eq!(editor.handle_action(EditorAction::Paste).unwrap(), false);
    assert_eq!(editor.current_document().buffer().text(), "abcwo");
    assert_eq!(editor.handle_action(EditorAction::Quit).unwrap(), true);
    assert_eq!(written.borrow().len(), 1);
}

#[test]
fn only_a_failing_clipboard_call_gives_an_error() {
    let calls = Rc::new(RefCell::new(0));
    let mut editor = editor_with_text(Box::new(FailingClipboard { calls: calls.clone() }), "hello");

    assert_eq!(editor.handle_action(EditorAction::Copy).unwrap(), false);
    assert_eq!(editor.handle_action(EditorAction::Cut).unwrap(), false);
    assert_eq!(*calls.borrow(), 0);

    assert!(editor.handle_action(EditorAction::Paste).is_err());
    assert_eq!(*calls.borrow(), 1);
    assert_eq!(editor.current_document().buffer().text(), "hello");

    editor.handle_action(EditorAction::SelectAll).unwrap();
    assert!(editor.handle_action(EditorAction::Copy).is_err());
    assert_eq!(editor.current_document().buffer().text(), "hello");
    assert!(editor.handle_action(EditorAction::Cut).is_err());
    assert_eq!(editor.current_document().buffer().text(), "");
    assert_eq!(*calls.borrow(), 3);

    assert_eq!(editor.handle_action(EditorAction::Quit).unwrap(), true);
    assert!(editor.handle_event(key(KeyCode::Char('v'), KeyModifiers::control())).is_err());
    assert_eq!(*calls.borrow(), 4);
}
