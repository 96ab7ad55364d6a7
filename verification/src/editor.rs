//! The editor: open documents, the terminal size, the clipboard, and what each
//! key, mouse or paste event does to them.
use std::io;

use vstd::prelude::*;

use crate::buffer::{clamp_position_spec, clamp_range_spec, push_char, text_in_range_spec, Buffer};
use crate::clipboard::{Clipboard, MemoryClipboard};
use crate::cursor::{collapsed_state, selection_of, Position};
use crate::document::{
    apply_edit_spec, backspace_spec, delete_spec, insert_text_spec, move_cursor_spec,
    redo_spec, select_all_spec, set_cursor_spec, set_viewport_size_spec, undo_spec,
    Direction, Document, DocumentView,
};
use crate::cursor::clear_selection_spec;
use crate::history::empty_history;
use crate::terminal::{decimal_digit_count_spec, line_number_gutter_width, Terminal};
use crate::viewport::{scroll_vertical_spec, sat_sub, Viewport};

verus! {

/// A key as the editor reads it.
#[derive(Clone, Copy, Debug, PartialEq, Eq, Structural)]
pub enum KeyCode {
    Up,
    Down,
    Left,
    Right,
    Home,
    End,
    Backspace,
    Delete,
    Enter,
    Tab,
    Esc,
    Char(char),
    Other,
}

/// The modifier keys held with a key or a mouse event.
#[derive(Clone, Copy, Debug, PartialEq, Eq, Structural)]
pub struct KeyModifiers {
    pub shift: bool,
    pub control: bool,
    pub alt: bool,
}

impl KeyModifiers {
    pub fn none() -> (m: Self)
        ensures
            !m.shift && !m.control && !m.alt,
    {
        KeyModifiers { shift: false, control: false, alt: false }
    }

    pub fn shift() -> (m: Self)
        ensures
            m.shift && !m.control && !m.alt,
    {
        KeyModifiers { shift: true, control: false, alt: false }
    }

    pub fn control() -> (m: Self)
        ensures
            !m.shift && m.control && !m.alt,
    {
        KeyModifiers { shift: false, control: true, alt: false }
    }
}

#[derive(Clone, Copy, Debug, PartialEq, Eq, Structural)]
pub enum KeyEventKind {
    Press,
    Repeat,
    Release,
}

#[derive(Clone, Copy, Debug, PartialEq, Eq, Structural)]
pub struct KeyEvent {
    pub code: KeyCode,
    pub modifiers: KeyModifiers,
    pub kind: KeyEventKind,
}

impl KeyEvent {
    /// A key press.
    pub fn new(code: KeyCode, modifiers: KeyModifiers) -> (k: Self)
        ensures
            k == (KeyEvent { code, modifiers, kind: KeyEventKind::Press }),
    {
        KeyEvent { code, modifiers, kind: KeyEventKind::Press }
    }
}

#[derive(Clone, Copy, Debug, PartialEq, Eq, Structural)]
pub enum MouseButton {
    Left,
    Right,
    Middle,
}

#[derive(Clone, Copy, Debug, PartialEq, Eq, Structural)]
pub enum MouseEventKind {
    Down(MouseButton),
    Up(MouseButton),
    Drag(MouseButton),
    Moved,
    ScrollUp,
    ScrollDown,
    ScrollLeft,
    ScrollRight,
}

/// A mouse event at a screen cell.
#[derive(Clone, Copy, Debug, PartialEq, Eq, Structural)]
pub struct MouseEvent {
    pub kind: MouseEventKind,
    pub column: u16,
    pub row: u16,
    pub modifiers: KeyModifiers,
}

/// An input event as the editor reads it.
#[derive(Clone, Debug, PartialEq, Eq)]
pub enum Event {
    Key(KeyEvent),
    Paste(String),
    Mouse(MouseEvent),
    Resize(u16, u16),
    Other,
}

/// What a key asks of the editor.
#[derive(Clone, Debug, PartialEq, Eq)]
pub enum EditorAction {
    Quit,
    Move(Direction, bool),
    Insert(String),
    Newline,
    Backspace,
    Delete,
    Undo,
    Redo,
    Copy,
    Cut,
    Paste,
    SelectAll,
    ClearSelection,
    NoAction,
}

/// An editor action as a value.
pub enum ActionView {
    Quit,
    Move(Direction, bool),
    Insert(Seq<char>),
    Newline,
    Backspace,
    Delete,
    Undo,
    Redo,
    Copy,
    Cut,
    Paste,
    SelectAll,
    ClearSelection,
    NoAction,
}

impl View for EditorAction {
    type V = ActionView;

    open spec fn view(&self) -> ActionView {
        match self {
            EditorAction::Quit => ActionView::Quit,
            EditorAction::Move(direction, selecting) => ActionView::Move(*direction, *selecting),
            EditorAction::Insert(text) => ActionView::Insert(text@),
            EditorAction::Newline => ActionView::Newline,
            EditorAction::Backspace => ActionView::Backspace,
            EditorAction::Delete => ActionView::Delete,
            EditorAction::Undo => ActionView::Undo,
            EditorAction::Redo => ActionView::Redo,
            EditorAction::Copy => ActionView::Copy,
            EditorAction::Cut => ActionView::Cut,
            EditorAction::Paste => ActionView::Paste,
            EditorAction::SelectAll => ActionView::SelectAll,
            EditorAction::ClearSelection => ActionView::ClearSelection,
            EditorAction::NoAction => ActionView::NoAction,
        }
    }
}

/// What the editor does after an event.
#[derive(Clone, Copy, Debug, PartialEq, Eq, Structural)]
pub enum EventOutcome {
    Quit,
    Redraw,
    Ignore,
}

/// The shortcut of Ctrl with a letter, in either case; Ctrl-Shift-Z redoes.
pub open spec fn control_action(c: char, shift: bool) -> ActionView {
    if c == 'q' || c == 'Q' {
        ActionView::Quit
    } else if c == 'z' || c == 'Z' {
        if shift { ActionView::Redo } else { ActionView::Undo }
    } else if c == 'y' || c == 'Y' {
        ActionView::Redo
    } else if c == 'c' || c == 'C' {
        ActionView::Copy
    } else if c == 'x' || c == 'X' {
        ActionView::Cut
    } else if c == 'v' || c == 'V' {
        ActionView::Paste
    } else if c == 'a' || c == 'A' {
        ActionView::SelectAll
    } else {
        ActionView::NoAction
    }
}

/// The action of a key: Ctrl with a letter is a shortcut; arrows, Home and End
/// move (selecting with Shift); a character typed without Ctrl or Alt is inserted.
pub open spec fn action_for_key_spec(key: KeyEvent) -> ActionView {
    let shift = key.modifiers.shift;
    let control = key.modifiers.control;
    let alt = key.modifiers.alt;
    if control && key.code is Char {
        control_action(key.code->0, shift)
    } else {
        match key.code {
            KeyCode::Up => ActionView::Move(Direction::Up, shift),
            KeyCode::Down => ActionView::Move(Direction::Down, shift),
            KeyCode::Left => ActionView::Move(Direction::Left, shift),
            KeyCode::Right => ActionView::Move(Direction::Right, shift),
            KeyCode::Home => ActionView::Move(Direction::Home, shift),
            KeyCode::End => ActionView::Move(Direction::End, shift),
            KeyCode::Backspace => ActionView::Backspace,
            KeyCode::Delete => ActionView::Delete,
            KeyCode::Enter => ActionView::Newline,
            KeyCode::Tab => ActionView::Insert(seq!['\t']),
            KeyCode::Esc => ActionView::ClearSelection,
            KeyCode::Char(c) => if !control && !alt {
                ActionView::Insert(seq![c])
            } else {
                ActionView::NoAction
            },
            KeyCode::Other => ActionView::NoAction,
        }
    }
}

pub fn is_actionable_key(key: KeyEvent) -> (b: bool)
    ensures
        b == (key.kind is Press || key.kind is Repeat),
{
    match key.kind {
        KeyEventKind::Press | KeyEventKind::Repeat => true,
        KeyEventKind::Release => false,
    }
}

fn char_to_string(c: char) -> (s: String)
    ensures
        s@ == seq![c],
{
    let mut s = String::new();
    push_char(&mut s, c);
    proof {
        assert(s@ =~= seq![c]);
    }
    s
}

pub fn action_for_key(key: KeyEvent) -> (action: EditorAction)
    ensures
        action@ == action_for_key_spec(key),
{
    let control = key.modifiers.control;
    let shift = key.modifiers.shift;
    let alt = key.modifiers.alt;
    if control {
        if let KeyCode::Char(character) = key.code {
            return match character {
                'q' | 'Q' => EditorAction::Quit,
                'z' | 'Z' => if shift { EditorAction::Redo } else { EditorAction::Undo },
                'y' | 'Y' => EditorAction::Redo,
                'c' | 'C' => EditorAction::Copy,
                'x' | 'X' => EditorAction::Cut,
                'v' | 'V' => EditorAction::Paste,
                'a' | 'A' => EditorAction::SelectAll,
                _ => EditorAction::NoAction,
            };
        }
    }
    match key.code {
        KeyCode::Up => EditorAction::Move(Direction::Up, shift),
        KeyCode::Down => EditorAction::Move(Direction::Down, shift),
        KeyCode::Left => EditorAction::Move(Direction::Left, shift),
        KeyCode::Right => EditorAction::Move(Direction::Right, shift),
        KeyCode::Home => EditorAction::Move(Direction::Home, shift),
        KeyCode::End => EditorAction::Move(Direction::End, shift),
        KeyCode::Backspace => EditorAction::Backspace,
        KeyCode::Delete => EditorAction::Delete,
        KeyCode::Enter => EditorAction::Newline,
        KeyCode::Tab => EditorAction::Insert(char_to_string('\t')),
        KeyCode::Esc => EditorAction::ClearSelection,
        KeyCode::Char(character) => if !control && !alt {
            EditorAction::Insert(char_to_string(character))
        } else {
            EditorAction::NoAction
        },
        KeyCode::Other => EditorAction::NoAction,
    }
}

/// The text area in a terminal of `size`: the width less the gutter, the height
/// less the status line.
pub open spec fn content_size_spec(size: (u16, u16), line_count: nat) -> (usize, usize) {
    (
        sat_sub(size.0 as int, (decimal_digit_count_spec(line_count) + 2) as int) as usize,
        sat_sub(size.1 as int, 1) as usize,
    )
}

pub fn content_size(size: (u16, u16), line_count: usize) -> (r: (usize, usize))
    ensures
        r == content_size_spec(size, line_count as nat),
{
    let (width, height) = size;
    ((width as usize).saturating_sub(line_number_gutter_width(line_count)), height.saturating_sub(1) as usize)
}

/// The text position under a screen cell: outside the text rows there is none;
/// otherwise the cell, less the gutter and plus the scroll offsets, clamped into
/// the text.
pub open spec fn position_for_mouse_spec(d: DocumentView, column: u16, row: u16) -> Option<Position> {
    let viewport = d.viewport;
    if viewport.width == 0 || row >= viewport.height {
        None
    } else {
        let gutter = (decimal_digit_count_spec(d.lines.len()) + 2) as int;
        let text_column = sat_sub(column as int, gutter);
        Some(clamp_position_spec(d.lines, Position {
            line: (viewport.offset_y + row) as usize,
            column: (viewport.offset_x + text_column) as usize,
        }))
    }
}

/// The cell's text coordinates, where the screen shows text there, fit in a `usize`.
pub open spec fn mouse_cell_fits(d: DocumentView, column: u16, row: u16) -> bool {
    let viewport = d.viewport;
    let gutter = (decimal_digit_count_spec(d.lines.len()) + 2) as int;
    viewport.width == 0 || row >= viewport.height || (viewport.offset_y + row <= usize::MAX
        && viewport.offset_x + sat_sub(column as int, gutter) <= usize::MAX)
}

/// A left click or drag, which places the cursor at the cell under the mouse.
pub open spec fn places_cursor(mouse: MouseEvent) -> bool {
    mouse.kind == MouseEventKind::Down(MouseButton::Left) || mouse.kind == MouseEventKind::Drag(
        MouseButton::Left,
    )
}

pub fn position_for_mouse(document: &Document, column: u16, row: u16) -> (p: Option<Position>)
    requires
        mouse_cell_fits(document@, column, row),
    ensures
        p == position_for_mouse_spec(document@, column, row),
{
    let viewport = document.viewport();
    if viewport.width == 0 || row as usize >= viewport.height {
        return None;
    }
    let gutter_width = line_number_gutter_width(document.buffer().line_count());
    let text_column = (column as usize).saturating_sub(gutter_width);
    Some(document.buffer().clamp_position(Position::new(
        viewport.offset_y + row as usize,
        viewport.offset_x + text_column,
    )))
}

/// One call that the editor made on its clipboard, and how it ended.
pub enum ClipboardCall {
    /// `write` with this text; `true` where it returned `Ok`.
    Write(Seq<char>, bool),
    /// `read`: the text where it returned `Ok`, `None` where it returned an error.
    Read(Option<Seq<char>>),
}

pub struct Editor {
    documents: Vec<Document>,
    current_document_index: usize,
    terminal: Terminal,
    clipboard: Box<dyn Clipboard>,
    /// The calls made on the clipboard so far, oldest first.
    clipboard_calls: Ghost<Seq<ClipboardCall>>,
}

/// The document that a fresh editor shows, sized to the terminal.
pub open spec fn startup_document(size: (u16, u16)) -> DocumentView {
    let empty = DocumentView {
        lines: seq![Seq::<char>::empty()],
        path: None,
        cursor: collapsed_state(Position { line: 0, column: 0 }),
        viewport: Viewport { width: 0, height: 0, offset_x: 0, offset_y: 0 },
        history: empty_history(),
    };
    let (width, height) = content_size_spec(size, 1);
    set_viewport_size_spec(empty, width, height)
}

impl Editor {
    pub closed spec fn documents_view(&self) -> Seq<DocumentView> {
        self.documents@.map_values(|d: Document| d@)
    }

    pub closed spec fn current_index(&self) -> int {
        self.current_document_index as int
    }

    pub closed spec fn terminal_size(&self) -> (u16, u16) {
        self.terminal@
    }

    /// The calls made on the clipboard so far, oldest first.
    pub closed spec fn clipboard_calls(&self) -> Seq<ClipboardCall> {
        self.clipboard_calls@
    }

    /// At least one document is open, the current one is among them, and every
    /// open document is consistent.
    pub open spec fn wf(&self) -> bool {
        &&& 0 <= self.current_index() < self.documents_view().len()
        &&& forall|i: int|
            0 <= i < self.documents_view().len() ==> #[trigger] self.documents_view()[i].consistent()
    }

    pub open spec fn current_view(&self) -> DocumentView {
        self.documents_view()[self.current_index()]
    }

    /// The documents of `self` differ from those of `old` only in that the current
    /// document became `d`; the current index and the terminal size are the same.
    pub open spec fn changed_documents_to(&self, old: &Editor, d: DocumentView) -> bool {
        &&& self.documents_view() == old.documents_view().update(old.current_index(), d)
        &&& self.current_index() == old.current_index()
        &&& self.terminal_size() == old.terminal_size()
    }

    /// `self` differs from `old` only in that the current document became `d`; in
    /// particular no call was made on the clipboard.
    pub open spec fn changed_current_to(&self, old: &Editor, d: DocumentView) -> bool {
        &&& self.changed_documents_to(old, d)
        &&& self.clipboard_calls() == old.clipboard_calls()
    }

    pub fn new(terminal: Terminal) -> (e: Self)
        ensures
            e.wf(),
            e.clipboard_calls() == Seq::<ClipboardCall>::empty(),
            e.documents_view() == seq![startup_document(terminal@)],
            e.current_index() == 0,
            e.terminal_size() == terminal@,
    {
        Self::with_clipboard(Box::new(MemoryClipboard::default()), terminal)
    }

    pub fn with_clipboard(clipboard: Box<dyn Clipboard>, terminal: Terminal) -> (e: Self)
        ensures
            e.wf(),
            e.clipboard_calls() == Seq::<ClipboardCall>::empty(),
            e.documents_view() == seq![startup_document(terminal@)],
            e.current_index() == 0,
            e.terminal_size() == terminal@,
    {
        let mut document = Document::default();
        let (width, height) = content_size(terminal.size(), document.buffer().line_count());
        document.set_viewport_size(width, height);
        let mut documents: Vec<Document> = Vec::new();
        documents.push(document);
        let e = Editor {
            documents,
            current_document_index: 0,
            terminal,
            clipboard,
            clipboard_calls: Ghost(Seq::empty()),
        };
        proof {
            assert(e.documents_view() =~= seq![startup_document(terminal@)]);
        }
        e
    }

    /// Opens a buffer read from a file: it replaces the untouched startup document,
    /// else it becomes a new document; either way it becomes the current one.
    pub fn open_file(&mut self, buffer: Buffer)
        requires
            old(self).wf(),
        ensures
            final(self).wf(),
            final(self).terminal_size() == old(self).terminal_size(),
            final(self).clipboard_calls() == old(self).clipboard_calls(),
            ({
                let (width, height) = content_size_spec(old(self).terminal_size(), buffer@.len());
                let opened = set_viewport_size_spec(
                    DocumentView {
                        lines: buffer@,
                        path: buffer.path_spec(),
                        cursor: collapsed_state(Position { line: 0, column: 0 }),
                        viewport: Viewport { width: 0, height: 0, offset_x: 0, offset_y: 0 },
                        history: empty_history(),
                    },
                    width,
                    height,
                );
                let docs = old(self).documents_view();
                if docs.len() == 1 && docs[0].path is None && !docs[0].history.is_modified() {
                    final(self).documents_view() == seq![opened] && final(self).current_index() == 0
                } else {
                    final(self).documents_view() == docs.push(opened)
                        && final(self).current_index() == docs.len()
                }
            }),
    {
        let mut document = Document::new(buffer);
        let (width, height) = content_size(self.terminal.size(), document.buffer().line_count());
        document.set_viewport_size(width, height);
        let ghost old_docs = self.documents@;
        if self.documents.len() == 1 && self.documents[0].buffer().path().is_none()
            && !self.documents[0].is_modified() {
            self.documents.set(0, document);
            self.current_document_index = 0;
            proof {
                assert(self.documents_view() =~= seq![self.documents@[0]@]);
            }
        } else {
            self.documents.push(document);
            self.current_document_index = self.documents.len() - 1;
            proof {
                assert(self.documents_view() =~= old_docs.map_values(|d: Document| d@).push(self.documents@[old_docs.len() as int]@));
            }
        }
    }

    pub fn terminal(&self) -> (t: &Terminal)
        ensures
            t@ == self.terminal_size(),
    {
        &self.terminal
    }

    pub fn current_document(&self) -> (d: &Document)
        requires
            self.wf(),
        ensures
            d@ == self.current_view(),
    {
        &self.documents[self.current_document_index]
    }

    /// Sizes the current document's view to the text area of the terminal.
    pub fn sync_current_viewport_size(&mut self)
        requires
            old(self).wf(),
        ensures
            ({
                let d = old(self).current_view();
                let (width, height) = content_size_spec(old(self).terminal_size(), d.lines.len());
                final(self).changed_current_to(old(self), set_viewport_size_spec(d, width, height))
            }),
            final(self).wf(),
    {
        let i = self.current_document_index;
        let line_count = self.documents[i].buffer().line_count();
        let (width, height) = content_size(self.terminal.size(), line_count);
        let ghost old_docs = self.documents@;
        self.documents[i].set_viewport_size(width, height);
        proof {
            assert(self.documents_view() =~= old_docs.map_values(|d: Document| d@).update(i as int, self.documents@[i as int]@));
        }
    }

    /// Writes `text` to the clipboard, and logs the call with whether it succeeded.
    fn write_clipboard(&mut self, text: &str) -> (r: io::Result<()>)
        ensures
            final(self).clipboard_calls() == old(self).clipboard_calls().push(
                ClipboardCall::Write(text@, r is Ok),
            ),
            final(self).documents == old(self).documents,
            final(self).current_document_index == old(self).current_document_index,
            final(self).terminal == old(self).terminal,
    {
        let r = self.clipboard.write(text);
        self.clipboard_calls = Ghost(self.clipboard_calls@.push(ClipboardCall::Write(text@, r is Ok)));
        r
    }

    /// Reads the clipboard, and logs the call with the text it gave, if any.
    fn read_clipboard(&mut self) -> (r: io::Result<String>)
        ensures
            final(self).clipboard_calls() == old(self).clipboard_calls().push(
                ClipboardCall::Read(text_read(r)),
            ),
            final(self).documents == old(self).documents,
            final(self).current_document_index == old(self).current_document_index,
            final(self).terminal == old(self).terminal,
    {
        let r = self.clipboard.read();
        self.clipboard_calls = Ghost(self.clipboard_calls@.push(ClipboardCall::Read(text_read(r))));
        r
    }

    /// Copies the selected text, if any, to the clipboard.
    fn copy_to_clipboard(&mut self) -> (r: io::Result<bool>)
        requires
            old(self).wf(),
        ensures
            final(self).wf(),
            action_step(old(self), final(self), ActionView::Copy, result_outcome(r)),
    {
        let i = self.current_document_index;
        let ghost old_docs = self.documents_view();
        proof {
            assert(old_docs.update(i as int, old_docs[i as int]) =~= old_docs);
        }
        match self.documents[i].selected_text() {
            Some(text) => match self.write_clipboard(text.as_str()) {
                Ok(()) => Ok(false),
                Err(error) => Err(error),
            },
            None => Ok(false),
        }
    }

    /// Cuts the selected text, if any, and writes it to the clipboard.
    fn cut_to_clipboard(&mut self) -> (r: io::Result<bool>)
        requires
            old(self).wf(),
            old(self).current_view().can_record(),
        ensures
            final(self).wf(),
            action_step(old(self), final(self), ActionView::Cut, result_outcome(r)),
    {
        let i = self.current_document_index;
        let ghost old_docs = self.documents@;
        let cut = self.documents[i].cut_selection();
        proof {
            lemma_update_keeps_consistency(old_docs.map_values(|d: Document| d@), i as int, self.documents@[i as int]@);
            assert(self.documents_view() =~= old_docs.map_values(|d: Document| d@).update(
                i as int,
                self.documents@[i as int]@,
            ));
        }
        match cut {
            Some(text) => match self.write_clipboard(text.as_str()) {
                Ok(()) => Ok(false),
                Err(error) => Err(error),
            },
            None => Ok(false),
        }
    }

    /// Reads the clipboard and types what it holds at the cursor.
    fn paste_from_clipboard(&mut self) -> (r: io::Result<bool>)
        requires
            old(self).wf(),
            old(self).current_view().can_record(),
        ensures
            final(self).wf(),
            action_step(old(self), final(self), ActionView::Paste, result_outcome(r)),
    {
        let i = self.current_document_index;
        let ghost old_docs = self.documents@;
        let ghost cur = self.current_view();
        let ghost old_calls = self.clipboard_calls@;
        match self.read_clipboard() {
            Ok(text) => {
                self.documents[i].insert_text(text.as_str());
                proof {
                    assert(self.clipboard_calls@.drop_last() =~= old_calls);
                    lemma_update_keeps_consistency(old_docs.map_values(|d: Document| d@), i as int, self.documents@[i as int]@);
                    assert(self.documents_view() =~= old_docs.map_values(|d: Document| d@).update(
                        i as int,
                        insert_text_spec(cur, text@),
                    ));
                }
                Ok(false)
            },
            Err(error) => {
                proof {
                    assert(self.clipboard_calls@.drop_last() =~= old_calls);
                    assert(self.documents_view() =~= old_docs.map_values(|d: Document| d@).update(
                        i as int,
                        cur,
                    ));
                }
                Err(error)
            },
        }
    }

    /// Applies a key's action to the current document, using the clipboard for
    /// copy, cut and paste; `Ok(true)` asks to quit. Only a failed clipboard call
    /// gives an error.
    pub fn handle_action(&mut self, action: EditorAction) -> (r: io::Result<bool>)
        requires
            old(self).wf(),
            may_record(action@) ==> old(self).current_view().can_record(),
        ensures
            final(self).wf(),
            action_step(old(self), final(self), action@, result_outcome(r)),
    {
        match action {
            EditorAction::Copy => self.copy_to_clipboard(),
            EditorAction::Cut => self.cut_to_clipboard(),
            EditorAction::Paste => self.paste_from_clipboard(),
            EditorAction::Quit => {
                proof {
                    let docs = self.documents_view();
                    assert(docs.update(self.current_index(), docs[self.current_index()]) =~= docs);
                }
                Ok(true)
            },
            _ => {
                let i = self.current_document_index;
                let ghost old_docs = self.documents@;
                apply_to_document(&mut self.documents[i], &action);
                proof {
                    lemma_update_keeps_consistency(old_docs.map_values(|d: Document| d@), i as int, self.documents@[i as int]@);
                    assert(self.documents_view() =~= old_docs.map_values(|d: Document| d@).update(
                        i as int,
                        self.documents@[i as int]@,
                    ));
                }
                Ok(false)
            },
        }
    }

    /// Applies a mouse event to the current document; `true` when the screen
    /// needs drawing again.
    pub fn handle_mouse(&mut self, mouse: MouseEvent) -> (redraw: bool)
        requires
            old(self).wf(),
            places_cursor(mouse) ==> mouse_cell_fits(old(self).current_view(), mouse.column, mouse.row),
        ensures
            final(self).wf(),
            (final(self).current_view(), redraw) == mouse_effect(old(self).current_view(), mouse),
            final(self).changed_current_to(old(self), final(self).current_view()),
    {
        let i = self.current_document_index;
        let ghost old_docs = self.documents@;
        let redraw = match mouse.kind {
            MouseEventKind::Down(MouseButton::Left) => {
                match position_for_mouse(&self.documents[i], mouse.column, mouse.row) {
                    Some(position) => {
                        let extend = mouse.modifiers.shift;
                        self.documents[i].set_cursor(position, extend);
                        true
                    },
                    None => false,
                }
            },
            MouseEventKind::Drag(MouseButton::Left) => {
                match position_for_mouse(&self.documents[i], mouse.column, mouse.row) {
                    Some(position) => {
                        self.documents[i].set_cursor(position, true);
                        true
                    },
                    None => false,
                }
            },
            MouseEventKind::ScrollUp => {
                self.documents[i].scroll_lines(-3);
                true
            },
            MouseEventKind::ScrollDown => {
                self.documents[i].scroll_lines(3);
                true
            },
            _ => false,
        };
        proof {
            assert(self.documents_view() =~= old_docs.map_values(|d: Document| d@).update(
                i as int,
                self.documents@[i as int]@,
            ));
        }
        redraw
    }

    /// Applies one input event; the outcome says whether to quit, redraw, or wait.
    pub fn handle_event(&mut self, event: Event) -> (r: io::Result<EventOutcome>)
        requires
            old(self).wf(),
            event matches Event::Key(key) ==> ((key.kind is Press || key.kind is Repeat)
                && may_record(action_for_key_spec(key)) ==> old(self).current_view().can_record()),
            event is Paste ==> old(self).current_view().can_record(),
            event matches Event::Mouse(mouse) ==> (places_cursor(mouse) ==> mouse_cell_fits(
                old(self).current_view(),
                mouse.column,
                mouse.row,
            )),
        ensures
            final(self).wf(),
            match event {
                Event::Key(key) => if key.kind is Press || key.kind is Repeat {
                    &&& (r matches Ok(outcome) ==> !(outcome is Ignore))
                    &&& action_step(
                        old(self),
                        final(self),
                        action_for_key_spec(key),
                        match r {
                            Ok(outcome) => Some(outcome is Quit),
                            Err(_) => None,
                        },
                    )
                } else {
                    r matches Ok(outcome) && outcome is Ignore && final(self).changed_current_to(
                        old(self),
                        old(self).current_view(),
                    )
                },
                Event::Paste(text) => r matches Ok(outcome) && outcome is Redraw
                    && final(self).changed_current_to(
                    old(self),
                    insert_text_spec(old(self).current_view(), text@),
                ),
                Event::Mouse(mouse) => {
                    let (d, redraw) = mouse_effect(old(self).current_view(), mouse);
                    r matches Ok(outcome) && (if redraw { outcome is Redraw } else { outcome is Ignore })
                        && final(self).changed_current_to(old(self), d)
                },
                Event::Resize(width, height) => {
                    &&& r matches Ok(outcome) && outcome is Redraw
                    &&& final(self).clipboard_calls() == old(self).clipboard_calls()
                    &&& final(self).documents_view() == old(self).documents_view()
                    &&& final(self).current_index() == old(self).current_index()
                    &&& final(self).terminal_size() == (width, height)
                },
                Event::Other => r matches Ok(outcome) && outcome is Ignore
                    && final(self).changed_current_to(old(self), old(self).current_view()),
            },
    {
        let ghost old_docs = self.documents_view();
        proof {
            assert(old_docs.update(self.current_index(), old_docs[self.current_index()]) =~= old_docs);
        }
        match event {
            Event::Key(key) => {
                if !is_actionable_key(key) {
                    return Ok(EventOutcome::Ignore);
                }
                match self.handle_action(action_for_key(key)) {
                    Ok(true) => Ok(EventOutcome::Quit),
                    Ok(false) => Ok(EventOutcome::Redraw),
                    Err(error) => Err(error),
                }
            },
            Event::Paste(text) => {
                let i = self.current_document_index;
                let ghost old = self.documents@;
                self.documents[i].insert_text(text.as_str());
                proof {
                    assert(self.documents_view() =~= old.map_values(|d: Document| d@).update(
                        i as int,
                        self.documents@[i as int]@,
                    ));
                }
                Ok(EventOutcome::Redraw)
            },
            Event::Mouse(mouse) => {
                if self.handle_mouse(mouse) {
                    Ok(EventOutcome::Redraw)
                } else {
                    Ok(EventOutcome::Ignore)
                }
            },
            Event::Resize(width, height) => {
                self.terminal.resize(width, height);
                Ok(EventOutcome::Redraw)
            },
            Event::Other => Ok(EventOutcome::Ignore),
        }
    }
}

/// Replacing one consistent document by another keeps every document consistent.
proof fn lemma_update_keeps_consistency(docs: Seq<DocumentView>, i: int, d: DocumentView)
    requires
        0 <= i < docs.len(),
        forall|j: int| 0 <= j < docs.len() ==> #[trigger] docs[j].consistent(),
        docs[i].consistent() ==> d.consistent(),
    ensures
        forall|j: int| 0 <= j < docs.len() ==> #[trigger] docs.update(i, d)[j].consistent(),
{
    assert forall|j: int| 0 <= j < docs.len() implies #[trigger] docs.update(i, d)[j].consistent() by {
        if j != i {
            assert(docs.update(i, d)[j] == docs[j]);
        }
    }
}

/// Applies an action that needs no clipboard to one document.
fn apply_to_document(document: &mut Document, action: &EditorAction)
    requires
        !(action@ is Quit || action@ is Copy || action@ is Cut || action@ is Paste),
        may_record(action@) ==> old(document)@.can_record(),
    ensures
        final(document)@ == action_effect(old(document)@, action@),
        old(document)@.consistent() ==> final(document)@.consistent(),
{
    match action {
        EditorAction::Move(direction, selecting) => document.move_cursor(*direction, *selecting),
        EditorAction::Insert(text) => document.insert_text(text.as_str()),
        EditorAction::Newline => document.insert_newline(),
        EditorAction::Backspace => document.backspace(),
        EditorAction::Delete => document.delete(),
        EditorAction::Undo => document.undo(),
        EditorAction::Redo => document.redo(),
        EditorAction::SelectAll => document.select_all(),
        EditorAction::ClearSelection => document.clear_selection(),
        _ => {},
    }
}

/// What a result says: `Some` of its value where it is `Ok`, `None` where it is an error.
pub open spec fn result_outcome(r: io::Result<bool>) -> Option<bool> {
    match r {
        Ok(quit) => Some(quit),
        Err(_) => None,
    }
}

/// The text that a clipboard read gave, or `None` where it failed.
pub open spec fn text_read(r: io::Result<String>) -> Option<Seq<char>> {
    match r {
        Ok(text) => Some(text@),
        Err(_) => None,
    }
}

/// The selected text of a document, if it has a selection.
pub open spec fn selection_text(d: DocumentView) -> Option<Seq<char>> {
    match selection_of(d.cursor) {
        Some(range) => Some(text_in_range_spec(d.lines, clamp_range_spec(d.lines, range))),
        None => None,
    }
}

/// The clipboard part of copy and cut: without a selection nothing is called and
/// the action succeeds; with one, exactly the selected text is written once, and
/// the action fails exactly when that write does.
pub open spec fn writes_selection(old: &Editor, new: &Editor, text: Option<Seq<char>>, outcome: Option<bool>) -> bool {
    match text {
        None => new.clipboard_calls() == old.clipboard_calls() && outcome == Some(false),
        Some(t) => {
            &&& new.clipboard_calls() == old.clipboard_calls().push(ClipboardCall::Write(t, outcome is Some))
            &&& outcome is Some ==> outcome == Some(false)
        },
    }
}

/// What an action does to the editor, with `outcome` the result (`Some(quit)` for
/// `Ok(quit)`, `None` for an error). Copy writes the selection to the clipboard;
/// cut removes it from the document, whatever the write gives; paste reads the
/// clipboard once and, where that succeeds, types exactly the text read; every
/// other action makes no clipboard call and succeeds, asking to quit exactly for
/// Quit. An error comes only from a failed clipboard call.
pub open spec fn action_step(old: &Editor, new: &Editor, action: ActionView, outcome: Option<bool>) -> bool {
    let cur = old.current_view();
    match action {
        ActionView::Copy => {
            &&& new.changed_documents_to(old, cur)
            &&& writes_selection(old, new, selection_text(cur), outcome)
        },
        ActionView::Cut => {
            &&& new.changed_documents_to(old, action_effect(cur, action))
            &&& writes_selection(old, new, selection_text(cur), outcome)
        },
        ActionView::Paste => {
            &&& new.clipboard_calls().len() == old.clipboard_calls().len() + 1
            &&& new.clipboard_calls().drop_last() == old.clipboard_calls()
            &&& match new.clipboard_calls().last() {
                ClipboardCall::Read(Some(text)) => outcome == Some(false)
                    && new.changed_documents_to(old, insert_text_spec(cur, text)),
                ClipboardCall::Read(None) => outcome is None && new.changed_documents_to(old, cur),
                ClipboardCall::Write(_, _) => false,
            }
        },
        _ => {
            &&& outcome == Some(action is Quit)
            &&& new.changed_current_to(old, action_effect(cur, action))
        },
    }
}

/// The actions that may record an edit in the document's history.
pub open spec fn may_record(action: ActionView) -> bool {
    action is Insert || action is Newline || action is Backspace || action is Delete
        || action is Cut || action is Paste
}

/// What an action that needs no clipboard text does to a document.
pub open spec fn action_effect(d: DocumentView, action: ActionView) -> DocumentView {
    match action {
        ActionView::Move(direction, selecting) => move_cursor_spec(d, direction, selecting),
        ActionView::Insert(text) => insert_text_spec(d, text),
        ActionView::Newline => insert_text_spec(d, seq!['\n']),
        ActionView::Backspace => backspace_spec(d),
        ActionView::Delete => delete_spec(d),
        ActionView::Undo => undo_spec(d),
        ActionView::Redo => redo_spec(d),
        ActionView::Cut => match selection_of(d.cursor) {
            Some(range) => apply_edit_spec(d, range, Seq::empty()),
            None => d,
        },
        ActionView::SelectAll => select_all_spec(d),
        ActionView::ClearSelection => DocumentView { cursor: clear_selection_spec(d.cursor), ..d },
        _ => d,
    }
}

/// What a mouse event does to a document, and whether the screen changes: a left
/// click places the cursor (extending the selection with Shift), a left drag
/// extends the selection, and the wheel scrolls three lines.
pub open spec fn mouse_effect(d: DocumentView, mouse: MouseEvent) -> (DocumentView, bool) {
    match mouse.kind {
        MouseEventKind::Down(MouseButton::Left) => match position_for_mouse_spec(d, mouse.column, mouse.row) {
            Some(position) => (set_cursor_spec(d, position, mouse.modifiers.shift), true),
            None => (d, false),
        },
        MouseEventKind::Drag(MouseButton::Left) => match position_for_mouse_spec(d, mouse.column, mouse.row) {
            Some(position) => (set_cursor_spec(d, position, true), true),
            None => (d, false),
        },
        MouseEventKind::ScrollUp => (
            DocumentView { viewport: scroll_vertical_spec(d.viewport, -3, d.lines.len() as int), ..d },
            true,
        ),
        MouseEventKind::ScrollDown => (
            DocumentView { viewport: scroll_vertical_spec(d.viewport, 3, d.lines.len() as int), ..d },
            true,
        ),
        _ => (d, false),
    }
}

} // verus!
