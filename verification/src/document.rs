//! A buffer together with its cursor, viewport and undo history: the editing actions.
use std::path::PathBuf;

use vstd::prelude::*;

use crate::buffer::{
    clamp_position_spec, clamp_range_spec, lemma_clamp_range_is_in, lemma_removed_range,
    lemma_replace_round_trip, line_len_spec, position_after_spec, replace_range_spec,
    text_in_range_spec, Buffer, ChangeView,
};
use crate::cursor::{
    clear_selection_spec, collapsed_state, selection_of, set_position_spec,
    start_selection_spec, Cursor, CursorState, Position, TextRange,
};
use crate::history::{
    cursor_in, empty_history, record_spec, redo_history_spec, redo_lines_spec, undo_history_spec,
    undo_lines_spec, EditHistory, HistoryView,
};
use crate::consistency::{
    lemma_edit_keeps_consistency, lemma_move_keeps_consistency, lemma_redo_keeps_consistency,
    lemma_select_all_keeps_consistency, lemma_set_cursor_keeps_consistency,
    lemma_undo_keeps_consistency, lemma_view_actions_keep_consistency,
};
use crate::lines::lines_wf;
use crate::viewport::{ensure_visible_spec, scroll_vertical_spec, Viewport};

verus! {

#[derive(Clone, Copy, Debug, PartialEq, Eq, Structural)]
pub enum Direction {
    Up,
    Down,
    Left,
    Right,
    Home,
    End,
}

/// A document as values: its lines, its file, its cursor, its viewport, its history.
#[verifier::ext_equal]
pub struct DocumentView {
    pub lines: Seq<Seq<char>>,
    pub path: Option<PathBuf>,
    pub cursor: CursorState,
    pub viewport: Viewport,
    pub history: HistoryView,
}

impl DocumentView {
    /// What every document keeps: valid lines, recorded changes whose ranges fit,
    /// and a next revision number newer than all in use.
    pub open spec fn valid(self) -> bool {
        lines_wf(self.lines) && self.history.entries_fit() && self.history.revisions_fresh()
    }

    /// A valid document whose history fits its text and whose cursor lies inside it.
    pub open spec fn consistent(self) -> bool {
        &&& self.valid()
        &&& self.history.matches_text(self.lines)
        &&& cursor_in(self.lines, self.cursor)
    }

    /// Room for one more recorded edit.
    pub open spec fn can_record(self) -> bool {
        self.history.next_revision < u64::MAX
    }
}

/// The document with its viewport scrolled just enough to show the cursor.
pub open spec fn reveal_cursor_spec(d: DocumentView) -> DocumentView {
    DocumentView { viewport: ensure_visible_spec(d.viewport, d.cursor.position), ..d }
}

/// The document after replacing the text of `range` by `t`: the cursor collapses
/// at the end of the inserted text, the edit is recorded with the cursor on both
/// sides, and the view follows the cursor.
pub open spec fn apply_edit_spec(d: DocumentView, range: TextRange, t: Seq<char>) -> DocumentView {
    let r = clamp_range_spec(d.lines, range);
    let change = ChangeView { start: r.start, removed: text_in_range_spec(d.lines, r), inserted: t };
    let after = collapsed_state(position_after_spec(r.start, t));
    DocumentView {
        lines: replace_range_spec(d.lines, r, t),
        cursor: after,
        viewport: ensure_visible_spec(d.viewport, after.position),
        history: record_spec(d.history, change, d.cursor, after),
        path: d.path,
    }
}

/// The range that typing replaces: the selection, or the empty range at the cursor.
pub open spec fn typing_range(c: CursorState) -> TextRange {
    match selection_of(c) {
        Some(selection) => selection,
        None => TextRange { start: c.position, end: c.position },
    }
}

pub open spec fn insert_text_spec(d: DocumentView, t: Seq<char>) -> DocumentView {
    apply_edit_spec(d, typing_range(d.cursor), t)
}

/// Backspace: delete the selection, else the character before the cursor, else
/// join with the previous line; at the very start nothing happens.
pub open spec fn backspace_spec(d: DocumentView) -> DocumentView {
    match selection_of(d.cursor) {
        Some(selection) => apply_edit_spec(d, selection, Seq::empty()),
        None => {
            let p = d.cursor.position;
            if p.column > 0 {
                apply_edit_spec(
                    d,
                    TextRange { start: Position { line: p.line, column: (p.column - 1) as usize }, end: p },
                    Seq::empty(),
                )
            } else if p.line > 0 {
                let line = (p.line - 1) as usize;
                apply_edit_spec(
                    d,
                    TextRange {
                        start: Position { line, column: line_len_spec(d.lines, line as int) as usize },
                        end: p,
                    },
                    Seq::empty(),
                )
            } else {
                d
            }
        },
    }
}

/// Delete: delete the selection, else the character after the cursor, else join
/// with the next line; at the very end nothing happens.
pub open spec fn delete_spec(d: DocumentView) -> DocumentView {
    match selection_of(d.cursor) {
        Some(selection) => apply_edit_spec(d, selection, Seq::empty()),
        None => {
            let p = d.cursor.position;
            if p.column < line_len_spec(d.lines, p.line as int) {
                apply_edit_spec(
                    d,
                    TextRange { start: p, end: Position { line: p.line, column: (p.column + 1) as usize } },
                    Seq::empty(),
                )
            } else if p.line + 1 < d.lines.len() {
                apply_edit_spec(
                    d,
                    TextRange { start: p, end: Position { line: (p.line + 1) as usize, column: 0 } },
                    Seq::empty(),
                )
            } else {
                d
            }
        },
    }
}

/// Select all: the selection runs from the start of the text to its end, with the
/// cursor at the end.
pub open spec fn select_all_spec(d: DocumentView) -> DocumentView {
    let last = d.lines.len() - 1;
    let end = Position { line: last as usize, column: line_len_spec(d.lines, last) as usize };
    reveal_cursor_spec(
        DocumentView {
            cursor: CursorState {
                position: end,
                preferred_column: end.column,
                selection_anchor: Some(Position { line: 0, column: 0 }),
            },
            ..d
        },
    )
}

pub open spec fn undo_spec(d: DocumentView) -> DocumentView {
    if d.history.undo.len() == 0 {
        d
    } else {
        reveal_cursor_spec(
            DocumentView {
                lines: undo_lines_spec(d.lines, d.history),
                cursor: d.history.undo.last().cursor_before,
                history: undo_history_spec(d.history),
                ..d
            },
        )
    }
}

pub open spec fn redo_spec(d: DocumentView) -> DocumentView {
    if d.history.redo.len() == 0 {
        d
    } else {
        reveal_cursor_spec(
            DocumentView {
                lines: redo_lines_spec(d.lines, d.history),
                cursor: d.history.redo.last().cursor_after,
                history: redo_history_spec(d.history),
                ..d
            },
        )
    }
}

/// Where one step in `direction` takes a cursor at `p` that aims vertical moves at
/// column `preferred`, and whether the step sets the aimed-at column anew.
pub open spec fn move_target(ls: Seq<Seq<char>>, p: Position, preferred: usize, direction: Direction) -> (Position, bool) {
    let len = line_len_spec(ls, p.line as int);
    match direction {
        Direction::Left => if p.column > 0 {
            (Position { line: p.line, column: (p.column - 1) as usize }, true)
        } else if p.line > 0 {
            let line = (p.line - 1) as usize;
            (Position { line, column: line_len_spec(ls, line as int) as usize }, true)
        } else {
            (p, false)
        },
        Direction::Right => if p.column < len {
            (Position { line: p.line, column: (p.column + 1) as usize }, true)
        } else if p.line + 1 < ls.len() {
            (Position { line: (p.line + 1) as usize, column: 0 }, true)
        } else {
            (p, false)
        },
        Direction::Up => if p.line > 0 {
            let line = (p.line - 1) as usize;
            let target = line_len_spec(ls, line as int);
            (Position { line, column: (if preferred <= target { preferred as int } else { target }) as usize }, false)
        } else {
            (p, false)
        },
        Direction::Down => if p.line + 1 < ls.len() {
            let line = (p.line + 1) as usize;
            let target = line_len_spec(ls, line as int);
            (Position { line, column: (if preferred <= target { preferred as int } else { target }) as usize }, false)
        } else {
            (p, false)
        },
        Direction::Home => (Position { line: p.line, column: 0 }, true),
        Direction::End => (Position { line: p.line, column: len as usize }, true),
    }
}

/// A cursor move: without extending, an existing selection collapses to its start
/// (for Left, Home, Up) or its end (else); otherwise the cursor takes one step, with
/// the selection anchored first when extending and dropped when not.
pub open spec fn move_cursor_spec(d: DocumentView, direction: Direction, extend_selection: bool) -> DocumentView {
    if !extend_selection && selection_of(d.cursor) is Some {
        let selection = selection_of(d.cursor)->0;
        let target = match direction {
            Direction::Left | Direction::Home | Direction::Up => selection.start,
            _ => selection.end,
        };
        reveal_cursor_spec(DocumentView { cursor: collapsed_state(target), ..d })
    } else {
        let c = if extend_selection {
            start_selection_spec(d.cursor)
        } else {
            clear_selection_spec(d.cursor)
        };
        let (target, update) = move_target(d.lines, c.position, c.preferred_column, direction);
        reveal_cursor_spec(DocumentView { cursor: set_position_spec(c, target, update), ..d })
    }
}

/// Placing the cursor: clamped into the text, extending or dropping the selection.
pub open spec fn set_cursor_spec(d: DocumentView, position: Position, extend_selection: bool) -> DocumentView {
    let c = if extend_selection {
        start_selection_spec(d.cursor)
    } else {
        clear_selection_spec(d.cursor)
    };
    reveal_cursor_spec(
        DocumentView { cursor: set_position_spec(c, clamp_position_spec(d.lines, position), true), ..d },
    )
}

pub open spec fn set_viewport_size_spec(d: DocumentView, width: usize, height: usize) -> DocumentView {
    if d.viewport.width == width && d.viewport.height == height {
        d
    } else {
        reveal_cursor_spec(
            DocumentView { viewport: Viewport { width, height, ..d.viewport }, ..d },
        )
    }
}

#[derive(Debug)]
pub struct Document {
    buffer: Buffer,
    cursor: Cursor,
    viewport: Viewport,
    history: EditHistory,
}

impl View for Document {
    type V = DocumentView;

    closed spec fn view(&self) -> DocumentView {
        DocumentView {
            lines: self.buffer@,
            path: self.buffer.path_spec(),
            cursor: self.cursor@,
            viewport: self.viewport,
            history: self.history@,
        }
    }
}

impl Document {
    pub fn new(buffer: Buffer) -> (d: Self)
        ensures
            d@ == (DocumentView {
                lines: buffer@,
                path: buffer.path_spec(),
                cursor: collapsed_state(Position { line: 0, column: 0 }),
                viewport: Viewport { width: 0, height: 0, offset_x: 0, offset_y: 0 },
                history: empty_history(),
            }),
            d@.consistent(),
    {
        proof {
            use_type_invariant(&buffer);
        }
        let d = Document {
            buffer,
            cursor: Cursor::new(),
            viewport: Viewport::new(0, 0),
            history: EditHistory::default(),
        };
        d
    }

    pub fn buffer(&self) -> (b: &Buffer)
        ensures
            b@ == self@.lines,
            b.path_spec() == self@.path,
    {
        &self.buffer
    }

    pub fn cursor(&self) -> (c: &Cursor)
        ensures
            c@ == self@.cursor,
    {
        &self.cursor
    }

    pub fn viewport(&self) -> (v: &Viewport)
        ensures
            *v == self@.viewport,
    {
        &self.viewport
    }

    pub fn set_viewport_size(&mut self, width: usize, height: usize)
        ensures
            old(self)@.consistent() ==> final(self)@.consistent(),
            final(self)@ == set_viewport_size_spec(old(self)@, width, height),
    {
        let ghost before = self@;
        if self.viewport.width == width && self.viewport.height == height {
            return;
        }
        self.viewport.set_size(width, height);
        self.reveal_cursor();
        proof {
            if before.consistent() {
                lemma_view_actions_keep_consistency(before, width, height, 0);
            }
        }
    }

    pub fn set_cursor(&mut self, position: Position, extend_selection: bool)
        ensures
            old(self)@.consistent() ==> final(self)@.consistent(),
            final(self)@ == set_cursor_spec(old(self)@, position, extend_selection),
    {
        let ghost before = self@;
        let clamped = self.buffer.clamp_position(position);
        if extend_selection {
            self.cursor.start_selection();
        } else {
            self.cursor.clear_selection();
        }
        self.cursor.set_position(clamped, true);
        self.reveal_cursor();
        proof {
            if before.consistent() {
                lemma_set_cursor_keeps_consistency(before, position, extend_selection);
            }
        }
    }

    pub fn scroll_lines(&mut self, lines: isize)
        ensures
            old(self)@.consistent() ==> final(self)@.consistent(),
            final(self)@ == (DocumentView {
                viewport: scroll_vertical_spec(old(self)@.viewport, lines as int, old(self)@.lines.len() as int),
                ..old(self)@
            }),
    {
        let ghost before = self@;
        let count = self.buffer.line_count();
        self.viewport.scroll_vertical(lines, count);
        proof {
            if before.consistent() {
                lemma_view_actions_keep_consistency(before, 0, 0, lines as int);
            }
        }
    }

    /// Whether one more edit can be recorded (its revision number fits in a `u64`).
    pub fn can_record(&self) -> (b: bool)
        ensures
            b == self@.can_record(),
    {
        self.history.can_record()
    }

    pub fn is_modified(&self) -> (b: bool)
        ensures
            b == self@.history.is_modified(),
    {
        self.history.is_modified()
    }

    pub fn insert_text(&mut self, text: &str)
        requires
            old(self)@.can_record(),
        ensures
            old(self)@.consistent() ==> final(self)@.consistent(),
            final(self)@ == insert_text_spec(old(self)@, text@),
            final(self)@.valid(),
    {
        let range = match self.cursor.selection() {
            Some(selection) => selection,
            None => TextRange::empty(self.cursor.position()),
        };
        self.apply_edit(range, text);
    }

    pub fn insert_newline(&mut self)
        requires
            old(self)@.can_record(),
        ensures
            old(self)@.consistent() ==> final(self)@.consistent(),
            final(self)@ == insert_text_spec(old(self)@, seq!['\n']),
            final(self)@.valid(),
    {
        proof {
            reveal_strlit("\n");
            assert("\n"@ =~= seq!['\n']);
        }
        self.insert_text("\n");
    }

    pub fn backspace(&mut self)
        requires
            old(self)@.can_record(),
        ensures
            old(self)@.consistent() ==> final(self)@.consistent(),
            final(self)@ == backspace_spec(old(self)@),
            final(self)@.valid(),
    {
        proof {
            use_type_invariant(&self.buffer);
            use_type_invariant(&self.history);
            reveal_strlit("");
            assert(""@ =~= Seq::<char>::empty());
        }
        if let Some(selection) = self.cursor.selection() {
            self.apply_edit(selection, "");
            return;
        }
        let position = self.cursor.position();
        let start = if position.column > 0 {
            Position::new(position.line, position.column - 1)
        } else if position.line > 0 {
            Position::new(position.line - 1, self.buffer.line_len(position.line - 1))
        } else {
            return;
        };
        self.apply_edit(TextRange::new(start, position), "");
    }

    pub fn delete(&mut self)
        requires
            old(self)@.can_record(),
        ensures
            old(self)@.consistent() ==> final(self)@.consistent(),
            final(self)@ == delete_spec(old(self)@),
            final(self)@.valid(),
    {
        proof {
            use_type_invariant(&self.buffer);
            use_type_invariant(&self.history);
            reveal_strlit("");
            assert(""@ =~= Seq::<char>::empty());
        }
        if let Some(selection) = self.cursor.selection() {
            self.apply_edit(selection, "");
            return;
        }
        let position = self.cursor.position();
        let count = self.buffer.line_count();
        let end = if position.column < self.buffer.line_len(position.line) {
            Position::new(position.line, position.column + 1)
        } else if position.line < count - 1 {
            Position::new(position.line + 1, 0)
        } else {
            return;
        };
        self.apply_edit(TextRange::new(position, end), "");
    }

    pub fn selected_text(&self) -> (t: Option<String>)
        ensures
            match selection_of(self@.cursor) {
                Some(range) => t matches Some(s) && s@ == text_in_range_spec(
                    self@.lines,
                    clamp_range_spec(self@.lines, range),
                ),
                None => t is None,
            },
    {
        match self.cursor.selection() {
            Some(range) => Some(self.buffer.text_in_range(range)),
            None => None,
        }
    }

    pub fn cut_selection(&mut self) -> (t: Option<String>)
        requires
            old(self)@.can_record(),
        ensures
            old(self)@.consistent() ==> final(self)@.consistent(),
            match selection_of(old(self)@.cursor) {
                Some(range) => {
                    &&& t matches Some(s) && s@ == text_in_range_spec(
                        old(self)@.lines,
                        clamp_range_spec(old(self)@.lines, range),
                    )
                    &&& final(self)@ == apply_edit_spec(old(self)@, range, Seq::empty())
                },
                None => t is None && final(self)@ == old(self)@,
            },
            final(self)@.valid(),
    {
        proof {
            use_type_invariant(&self.buffer);
            use_type_invariant(&self.history);
            reveal_strlit("");
            assert(""@ =~= Seq::<char>::empty());
        }
        let range = match self.cursor.selection() {
            Some(range) => range,
            None => return None,
        };
        let text = self.buffer.text_in_range(range);
        self.apply_edit(range, "");
        Some(text)
    }

    pub fn select_all(&mut self)
        ensures
            old(self)@.consistent() ==> final(self)@.consistent(),
            final(self)@ == select_all_spec(old(self)@),
    {
        let ghost before = self@;
        let end_line = self.buffer.line_count() - 1;
        let end = Position::new(end_line, self.buffer.line_len(end_line));
        self.cursor.collapse_to(Position::new(0, 0));
        self.cursor.start_selection();
        self.cursor.set_position(end, true);
        self.reveal_cursor();
        proof {
            if before.consistent() {
                lemma_select_all_keeps_consistency(before);
            }
        }
    }

    pub fn clear_selection(&mut self)
        ensures
            old(self)@.consistent() ==> final(self)@.consistent(),
            final(self)@ == (DocumentView { cursor: clear_selection_spec(old(self)@.cursor), ..old(self)@ }),
    {
        let ghost before = self@;
        self.cursor.clear_selection();
        proof {
            if before.consistent() {
                lemma_view_actions_keep_consistency(before, 0, 0, 0);
            }
        }
    }

    pub fn undo(&mut self)
        ensures
            old(self)@.consistent() ==> final(self)@.consistent(),
            final(self)@ == undo_spec(old(self)@),
            final(self)@.valid(),
    {
        let ghost before = self@;
        if let Some(cursor) = self.history.undo(&mut self.buffer) {
            self.cursor.restore(cursor);
            self.reveal_cursor();
        }
        proof {
            use_type_invariant(&self.buffer);
            use_type_invariant(&self.history);
        }
        proof {
            if before.consistent() {
                lemma_undo_keeps_consistency(before);
            }
        }
    }

    pub fn redo(&mut self)
        ensures
            old(self)@.consistent() ==> final(self)@.consistent(),
            final(self)@ == redo_spec(old(self)@),
            final(self)@.valid(),
    {
        let ghost before = self@;
        if let Some(cursor) = self.history.redo(&mut self.buffer) {
            self.cursor.restore(cursor);
            self.reveal_cursor();
        }
        proof {
            use_type_invariant(&self.buffer);
            use_type_invariant(&self.history);
        }
        proof {
            if before.consistent() {
                lemma_redo_keeps_consistency(before);
            }
        }
    }

    pub fn move_cursor(&mut self, direction: Direction, extend_selection: bool)
        ensures
            old(self)@.consistent() ==> final(self)@.consistent(),
            final(self)@ == move_cursor_spec(old(self)@, direction, extend_selection),
    {
        let ghost before = self@;
        proof {
            use_type_invariant(&self.buffer);
            use_type_invariant(&self.history);
        }
        if extend_selection {
            self.cursor.start_selection();
        } else if let Some(selection) = self.cursor.selection() {
            let collapse_position = match direction {
                Direction::Left | Direction::Home | Direction::Up => selection.start,
                Direction::Right | Direction::End | Direction::Down => selection.end,
            };
            self.cursor.collapse_to(collapse_position);
            self.reveal_cursor();
            return;
        } else {
            self.cursor.clear_selection();
        }
        let position = self.cursor.position();
        let preferred_column = self.cursor.preferred_column();
        let count = self.buffer.line_count();
        let (new_position, update_preferred_column) = match direction {
            Direction::Left => if position.column > 0 {
                (Position::new(position.line, position.column - 1), true)
            } else if position.line > 0 {
                let line = position.line - 1;
                (Position::new(line, self.buffer.line_len(line)), true)
            } else {
                (position, false)
            },
            Direction::Right => if position.column < self.buffer.line_len(position.line) {
                (Position::new(position.line, position.column + 1), true)
            } else if position.line < count - 1 {
                (Position::new(position.line + 1, 0), true)
            } else {
                (position, false)
            },
            Direction::Up => if position.line > 0 {
                let line = position.line - 1;
                let len = self.buffer.line_len(line);
                (Position::new(line, if preferred_column <= len { preferred_column } else { len }), false)
            } else {
                (position, false)
            },
            Direction::Down => if position.line < count - 1 {
                let line = position.line + 1;
                let len = self.buffer.line_len(line);
                (Position::new(line, if preferred_column <= len { preferred_column } else { len }), false)
            } else {
                (position, false)
            },
            Direction::Home => (Position::new(position.line, 0), true),
            Direction::End => (Position::new(position.line, self.buffer.line_len(position.line)), true),
        };
        self.cursor.set_position(new_position, update_preferred_column);
        self.reveal_cursor();
        proof {
            if before.consistent() {
                lemma_move_keeps_consistency(before, direction, extend_selection);
            }
        }
    }

    fn apply_edit(&mut self, range: TextRange, replacement: &str)
        requires
            old(self)@.can_record(),
        ensures
            old(self)@.consistent() ==> final(self)@.consistent(),
            final(self)@ == apply_edit_spec(old(self)@, range, replacement@),
            final(self)@.valid(),
    {
        proof {
            use_type_invariant(&self.buffer);
            use_type_invariant(&self.history);
        }
        let ghost before = self@;
        let cursor_before = self.cursor.snapshot();
        let change = self.buffer.replace_range(range, replacement);
        proof {
            let r = clamp_range_spec(before.lines, range);
            lemma_clamp_range_is_in(before.lines, range);
            lemma_removed_range(before.lines, r);
            lemma_replace_round_trip(before.lines, r, replacement@);
        }
        let cursor_after = CursorState::collapsed(change.inserted_range().end);
        self.cursor.restore(cursor_after);
        self.history.record(change, cursor_before, cursor_after);
        self.reveal_cursor();
        proof {
            use_type_invariant(&self.buffer);
            use_type_invariant(&self.history);
        }
        proof {
            if before.consistent() {
                lemma_edit_keeps_consistency(before, range, replacement@);
            }
        }
    }

    fn reveal_cursor(&mut self)
        ensures
            final(self)@ == reveal_cursor_spec(old(self)@),
    {
        let position = self.cursor.position();
        self.viewport.ensure_visible(position);
    }
}

impl Default for Document {
    fn default() -> (d: Self)
        ensures
            d@ == (DocumentView {
                lines: seq![Seq::<char>::empty()],
                path: None,
                cursor: collapsed_state(Position { line: 0, column: 0 }),
                viewport: Viewport { width: 0, height: 0, offset_x: 0, offset_y: 0 },
                history: empty_history(),
            }),
    {
        Self::new(Buffer::new())
    }
}

} // verus!
