//! What the editing, moving, key and mouse actions do, stated over the lines,
//! the cursor and the viewport before and after.
use vstd::prelude::*;

use crate::buffer::{
    lemma_clamp_range_in, position_after_spec, position_in, range_in,
    replace_range_spec,
};
use crate::cursor::{collapsed_state, selection_of, Position, TextRange};
use crate::document::{
    backspace_spec, delete_spec, insert_text_spec, move_cursor_spec, select_all_spec, Direction,
    DocumentView,
};
use crate::history::cursor_in;
use crate::editor::{
    action_for_key_spec, mouse_effect, position_for_mouse_spec, ActionView, KeyCode, KeyEvent,
    MouseButton, MouseEvent, MouseEventKind,
};
use crate::lines::{lemma_split_single, lines_wf, no_newline, split_lines};
use crate::terminal::decimal_digit_count_spec;
use crate::viewport::Viewport;

verus! {

/// A part of a line holds no line feed.
proof fn lemma_line_parts(ls: Seq<Seq<char>>, l: int, a: int, b: int)
    requires
        lines_wf(ls),
        0 <= l < ls.len(),
        0 <= a <= ls[l].len(),
        0 <= b <= ls[l].len(),
    ensures
        no_newline(ls[l]),
        no_newline(ls[l].take(a)),
        no_newline(ls[l].skip(b)),
{
    assert(no_newline(ls[l]));
    assert forall|i: int| 0 <= i < ls[l].take(a).len() implies ls[l].take(a)[i] != '\n' by {
        assert(ls[l].take(a)[i] == ls[l][i]);
    }
    assert forall|i: int| 0 <= i < ls[l].skip(b).len() implies ls[l].skip(b)[i] != '\n' by {
        assert(ls[l].skip(b)[i] == ls[l][b + i]);
    }
}

/// Removing the columns `a..b` of line `l` changes that line alone.
proof fn lemma_remove_within_line(ls: Seq<Seq<char>>, l: int, a: int, b: int)
    requires
        lines_wf(ls),
        0 <= l < ls.len(),
        0 <= a <= b <= ls[l].len(),
    ensures
        replace_range_spec(
            ls,
            TextRange {
                start: Position { line: l as usize, column: a as usize },
                end: Position { line: l as usize, column: b as usize },
            },
            Seq::empty(),
        ) == ls.update(l, ls[l].take(a) + ls[l].skip(b)),
{
    lemma_line_parts(ls, l, a, b);
    let x = ls[l].take(a) + Seq::<char>::empty() + ls[l].skip(b);
    assert(x =~= ls[l].take(a) + ls[l].skip(b));
    assert(no_newline(x)) by {
        assert forall|i: int| 0 <= i < x.len() implies x[i] != '\n' by {
            if i < a {
                assert(x[i] == ls[l].take(a)[i]);
            } else {
                assert(x[i] == ls[l].skip(b)[i - a]);
            }
        }
    }
    lemma_split_single(x);
    assert(ls.subrange(0, l) + seq![x] + ls.subrange(l + 1, ls.len() as int) =~= ls.update(
        l,
        ls[l].take(a) + ls[l].skip(b),
    ));
}

/// Removing the line feed at the end of line `l` joins it with the next line.
proof fn lemma_join_lines_at(ls: Seq<Seq<char>>, l: int)
    requires
        lines_wf(ls),
        0 <= l,
        l + 1 < ls.len(),
    ensures
        replace_range_spec(
            ls,
            TextRange {
                start: Position { line: l as usize, column: ls[l].len() as usize },
                end: Position { line: (l + 1) as usize, column: 0 },
            },
            Seq::empty(),
        ) == ls.take(l) + seq![ls[l] + ls[l + 1]] + ls.skip(l + 2),
{
    lemma_line_parts(ls, l, ls[l].len() as int, 0);
    lemma_line_parts(ls, l + 1, 0, 0);
    let x = ls[l].take(ls[l].len() as int) + Seq::<char>::empty() + ls[l + 1].skip(0);
    assert(x =~= ls[l] + ls[l + 1]);
    assert(no_newline(x)) by {
        assert forall|i: int| 0 <= i < x.len() implies x[i] != '\n' by {
            if i < ls[l].len() {
                assert(x[i] == ls[l][i]);
            } else {
                assert(x[i] == ls[l + 1][i - ls[l].len()]);
            }
        }
    }
    lemma_split_single(x);
    assert(ls.subrange(0, l) + seq![x] + ls.subrange(l + 2, ls.len() as int) =~= ls.take(l) + seq![
        ls[l] + ls[l + 1],
    ] + ls.skip(l + 2));
}

/// Inserting nothing ends where it starts.
proof fn lemma_empty_ends_at_start(start: Position)
    ensures
        position_after_spec(start, Seq::empty()) == start,
{
    assert(split_lines(Seq::<char>::empty()) =~= seq![Seq::<char>::empty()]);
}

/// Delete without a selection: inside a line it removes the character after the
/// cursor; at the end of a line that is not the last it joins the next line onto
/// it, so there is one line fewer; at the very end of the text it changes
/// nothing. The cursor stays where it was, with no selection.
pub proof fn lemma_delete_removes_the_next_character(d: DocumentView)
    requires
        d.valid(),
        cursor_in(d.lines, d.cursor),
        selection_of(d.cursor) is None,
    ensures
        ({
            let ls = d.lines;
            let p = d.cursor.position;
            let l = p.line as int;
            let c = p.column as int;
            let n = delete_spec(d);
            &&& c < ls[l].len() ==> n.lines == ls.update(l, ls[l].take(c) + ls[l].skip(c + 1))
                && n.cursor == collapsed_state(p)
            &&& c == ls[l].len() && l + 1 < ls.len() ==> n.lines == ls.take(l) + seq![
                ls[l] + ls[l + 1],
            ] + ls.skip(l + 2) && n.lines.len() + 1 == ls.len() && n.cursor == collapsed_state(p)
            &&& c == ls[l].len() && l + 1 == ls.len() ==> n == d
        }),
{
    let ls = d.lines;
    let p = d.cursor.position;
    let l = p.line as int;
    let c = p.column as int;
    lemma_empty_ends_at_start(p);
    if c < ls[l].len() {
        let r = TextRange { start: p, end: Position { line: p.line, column: (c + 1) as usize } };
        assert(range_in(ls, r));
        lemma_clamp_range_in(ls, r);
        lemma_remove_within_line(ls, l, c, c + 1);
    } else if l + 1 < ls.len() {
        let r = TextRange { start: p, end: Position { line: (l + 1) as usize, column: 0 } };
        assert(range_in(ls, r));
        lemma_clamp_range_in(ls, r);
        lemma_join_lines_at(ls, l);
    }
}

/// Backspace without a selection: inside a line it removes the character before
/// the cursor, which moves back one column; at the start of a line that is not
/// the first it joins that line onto the previous one, so there is one line
/// fewer, and the cursor goes to where the two met; at the very start of the
/// text it changes nothing.
pub proof fn lemma_backspace_removes_the_previous_character(d: DocumentView)
    requires
        d.valid(),
        cursor_in(d.lines, d.cursor),
        selection_of(d.cursor) is None,
    ensures
        ({
            let ls = d.lines;
            let p = d.cursor.position;
            let l = p.line as int;
            let c = p.column as int;
            let n = backspace_spec(d);
            &&& c > 0 ==> n.lines == ls.update(l, ls[l].take(c - 1) + ls[l].skip(c))
                && n.cursor == collapsed_state(Position { line: p.line, column: (c - 1) as usize })
            &&& c == 0 && l > 0 ==> n.lines == ls.take(l - 1) + seq![ls[l - 1] + ls[l]] + ls.skip(
                l + 1,
            ) && n.lines.len() + 1 == ls.len() && n.cursor == collapsed_state(
                Position { line: (l - 1) as usize, column: ls[l - 1].len() as usize },
            )
            &&& c == 0 && l == 0 ==> n == d
        }),
{
    let ls = d.lines;
    let p = d.cursor.position;
    let l = p.line as int;
    let c = p.column as int;
    if c > 0 {
        let start = Position { line: p.line, column: (c - 1) as usize };
        lemma_empty_ends_at_start(start);
        let r = TextRange { start, end: p };
        assert(range_in(ls, r));
        lemma_clamp_range_in(ls, r);
        lemma_remove_within_line(ls, l, c - 1, c);
    } else if l > 0 {
        let start = Position { line: (l - 1) as usize, column: ls[l - 1].len() as usize };
        lemma_empty_ends_at_start(start);
        let r = TextRange { start, end: p };
        assert(range_in(ls, r));
        lemma_clamp_range_in(ls, r);
        lemma_join_lines_at(ls, l - 1);
        assert(ls.take(l - 1) + seq![ls[l - 1] + ls[l - 1 + 1]] + ls.skip(l - 1 + 2) == ls.take(l - 1)
            + seq![ls[l - 1] + ls[l]] + ls.skip(l + 1));
    }
}

/// The selection anchor after a move or a click that extends the selection
/// (the anchor already there, else the old position) or does not (none).
pub open spec fn anchor_after(d: DocumentView, extend_selection: bool) -> Option<Position> {
    if extend_selection {
        match d.cursor.selection_anchor {
            Some(anchor) => Some(anchor),
            None => Some(d.cursor.position),
        }
    } else {
        None
    }
}

/// A cursor move leaves the text and the history alone and only touches the cursor
/// and the view.
pub open spec fn only_cursor_moved(d: DocumentView, n: DocumentView) -> bool {
    n.lines == d.lines && n.history == d.history && n.path == d.path
        && n.viewport.width == d.viewport.width && n.viewport.height == d.viewport.height
}

/// Each arrow, Home and End moves the cursor (when there is no selection, or when
/// the move extends it): Left one character back, to the end of the previous line
/// from the start of a line; Right one character on, to the start of the next
/// line from the end of a line; neither past the ends of the text; Home and End
/// to the ends of the line; Up and Down one line, to the preferred column or the
/// end of a shorter line, staying put on the first or last line. Extending keeps
/// the selection's anchor (or anchors at the old position); otherwise no
/// selection is left. Horizontal moves aim later vertical moves at the new
/// column; vertical moves keep the preferred column.
pub proof fn lemma_moves_step_through_the_text(d: DocumentView, extend_selection: bool)
    requires
        d.valid(),
        cursor_in(d.lines, d.cursor),
        extend_selection || selection_of(d.cursor) is None,
    ensures
        ({
            let ls = d.lines;
            let p = d.cursor.position;
            let l = p.line as int;
            let c = p.column as int;
            let pref = d.cursor.preferred_column as int;
            let left = move_cursor_spec(d, Direction::Left, extend_selection);
            let right = move_cursor_spec(d, Direction::Right, extend_selection);
            let up = move_cursor_spec(d, Direction::Up, extend_selection);
            let down = move_cursor_spec(d, Direction::Down, extend_selection);
            let home = move_cursor_spec(d, Direction::Home, extend_selection);
            let end = move_cursor_spec(d, Direction::End, extend_selection);
            let anchor = anchor_after(d, extend_selection);
            &&& only_cursor_moved(d, left) && left.cursor.selection_anchor == anchor
            &&& only_cursor_moved(d, right) && right.cursor.selection_anchor == anchor
            &&& only_cursor_moved(d, up) && up.cursor.selection_anchor == anchor
            &&& only_cursor_moved(d, down) && down.cursor.selection_anchor == anchor
            &&& only_cursor_moved(d, home) && home.cursor.selection_anchor == anchor
            &&& only_cursor_moved(d, end) && end.cursor.selection_anchor == anchor
            &&& c > 0 ==> left.cursor.position == Position { line: p.line, column: (c - 1) as usize }
            &&& c == 0 && l > 0 ==> left.cursor.position == Position {
                line: (l - 1) as usize,
                column: ls[l - 1].len() as usize,
            }
            &&& c == 0 && l == 0 ==> left.cursor.position == p
            &&& c < ls[l].len() ==> right.cursor.position == Position { line: p.line, column: (c + 1) as usize }
            &&& c == ls[l].len() && l + 1 < ls.len() ==> right.cursor.position == Position {
                line: (l + 1) as usize,
                column: 0,
            }
            &&& c == ls[l].len() && l + 1 == ls.len() ==> right.cursor.position == p
            &&& home.cursor.position == Position { line: p.line, column: 0 }
            &&& end.cursor.position == Position { line: p.line, column: ls[l].len() as usize }
            &&& l > 0 ==> up.cursor.position == Position {
                line: (l - 1) as usize,
                column: (if pref <= ls[l - 1].len() { pref } else { ls[l - 1].len() as int }) as usize,
            }
            &&& l == 0 ==> up.cursor.position == p
            &&& l + 1 < ls.len() ==> down.cursor.position == Position {
                line: (l + 1) as usize,
                column: (if pref <= ls[l + 1].len() { pref } else { ls[l + 1].len() as int }) as usize,
            }
            &&& l + 1 == ls.len() ==> down.cursor.position == p
            &&& (c > 0 || l > 0) ==> left.cursor.preferred_column == left.cursor.position.column
            &&& (c < ls[l].len() || l + 1 < ls.len()) ==> right.cursor.preferred_column
                == right.cursor.position.column
            &&& home.cursor.preferred_column == 0
            &&& end.cursor.preferred_column == ls[l].len()
            &&& up.cursor.preferred_column == pref && down.cursor.preferred_column == pref
        }),
{
}

/// Without extending, a move with a selection drops it and puts the cursor at the
/// selection's start (Left, Home, Up) or end (Right, End, Down).
pub proof fn lemma_moves_collapse_the_selection(d: DocumentView, direction: Direction)
    requires
        selection_of(d.cursor) is Some,
    ensures
        ({
            let r = selection_of(d.cursor)->0;
            let n = move_cursor_spec(d, direction, false);
            &&& only_cursor_moved(d, n)
            &&& n.cursor.selection_anchor is None
            &&& (direction is Left || direction is Home || direction is Up) ==> n.cursor.position == r.start
            &&& (direction is Right || direction is End || direction is Down) ==> n.cursor.position == r.end
        }),
{
}

/// Left then Right comes back to where it started, from anywhere but the start of
/// the text; Right then Left, from anywhere but its end.
pub proof fn lemma_left_and_right_undo_each_other(d: DocumentView)
    requires
        d.valid(),
        cursor_in(d.lines, d.cursor),
        selection_of(d.cursor) is None,
    ensures
        ({
            let p = d.cursor.position;
            let ls = d.lines;
            let left = move_cursor_spec(d, Direction::Left, false);
            let right = move_cursor_spec(d, Direction::Right, false);
            &&& (p.line > 0 || p.column > 0) ==> move_cursor_spec(left, Direction::Right, false).cursor.position == p
            &&& (p.line + 1 < ls.len() || p.column < ls[p.line as int].len()) ==> move_cursor_spec(
                right,
                Direction::Left,
                false,
            ).cursor.position == p
        }),
{
    lemma_moves_step_through_the_text(d, false);
    let left = move_cursor_spec(d, Direction::Left, false);
    let right = move_cursor_spec(d, Direction::Right, false);
    assert(cursor_in(left.lines, left.cursor));
    assert(cursor_in(right.lines, right.cursor));
    lemma_moves_step_through_the_text(left, false);
    lemma_moves_step_through_the_text(right, false);
}

/// Every key maps to its own action: an arrow, Home or End (with Ctrl or not) to
/// a move in its own direction, selecting exactly when Shift is held; Backspace,
/// Delete, Enter, Tab and Esc to deleting back, deleting forward, a line break,
/// a tab and dropping the selection; a character typed without Ctrl or Alt to
/// inserting it; and Ctrl with a letter to its shortcut, in either case.
pub proof fn lemma_keys_map_to_their_actions(key: KeyEvent)
    ensures
        ({
            let shift = key.modifiers.shift;
            let control = key.modifiers.control;
            let alt = key.modifiers.alt;
            let a = action_for_key_spec(key);
            &&& key.code is Up ==> a == ActionView::Move(Direction::Up, shift)
            &&& key.code is Down ==> a == ActionView::Move(Direction::Down, shift)
            &&& key.code is Left ==> a == ActionView::Move(Direction::Left, shift)
            &&& key.code is Right ==> a == ActionView::Move(Direction::Right, shift)
            &&& key.code is Home ==> a == ActionView::Move(Direction::Home, shift)
            &&& key.code is End ==> a == ActionView::Move(Direction::End, shift)
            &&& key.code is Backspace ==> a == ActionView::Backspace
            &&& key.code is Delete ==> a == ActionView::Delete
            &&& key.code is Enter ==> a == ActionView::Newline
            &&& key.code is Tab ==> a == ActionView::Insert(seq!['\t'])
            &&& key.code is Esc ==> a == ActionView::ClearSelection
            &&& key.code is Other ==> a == ActionView::NoAction
            &&& key.code matches KeyCode::Char(ch) ==> {
                &&& !control && !alt ==> a == ActionView::Insert(seq![ch])
                &&& !control && alt ==> a == ActionView::NoAction
                &&& control && (ch == 'q' || ch == 'Q') ==> a == ActionView::Quit
                &&& control && (ch == 'z' || ch == 'Z') && !shift ==> a == ActionView::Undo
                &&& control && (ch == 'z' || ch == 'Z') && shift ==> a == ActionView::Redo
                &&& control && (ch == 'y' || ch == 'Y') ==> a == ActionView::Redo
                &&& control && (ch == 'c' || ch == 'C') ==> a == ActionView::Copy
                &&& control && (ch == 'x' || ch == 'X') ==> a == ActionView::Cut
                &&& control && (ch == 'v' || ch == 'V') ==> a == ActionView::Paste
                &&& control && (ch == 'a' || ch == 'A') ==> a == ActionView::SelectAll
            }
        }),
{
}

/// The text position under a screen cell: none outside the text area (an empty
/// view, or the status row and below); otherwise a position inside the text,
/// which is exactly the cell's line and column (past the line-number gutter,
/// shifted by the view's offsets) whenever those lie in the text.
pub proof fn lemma_mouse_cell_is_the_text_under_it(d: DocumentView, column: u16, row: u16)
    requires
        lines_wf(d.lines),
    ensures
        ({
            let v = d.viewport;
            let gutter = decimal_digit_count_spec(d.lines.len()) + 2;
            let cell = position_for_mouse_spec(d, column, row);
            let under = Position {
                line: (v.offset_y + row) as usize,
                column: (v.offset_x + column - gutter) as usize,
            };
            &&& (v.width == 0 || row >= v.height) ==> cell is None
            &&& (v.width > 0 && row < v.height) ==> (cell matches Some(q) && position_in(d.lines, q))
            &&& (v.width > 0 && row < v.height && column >= gutter && v.offset_y + row <= usize::MAX
                && v.offset_x + column - gutter <= usize::MAX && position_in(d.lines, under))
                ==> cell == Some(under)
        }),
{
}

/// The mouse: a left click puts the cursor on the text under it, extending the
/// selection when Shift is held and dropping it otherwise; a left drag puts the
/// cursor there and extends the selection from where it was anchored (or from
/// where the cursor was); a click or drag outside the text area changes nothing.
/// The wheel moves the view's first line three lines up (not above the first
/// line) or three lines down (not past the last page), leaving the text and the
/// cursor alone. Only these redraw.
pub proof fn lemma_mouse_clicks_drags_and_scrolls(d: DocumentView, mouse: MouseEvent)
    requires
        lines_wf(d.lines),
    ensures
        ({
            let (n, redraw) = mouse_effect(d, mouse);
            let v = d.viewport;
            let cell = position_for_mouse_spec(d, mouse.column, mouse.row);
            let rows = if v.height >= 1 { v.height as int } else { 1 };
            let last_page = if d.lines.len() >= rows { d.lines.len() - rows } else { 0 };
            &&& mouse.kind matches MouseEventKind::Down(MouseButton::Left) ==> match cell {
                Some(q) => {
                    &&& n.cursor.position == q
                    &&& n.cursor.selection_anchor == anchor_after(d, mouse.modifiers.shift)
                    &&& only_cursor_moved(d, n)
                    &&& redraw
                },
                None => n == d && !redraw,
            }
            &&& mouse.kind matches MouseEventKind::Drag(MouseButton::Left) ==> match cell {
                Some(q) => {
                    &&& n.cursor.position == q
                    &&& n.cursor.selection_anchor == anchor_after(d, true)
                    &&& only_cursor_moved(d, n)
                    &&& redraw
                },
                None => n == d && !redraw,
            }
            &&& mouse.kind is ScrollUp ==> {
                &&& n.viewport.offset_y == (if v.offset_y >= 3 { v.offset_y - 3 } else { 0 })
                &&& n.viewport.offset_y <= v.offset_y
                &&& n.viewport == (Viewport { offset_y: n.viewport.offset_y, ..v })
                &&& n.lines == d.lines && n.cursor == d.cursor && n.history == d.history
                &&& redraw
            }
            &&& mouse.kind is ScrollDown ==> {
                &&& n.viewport.offset_y == (if v.offset_y + 3 <= last_page { v.offset_y + 3 } else { last_page })
                &&& n.viewport.offset_y <= last_page
                &&& n.viewport == (Viewport { offset_y: n.viewport.offset_y, ..v })
                &&& n.lines == d.lines && n.cursor == d.cursor && n.history == d.history
                &&& redraw
            }
            &&& !(mouse.kind matches MouseEventKind::Down(MouseButton::Left)
                || mouse.kind matches MouseEventKind::Drag(MouseButton::Left)
                || mouse.kind is ScrollUp || mouse.kind is ScrollDown) ==> n == d && !redraw
        }),
{
    lemma_mouse_cell_is_the_text_under_it(d, mouse.column, mouse.row);
}

/// Typing text without line feeds, with no selection, puts it into the cursor's
/// line at the cursor and moves the cursor to just after it.
pub proof fn lemma_typing_goes_in_at_the_cursor(d: DocumentView, t: Seq<char>)
    requires
        d.valid(),
        cursor_in(d.lines, d.cursor),
        selection_of(d.cursor) is None,
        no_newline(t),
        d.cursor.position.column + t.len() <= usize::MAX,
    ensures
        ({
            let ls = d.lines;
            let p = d.cursor.position;
            let l = p.line as int;
            let c = p.column as int;
            let n = insert_text_spec(d, t);
            &&& n.lines == ls.update(l, ls[l].take(c) + t + ls[l].skip(c))
            &&& n.cursor == collapsed_state(Position { line: p.line, column: (c + t.len()) as usize })
        }),
{
    let ls = d.lines;
    let p = d.cursor.position;
    let l = p.line as int;
    let c = p.column as int;
    lemma_line_parts(ls, l, c, c);
    let r = TextRange { start: p, end: p };
    assert(range_in(ls, r));
    lemma_clamp_range_in(ls, r);
    lemma_split_single(t);
    let x = ls[l].take(c) + t + ls[l].skip(c);
    assert(no_newline(x)) by {
        assert forall|i: int| 0 <= i < x.len() implies x[i] != '\n' by {
            if i < c {
                assert(x[i] == ls[l].take(c)[i]);
            } else if i < c + t.len() {
                assert(x[i] == t[i - c]);
            } else {
                assert(x[i] == ls[l].skip(c)[i - c - t.len()]);
            }
        }
    }
    lemma_split_single(x);
    assert(ls.subrange(0, l) + seq![x] + ls.subrange(l + 1, ls.len() as int) =~= ls.update(l, x));
}

/// Select all selects the whole text: anchored at its start, with the cursor at
/// the end of its last line; the text is unchanged.
pub proof fn lemma_select_all_spans_the_text(d: DocumentView)
    requires
        lines_wf(d.lines),
    ensures
        ({
            let n = select_all_spec(d);
            let last = d.lines.len() - 1;
            &&& n.cursor.selection_anchor == Some(Position { line: 0, column: 0 })
            &&& n.cursor.position == Position { line: last as usize, column: d.lines[last].len() as usize }
            &&& only_cursor_moved(d, n)
        }),
{
}

} // verus!
