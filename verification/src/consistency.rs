//! What every editing action keeps of a document, and what undo and redo give back.
use vstd::prelude::*;

use crate::buffer::{
    clamp_range_spec, lemma_clamp_range_in, lemma_clamp_range_is_in,
    lemma_removed_range, lemma_replace_undo_redo, lemma_replace_with_own_text, line_len_spec,
    position_after_spec, position_in, range_in,
    replace_range_spec, text_in_range_spec, ChangeView,
};
use crate::cursor::{
    clear_selection_spec, collapsed_state, selection_of, start_selection_spec, CursorState,
    Position, TextRange,
};
use crate::document::{
    apply_edit_spec, insert_text_spec, move_cursor_spec, move_target, redo_spec, select_all_spec,
    set_cursor_spec, set_viewport_size_spec, typing_range, undo_spec, Direction,
    DocumentView,
};
use crate::history::{
    cursor_in, entry_links, lemma_entries_push, redo_chain, redo_history_spec, redo_lines_spec,
    undo_chain, undo_history_spec, undo_lines_spec, EntryView,
};
use crate::lines::{lemma_split_framed, lines_wf, no_newline, split_lines};
use crate::viewport::scroll_vertical_spec;

verus! {

/// Undo keeps a document consistent.
pub proof fn lemma_undo_keeps_consistency(d: DocumentView)
    requires
        d.consistent(),
    ensures
        undo_spec(d).consistent(),
{
    let h = d.history;
    if h.undo.len() > 0 {
        let ls = d.lines;
        let e = h.undo.last();
        let before = replace_range_spec(ls, e.change.inserted_range(), e.change.removed);
        assert(entry_links(before, ls, e) && undo_chain(before, h.undo.drop_last(), e.revision_before));
        lemma_clamp_range_in(ls, e.change.inserted_range());
        let redo = h.redo.push(e);
        assert(redo.last() == e);
        assert(redo.drop_last() =~= h.redo);
        assert(redo_chain(before, redo, e.revision_before));
        lemma_entries_push(h.undo, e, h.next_revision);
        lemma_entries_push(h.redo, e, h.next_revision);
    }
}

/// Redo keeps a document consistent.
pub proof fn lemma_redo_keeps_consistency(d: DocumentView)
    requires
        d.consistent(),
    ensures
        redo_spec(d).consistent(),
{
    let h = d.history;
    if h.redo.len() > 0 {
        let ls = d.lines;
        let e = h.redo.last();
        let after = replace_range_spec(ls, e.change.removed_range(), e.change.inserted);
        assert(entry_links(ls, after, e) && redo_chain(after, h.redo.drop_last(), e.revision_after));
        lemma_clamp_range_in(ls, e.change.removed_range());
        let undo = h.undo.push(e);
        assert(undo.last() == e);
        assert(undo.drop_last() =~= h.undo);
        assert(undo_chain(after, undo, e.revision_after));
        lemma_entries_push(h.undo, e, h.next_revision);
        lemma_entries_push(h.redo, e, h.next_revision);
    }
}

/// An edit keeps a document consistent (given that the edited text is valid,
/// as every edit that runs makes it).
pub proof fn lemma_edit_keeps_consistency(d: DocumentView, range: TextRange, t: Seq<char>)
    requires
        d.consistent(),
        d.can_record(),
        apply_edit_spec(d, range, t).valid(),
    ensures
        apply_edit_spec(d, range, t).consistent(),
{
    let ls = d.lines;
    let h = d.history;
    let r = clamp_range_spec(ls, range);
    let removed = text_in_range_spec(ls, r);
    let n = replace_range_spec(ls, r, t);
    lemma_clamp_range_is_in(ls, range);
    lemma_removed_range(ls, r);
    lemma_replace_undo_redo(ls, range, t);
    let c = ChangeView { start: r.start, removed, inserted: t };
    let after = collapsed_state(position_after_spec(r.start, t));
    if removed == t {
        lemma_replace_with_own_text(ls, r);
        assert(n == ls);
    } else {
        let e = EntryView {
            change: c,
            cursor_before: d.cursor,
            cursor_after: after,
            revision_before: h.current_revision,
            revision_after: h.next_revision,
        };
        assert(c.removed_range() == r);
        assert(entry_links(ls, n, e));
        let undo = h.undo.push(e);
        assert(undo.last() == e);
        assert(undo.drop_last() =~= h.undo);
        assert(undo_chain(n, undo, h.next_revision));
    }
}

/// The endpoints of a cursor's selection lie inside the text when the cursor does.
proof fn lemma_selection_in(ls: Seq<Seq<char>>, c: CursorState)
    requires
        cursor_in(ls, c),
    ensures
        selection_of(c) matches Some(s) ==> position_in(ls, s.start) && position_in(ls, s.end),
        position_in(ls, typing_range(c).start) && position_in(ls, typing_range(c).end),
{
}

/// One cursor step from a position inside the text stays inside the text.
proof fn lemma_move_target_in(ls: Seq<Seq<char>>, p: Position, preferred: usize, direction: Direction)
    requires
        lines_wf(ls),
        position_in(ls, p),
    ensures
        position_in(ls, move_target(ls, p, preferred, direction).0),
{
}

/// Moving the cursor keeps a document consistent.
pub proof fn lemma_move_keeps_consistency(d: DocumentView, direction: Direction, extend_selection: bool)
    requires
        d.consistent(),
    ensures
        move_cursor_spec(d, direction, extend_selection).consistent(),
{
    lemma_selection_in(d.lines, d.cursor);
    let c = if extend_selection {
        start_selection_spec(d.cursor)
    } else {
        clear_selection_spec(d.cursor)
    };
    lemma_move_target_in(d.lines, c.position, c.preferred_column, direction);
}

/// Placing the cursor keeps a document consistent.
pub proof fn lemma_set_cursor_keeps_consistency(d: DocumentView, position: Position, extend_selection: bool)
    requires
        d.consistent(),
    ensures
        set_cursor_spec(d, position, extend_selection).consistent(),
{
}

/// Selecting all keeps a document consistent.
pub proof fn lemma_select_all_keeps_consistency(d: DocumentView)
    requires
        d.consistent(),
    ensures
        select_all_spec(d).consistent(),
{
}

/// Dropping the selection, resizing the view and scrolling keep a document consistent.
pub proof fn lemma_view_actions_keep_consistency(d: DocumentView, width: usize, height: usize, lines: int)
    requires
        d.consistent(),
    ensures
        (DocumentView { cursor: clear_selection_spec(d.cursor), ..d }).consistent(),
        set_viewport_size_spec(d, width, height).consistent(),
        (DocumentView {
            viewport: scroll_vertical_spec(d.viewport, lines, d.lines.len() as int),
            ..d
        }).consistent(),
{
}

/// Redo right after undo gives back the text and the whole history, revision
/// numbers included (so the modified flag too).
pub proof fn lemma_redo_reverses_undo(d: DocumentView)
    requires
        d.consistent(),
        d.history.undo.len() > 0,
    ensures
        redo_spec(undo_spec(d)).lines == d.lines,
        redo_spec(undo_spec(d)).history == d.history,
{
    let h = d.history;
    let ls = d.lines;
    let e = h.undo.last();
    let before = replace_range_spec(ls, e.change.inserted_range(), e.change.removed);
    assert(entry_links(before, ls, e) && e.revision_after == h.current_revision);
    lemma_clamp_range_in(ls, e.change.inserted_range());
    lemma_clamp_range_in(before, e.change.removed_range());
    let u = undo_spec(d);
    assert(u.lines == before);
    assert(u.history == undo_history_spec(h));
    assert(u.history.redo.last() == e);
    assert(u.history.redo.drop_last() =~= h.redo);
    assert(u.history.undo.push(e) =~= h.undo);
    assert(redo_lines_spec(u.lines, u.history) == ls);
    assert(redo_spec(u).history =~= h);
}

/// Undo right after redo gives back the text and the whole history, revision
/// numbers included.
pub proof fn lemma_undo_reverses_redo(d: DocumentView)
    requires
        d.consistent(),
        d.history.redo.len() > 0,
    ensures
        undo_spec(redo_spec(d)).lines == d.lines,
        undo_spec(redo_spec(d)).history == d.history,
{
    let h = d.history;
    let ls = d.lines;
    let e = h.redo.last();
    let after = replace_range_spec(ls, e.change.removed_range(), e.change.inserted);
    assert(entry_links(ls, after, e) && e.revision_before == h.current_revision);
    lemma_clamp_range_in(ls, e.change.removed_range());
    lemma_clamp_range_in(after, e.change.inserted_range());
    let r = redo_spec(d);
    assert(r.lines == after);
    assert(r.history == redo_history_spec(h));
    assert(r.history.undo.last() == e);
    assert(r.history.undo.drop_last() =~= h.undo);
    assert(r.history.redo.push(e) =~= h.redo);
    assert(undo_lines_spec(r.lines, r.history) == ls);
    assert(undo_spec(r).history =~= h);
}

/// Undo right after an edit that changed the text gives back the text, the cursor,
/// the undo stack and the current revision (so the modified flag) from before the
/// edit; the edit is then the only one to redo, and redoing it gives back the
/// edited text, the cursor after the edit and the history after the edit.
pub proof fn lemma_undo_reverses_edit(d: DocumentView, range: TextRange, t: Seq<char>)
    requires
        d.valid(),
        d.can_record(),
        apply_edit_spec(d, range, t).valid(),
        text_in_range_spec(d.lines, clamp_range_spec(d.lines, range)) != t,
    ensures
        ({
            let e = apply_edit_spec(d, range, t);
            let u = undo_spec(e);
            &&& u.lines == d.lines
            &&& u.cursor == d.cursor
            &&& u.history.undo == d.history.undo
            &&& u.history.current_revision == d.history.current_revision
            &&& u.history.is_modified() == d.history.is_modified()
            &&& u.history.redo.len() == 1
            &&& redo_spec(u).lines == e.lines
            &&& redo_spec(u).cursor == e.cursor
            &&& redo_spec(u).history == e.history
        }),
{
    let ls = d.lines;
    let r = clamp_range_spec(ls, range);
    lemma_clamp_range_is_in(ls, range);
    lemma_removed_range(ls, r);
    lemma_replace_undo_redo(ls, range, t);
    let e = apply_edit_spec(d, range, t);
    let u = undo_spec(e);
    assert(e.history.undo.drop_last() =~= d.history.undo);
    assert(u.history.redo.drop_last() =~= Seq::<EntryView>::empty());
    assert(u.history.undo.push(u.history.redo.last()) =~= e.history.undo);
    assert(redo_spec(u).history =~= e.history);
}

/// An edit that changes the text empties the redo stack, so a redo right after it
/// changes nothing, and it leaves the document modified; an edit that puts back
/// the very text it replaces changes neither the text nor the history.
pub proof fn lemma_edit_clears_redo(d: DocumentView, range: TextRange, t: Seq<char>)
    requires
        d.valid(),
        d.can_record(),
    ensures
        ({
            let e = apply_edit_spec(d, range, t);
            let removed = text_in_range_spec(d.lines, clamp_range_spec(d.lines, range));
            &&& removed != t ==> e.history.redo.len() == 0 && redo_spec(e) == e
                && e.history.is_modified()
            &&& removed == t ==> e.lines == d.lines && e.history == d.history
        }),
{
    let ls = d.lines;
    let r = clamp_range_spec(ls, range);
    lemma_clamp_range_is_in(ls, range);
    if text_in_range_spec(ls, r) == t {
        lemma_replace_with_own_text(ls, r);
    }
}

/// Cutting the selection and then typing the cut text at the cursor gives back the
/// text from before the cut.
pub proof fn lemma_cut_then_paste_restores(d: DocumentView)
    requires
        d.valid(),
        selection_of(d.cursor) is Some,
        apply_edit_spec(d, selection_of(d.cursor)->0, Seq::empty()).valid(),
    ensures
        ({
            let s = selection_of(d.cursor)->0;
            let cut = text_in_range_spec(d.lines, clamp_range_spec(d.lines, s));
            let after_cut = apply_edit_spec(d, s, Seq::empty());
            insert_text_spec(after_cut, cut).lines == d.lines
        }),
{
    let ls = d.lines;
    let s = selection_of(d.cursor)->0;
    let r = clamp_range_spec(ls, s);
    lemma_clamp_range_is_in(ls, s);
    lemma_replace_undo_redo(ls, s, Seq::empty());
    let after_cut = apply_edit_spec(d, s, Seq::empty());
    assert(split_lines(Seq::<char>::empty()) =~= seq![Seq::<char>::empty()]);
    assert(position_after_spec(r.start, Seq::<char>::empty()) == r.start);
    assert(selection_of(after_cut.cursor) is None);
    let at = TextRange { start: r.start, end: r.start };
    assert(typing_range(after_cut.cursor) == at);
}

/// Moving up or down keeps the column that vertical moves aim at, and lands on it
/// whenever the target line is long enough; so a short line in between does not
/// lose the column.
pub proof fn lemma_vertical_moves_keep_preferred_column(d: DocumentView, direction: Direction, extend_selection: bool)
    requires
        direction == Direction::Up || direction == Direction::Down,
        extend_selection || selection_of(d.cursor) is None,
    ensures
        ({
            let m = move_cursor_spec(d, direction, extend_selection);
            &&& m.cursor.preferred_column == d.cursor.preferred_column
            &&& m.cursor.position.line != d.cursor.position.line ==> (d.cursor.preferred_column
                <= line_len_spec(d.lines, m.cursor.position.line as int)
                ==> m.cursor.position.column == d.cursor.preferred_column)
        }),
{
}

/// Placing the cursor, as a mouse click does, always puts it inside the text.
pub proof fn lemma_set_cursor_clamps(d: DocumentView, position: Position, extend_selection: bool)
    requires
        d.valid(),
    ensures
        position_in(d.lines, set_cursor_spec(d, position, extend_selection).cursor.position),
{
}

/// Enter breaks the line: without a selection, the cursor's line is split at the
/// cursor's column into the part before it and, on a new line after it, the rest,
/// and the cursor goes to the start of that new line; with a selection, the
/// selection is replaced by a line break and the cursor goes to the start of the
/// line after the one where the selection began.
pub proof fn lemma_newline_splits_line(d: DocumentView)
    requires
        d.valid(),
        cursor_in(d.lines, d.cursor),
    ensures
        ({
            let n = insert_text_spec(d, seq!['\n']);
            match selection_of(d.cursor) {
                None => {
                    let l = d.cursor.position.line as int;
                    let c = d.cursor.position.column as int;
                    &&& n.lines == d.lines.take(l) + seq![d.lines[l].take(c), d.lines[l].skip(c)]
                        + d.lines.skip(l + 1)
                    &&& n.lines.len() == d.lines.len() + 1
                    &&& n.cursor == collapsed_state(Position { line: (l + 1) as usize, column: 0 })
                },
                Some(r) => {
                    &&& n.lines == replace_range_spec(d.lines, r, seq!['\n'])
                    &&& n.cursor == collapsed_state(
                        Position { line: (r.start.line + 1) as usize, column: 0 },
                    )
                },
            }
        }),
{
    let ls = d.lines;
    let nl = seq!['\n'];
    assert(split_lines(nl) =~= seq![Seq::<char>::empty(), Seq::<char>::empty()]) by {
        assert(nl.drop_last() =~= Seq::<char>::empty());
        assert(nl.last() == '\n');
        assert(split_lines(Seq::<char>::empty()) =~= seq![Seq::<char>::empty()]);
    }
    let r = typing_range(d.cursor);
    assert(range_in(ls, r));
    lemma_clamp_range_in(ls, r);
    let sl = r.start.line as int;
    let el = r.end.line as int;
    let pre = ls[sl].take(r.start.column as int);
    let suf = ls[el].skip(r.end.column as int);
    assert(no_newline(ls[sl]) && no_newline(ls[el]));
    assert(no_newline(pre)) by {
        assert forall|i: int| 0 <= i < pre.len() implies pre[i] != '\n' by {
            assert(pre[i] == ls[sl][i]);
        }
    }
    assert(no_newline(suf)) by {
        assert forall|i: int| 0 <= i < suf.len() implies suf[i] != '\n' by {
            assert(suf[i] == ls[el][r.end.column + i]);
        }
    }
    lemma_split_framed(pre, nl, suf);
    let m = split_lines(pre + nl + suf);
    assert(m =~= seq![pre, suf]) by {
        assert(pre + Seq::<char>::empty() =~= pre);
        assert(Seq::<char>::empty() + suf =~= suf);
    }
    let n = insert_text_spec(d, nl);
    if selection_of(d.cursor) is None {
        assert(sl == el && r.start.column == r.end.column);
        assert(n.lines =~= ls.take(sl) + seq![pre, ls[sl].skip(r.start.column as int)] + ls.skip(sl + 1));
    }
}

} // verus!
