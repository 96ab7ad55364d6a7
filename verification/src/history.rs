//! Undo and redo stacks of edits, with revision numbers for the modified flag.
use vstd::prelude::*;

use crate::buffer::{
    clamp_range_spec, lemma_clamp_range_in, lemma_replace_undo_redo, position_in, range_in,
    replace_range_spec, text_in_range_spec, Buffer, ChangeView, TextChange,
};
use crate::cursor::{CursorState, TextRange};
use crate::lines::lines_wf;

verus! {

#[derive(Debug)]
struct HistoryEntry {
    change: TextChange,
    cursor_before: CursorState,
    cursor_after: CursorState,
    revision_before: u64,
    revision_after: u64,
}

/// One recorded edit: the change, the cursor on each side of it, and the revision
/// numbers on each side of it.
#[verifier::ext_equal]
pub struct EntryView {
    pub change: ChangeView,
    pub cursor_before: CursorState,
    pub cursor_after: CursorState,
    pub revision_before: u64,
    pub revision_after: u64,
}

impl Clone for HistoryEntry {
    fn clone(&self) -> (e: Self)
        ensures
            e@ == self@,
    {
        HistoryEntry {
            change: self.change.clone(),
            cursor_before: self.cursor_before,
            cursor_after: self.cursor_after,
            revision_before: self.revision_before,
            revision_after: self.revision_after,
        }
    }
}

/// A copy of a stack of entries.
fn clone_entries(entries: &Vec<HistoryEntry>) -> (r: Vec<HistoryEntry>)
    ensures
        entries_view(r@) == entries_view(entries@),
{
    let mut r: Vec<HistoryEntry> = Vec::new();
    let n = entries.len();
    for i in 0..n
        invariant
            n == entries@.len(),
            entries_view(r@) == entries_view(entries@).take(i as int),
    {
        let e = entries[i].clone();
        let ghost before = r@;
        r.push(e);
        proof {
            assert(entries_view(r@) =~= entries_view(before).push(entries@[i as int]@));
            assert(entries_view(entries@).take(i + 1) =~= entries_view(entries@).take(i as int).push(
                entries@[i as int]@,
            ));
        }
    }
    proof {
        assert(entries_view(entries@).take(n as int) =~= entries_view(entries@));
    }
    r
}

impl View for HistoryEntry {
    type V = EntryView;

    closed spec fn view(&self) -> EntryView {
        EntryView {
            change: self.change@,
            cursor_before: self.cursor_before,
            cursor_after: self.cursor_after,
            revision_before: self.revision_before,
            revision_after: self.revision_after,
        }
    }
}

spec fn entries_view(v: Seq<HistoryEntry>) -> Seq<EntryView> {
    v.map_values(|e: HistoryEntry| e@)
}

/// The history as values: the undo stack and the redo stack (each with its top
/// at the end), the current and saved revisions, and the next fresh revision.
#[verifier::ext_equal]
pub struct HistoryView {
    pub undo: Seq<EntryView>,
    pub redo: Seq<EntryView>,
    pub current_revision: u64,
    pub saved_revision: u64,
    pub next_revision: u64,
}

impl HistoryView {
    /// Every recorded change has ranges whose coordinates fit in a `usize`.
    pub open spec fn entries_fit(self) -> bool {
        changes_fit(self.undo) && changes_fit(self.redo)
    }

    /// The next revision is newer than every revision in use.
    pub open spec fn revisions_fresh(self) -> bool {
        &&& self.current_revision < self.next_revision
        &&& self.saved_revision < self.next_revision
        &&& revisions_below(self.undo, self.next_revision)
        &&& revisions_below(self.redo, self.next_revision)
    }

    pub open spec fn is_modified(self) -> bool {
        self.current_revision != self.saved_revision
    }

    /// The history fits the text `ls`: undoing the undo stack from the top walks
    /// back through earlier texts and revisions, redoing the redo stack from the top
    /// walks forward, and every step and every remembered cursor fit the texts around it.
    pub open spec fn matches_text(self, ls: Seq<Seq<char>>) -> bool {
        undo_chain(ls, self.undo, self.current_revision) && redo_chain(
            ls,
            self.redo,
            self.current_revision,
        )
    }
}

pub open spec fn changes_fit(s: Seq<EntryView>) -> bool {
    forall|i: int| 0 <= i < s.len() ==> #[trigger] s[i].change.fits()
}

pub open spec fn revisions_below(s: Seq<EntryView>, next: u64) -> bool {
    forall|i: int|
        0 <= i < s.len() ==> #[trigger] s[i].revision_before < next && s[i].revision_after < next
}

#[verifier::spinoff_prover]
pub proof fn lemma_entries_push(s: Seq<EntryView>, e: EntryView, next: u64)
    ensures
        changes_fit(s) && e.change.fits() ==> changes_fit(s.push(e)),
        revisions_below(s, next) && e.revision_before < next && e.revision_after < next
            ==> revisions_below(s.push(e), next),
        s.len() > 0 && changes_fit(s) ==> changes_fit(s.drop_last()) && s.last().change.fits(),
        s.len() > 0 && revisions_below(s, next) ==> revisions_below(s.drop_last(), next)
            && s.last().revision_before < next && s.last().revision_after < next,
        forall|m: u64| revisions_below(s, next) && next <= m ==> #[trigger] revisions_below(s, m),
{
    if changes_fit(s) && e.change.fits() {
        assert forall|i: int| 0 <= i < s.push(e).len() implies #[trigger] s.push(e)[i].change.fits() by {
            if i < s.len() {
                assert(s.push(e)[i] == s[i]);
            }
        }
    }
    if revisions_below(s, next) && e.revision_before < next && e.revision_after < next {
        assert forall|i: int| 0 <= i < s.push(e).len() implies #[trigger] s.push(e)[i].revision_before
            < next && s.push(e)[i].revision_after < next by {
            if i < s.len() {
                assert(s.push(e)[i] == s[i]);
            }
        }
    }
    if s.len() > 0 && changes_fit(s) {
        assert(s.last() == s[s.len() - 1]);
        assert forall|i: int| 0 <= i < s.drop_last().len() implies #[trigger] s.drop_last()[i].change.fits() by {
            assert(s.drop_last()[i] == s[i]);
        }
    }
    if s.len() > 0 && revisions_below(s, next) {
        assert(s.last() == s[s.len() - 1]);
        let k = s.len() - 1;
        assert(0 <= k < s.len());
        assert(s[k].revision_before < next && s[k].revision_after < next);
        assert forall|i: int| 0 <= i < s.drop_last().len() implies #[trigger] s.drop_last()[i].revision_before
            < next && s.drop_last()[i].revision_after < next by {
            assert(s.drop_last()[i] == s[i]);
        }
    }
    assert forall|m: u64| revisions_below(s, next) && next <= m implies #[trigger] revisions_below(s, m) by {
        assert forall|i: int| 0 <= i < s.len() implies #[trigger] s[i].revision_before < m
            && s[i].revision_after < m by {
            assert(s[i].revision_before < next);
        }
    }
}

/// The cursor and its selection anchor lie inside the text.
pub open spec fn cursor_in(ls: Seq<Seq<char>>, c: CursorState) -> bool {
    &&& position_in(ls, c.position)
    &&& match c.selection_anchor {
        Some(anchor) => position_in(ls, anchor),
        None => true,
    }
}

/// The recorded edit `e` leads from the lines `before` to the lines `after` and back:
/// its removed range reads `removed` in `before`, its inserted range reads `inserted`
/// in `after`, and replacing either by the other text gives the other lines.
pub open spec fn entry_links(before: Seq<Seq<char>>, after: Seq<Seq<char>>, e: EntryView) -> bool {
    let c = e.change;
    &&& lines_wf(before)
    &&& lines_wf(after)
    &&& c.fits()
    &&& range_in(before, c.removed_range())
    &&& text_in_range_spec(before, c.removed_range()) == c.removed
    &&& replace_range_spec(before, c.removed_range(), c.inserted) == after
    &&& range_in(after, c.inserted_range())
    &&& text_in_range_spec(after, c.inserted_range()) == c.inserted
    &&& replace_range_spec(after, c.inserted_range(), c.removed) == before
    &&& cursor_in(before, e.cursor_before)
    &&& cursor_in(after, e.cursor_after)
}

/// Undoing the entries from the top, starting from the lines `ls` at revision
/// `revision`, is possible step by step, each step going back to its entry's
/// revision before.
pub open spec fn undo_chain(ls: Seq<Seq<char>>, undo: Seq<EntryView>, revision: u64) -> bool
    decreases undo.len(),
{
    if undo.len() == 0 {
        true
    } else {
        let e = undo.last();
        let before = replace_range_spec(ls, e.change.inserted_range(), e.change.removed);
        &&& e.revision_after == revision
        &&& entry_links(before, ls, e)
        &&& undo_chain(before, undo.drop_last(), e.revision_before)
    }
}

/// Redoing the entries from the top, starting from the lines `ls` at revision
/// `revision`, is possible step by step, each step going forward to its entry's
/// revision after.
pub open spec fn redo_chain(ls: Seq<Seq<char>>, redo: Seq<EntryView>, revision: u64) -> bool
    decreases redo.len(),
{
    if redo.len() == 0 {
        true
    } else {
        let e = redo.last();
        let after = replace_range_spec(ls, e.change.removed_range(), e.change.inserted);
        &&& e.revision_before == revision
        &&& entry_links(ls, after, e)
        &&& redo_chain(after, redo.drop_last(), e.revision_after)
    }
}

/// The history after recording a change: a change that leaves the text as it was
/// is not recorded; any other is pushed with a fresh revision, which becomes the
/// current one, and the redo stack is emptied.
pub open spec fn record_spec(
    h: HistoryView,
    change: ChangeView,
    cursor_before: CursorState,
    cursor_after: CursorState,
) -> HistoryView {
    if change.removed == change.inserted {
        h
    } else {
        HistoryView {
            undo: h.undo.push(
                EntryView {
                    change,
                    cursor_before,
                    cursor_after,
                    revision_before: h.current_revision,
                    revision_after: h.next_revision,
                },
            ),
            redo: Seq::empty(),
            current_revision: h.next_revision,
            next_revision: (h.next_revision + 1) as u64,
            ..h
        }
    }
}

/// The history after an undo: the top undo entry moves to the redo stack and
/// its revision before the change becomes the current one.
pub open spec fn undo_history_spec(h: HistoryView) -> HistoryView {
    if h.undo.len() == 0 {
        h
    } else {
        HistoryView {
            undo: h.undo.drop_last(),
            redo: h.redo.push(h.undo.last()),
            current_revision: h.undo.last().revision_before,
            ..h
        }
    }
}

/// The lines after an undo: the top undo entry's inserted text is replaced by
/// the text it removed.
pub open spec fn undo_lines_spec(ls: Seq<Seq<char>>, h: HistoryView) -> Seq<Seq<char>> {
    if h.undo.len() == 0 {
        ls
    } else {
        let c = h.undo.last().change;
        replace_range_spec(ls, clamp_range_spec(ls, c.inserted_range()), c.removed)
    }
}

/// The history after a redo: the top redo entry moves back to the undo stack and
/// its revision after the change becomes the current one.
pub open spec fn redo_history_spec(h: HistoryView) -> HistoryView {
    if h.redo.len() == 0 {
        h
    } else {
        HistoryView {
            undo: h.undo.push(h.redo.last()),
            redo: h.redo.drop_last(),
            current_revision: h.redo.last().revision_after,
            ..h
        }
    }
}

/// The lines after a redo: the top redo entry's removed range is replaced by the
/// text it inserted.
pub open spec fn redo_lines_spec(ls: Seq<Seq<char>>, h: HistoryView) -> Seq<Seq<char>> {
    if h.redo.len() == 0 {
        ls
    } else {
        let c = h.redo.last().change;
        replace_range_spec(ls, clamp_range_spec(ls, c.removed_range()), c.inserted)
    }
}

#[derive(Debug)]
pub struct EditHistory {
    undo: Vec<HistoryEntry>,
    redo: Vec<HistoryEntry>,
    current_revision: u64,
    saved_revision: u64,
    next_revision: u64,
}

impl View for EditHistory {
    type V = HistoryView;

    closed spec fn view(&self) -> HistoryView {
        HistoryView {
            undo: entries_view(self.undo@),
            redo: entries_view(self.redo@),
            current_revision: self.current_revision,
            saved_revision: self.saved_revision,
            next_revision: self.next_revision,
        }
    }
}

impl EditHistory {
    #[verifier::type_invariant]
    pub open spec fn well_formed(&self) -> bool {
        self@.entries_fit() && self@.revisions_fresh()
    }

    pub fn record(&mut self, change: TextChange, cursor_before: CursorState, cursor_after: CursorState)
        requires
            change@.removed != change@.inserted ==> change@.fits() && old(self)@.next_revision
                < u64::MAX,
        ensures
            final(self)@ == record_spec(old(self)@, change@, cursor_before, cursor_after),
            final(self)@.entries_fit(),
            final(self)@.revisions_fresh(),
    {
        proof {
            use_type_invariant(&*self);
        }
        if change.is_noop() {
            return;
        }
        let ghost h = self@;
        let revision_after = self.next_revision;
        let entry = HistoryEntry {
            change,
            cursor_before,
            cursor_after,
            revision_before: self.current_revision,
            revision_after,
        };
        let ghost entry_view = entry@;
        let mut undo: Vec<HistoryEntry> = Vec::new();
        std::mem::swap(&mut undo, &mut self.undo);
        undo.push(entry);
        let empty: Vec<HistoryEntry> = Vec::new();
        proof {
            assert(entries_view(undo@) =~= h.undo.push(entry_view));
            lemma_entries_push(h.undo, entry_view, h.next_revision);
            lemma_entries_push(h.undo.push(entry_view), entry_view, h.next_revision);
            assert(revisions_below(h.undo.push(entry_view), (revision_after + 1) as u64));
            assert(revisions_below(Seq::<EntryView>::empty(), (revision_after + 1) as u64));
            assert(entries_view(empty@) =~= Seq::<EntryView>::empty());
        }
        *self = EditHistory {
            undo,
            redo: empty,
            current_revision: revision_after,
            saved_revision: self.saved_revision,
            next_revision: revision_after + 1,
        };
        proof {
            assert(self@ =~= record_spec(h, entry_view.change, cursor_before, cursor_after));
        }
    }

    pub fn undo(&mut self, buffer: &mut Buffer) -> (cursor: Option<CursorState>)
        ensures
            cursor == (if old(self)@.undo.len() == 0 {
                None
            } else {
                Some(old(self)@.undo.last().cursor_before)
            }),
            final(self)@ == undo_history_spec(old(self)@),
            final(buffer)@ == undo_lines_spec(old(buffer)@, old(self)@),
            final(buffer).path_spec() == old(buffer).path_spec(),
            final(self)@.entries_fit(),
            final(self)@.revisions_fresh(),
            lines_wf(final(buffer)@),
    {
        proof {
            use_type_invariant(&*self);
            use_type_invariant(&*buffer);
        }
        let ghost h = self@;
        if self.undo.len() == 0 {
            return None;
        }
        let mut undo: Vec<HistoryEntry> = Vec::new();
        std::mem::swap(&mut undo, &mut self.undo);
        let mut redo: Vec<HistoryEntry> = Vec::new();
        std::mem::swap(&mut redo, &mut self.redo);
        let entry = undo.pop().unwrap();
        let ghost entry_view = entry@;
        proof {
            assert(entries_view(undo@) =~= h.undo.drop_last());
            lemma_entries_push(h.undo, entry_view, h.next_revision);
            assert(entry_view == h.undo.last());
        }
        buffer.replace_range(entry.change.inserted_range(), entry.change.removed.as_str());
        let revision_before = entry.revision_before;
        let cursor = entry.cursor_before;
        redo.push(entry);
        proof {
            assert(entries_view(redo@) =~= h.redo.push(entry_view));
            lemma_entries_push(h.redo, entry_view, h.next_revision);
        }
        *self = EditHistory {
            undo,
            redo,
            current_revision: revision_before,
            saved_revision: self.saved_revision,
            next_revision: self.next_revision,
        };
        proof {
            assert(self@ =~= undo_history_spec(h));
        }
        Some(cursor)
    }

    pub fn redo(&mut self, buffer: &mut Buffer) -> (cursor: Option<CursorState>)
        ensures
            cursor == (if old(self)@.redo.len() == 0 {
                None
            } else {
                Some(old(self)@.redo.last().cursor_after)
            }),
            final(self)@ == redo_history_spec(old(self)@),
            final(buffer)@ == redo_lines_spec(old(buffer)@, old(self)@),
            final(buffer).path_spec() == old(buffer).path_spec(),
            final(self)@.entries_fit(),
            final(self)@.revisions_fresh(),
            lines_wf(final(buffer)@),
    {
        proof {
            use_type_invariant(&*self);
            use_type_invariant(&*buffer);
        }
        let ghost h = self@;
        if self.redo.len() == 0 {
            return None;
        }
        let mut undo: Vec<HistoryEntry> = Vec::new();
        std::mem::swap(&mut undo, &mut self.undo);
        let mut redo: Vec<HistoryEntry> = Vec::new();
        std::mem::swap(&mut redo, &mut self.redo);
        let entry = redo.pop().unwrap();
        let ghost entry_view = entry@;
        proof {
            assert(entries_view(redo@) =~= h.redo.drop_last());
            lemma_entries_push(h.redo, entry_view, h.next_revision);
            assert(entry_view == h.redo.last());
        }
        buffer.replace_range(entry.change.removed_range(), entry.change.inserted.as_str());
        let revision_after = entry.revision_after;
        let cursor = entry.cursor_after;
        undo.push(entry);
        proof {
            assert(entries_view(undo@) =~= h.undo.push(entry_view));
            lemma_entries_push(h.undo, entry_view, h.next_revision);
        }
        *self = EditHistory {
            undo,
            redo,
            current_revision: revision_after,
            saved_revision: self.saved_revision,
            next_revision: self.next_revision,
        };
        proof {
            assert(self@ =~= redo_history_spec(h));
        }
        Some(cursor)
    }

    /// Whether a fresh revision number is left for one more edit.
    pub fn can_record(&self) -> (b: bool)
        ensures
            b == (self@.next_revision < u64::MAX),
    {
        self.next_revision < u64::MAX
    }

    pub fn is_modified(&self) -> (b: bool)
        ensures
            b == self@.is_modified(),
    {
        self.current_revision != self.saved_revision
    }

    pub fn mark_saved(&mut self)
        ensures
            !final(self)@.is_modified(),
            final(self)@ == (HistoryView { saved_revision: old(self)@.current_revision, ..old(self)@ }),
    {
        proof {
            use_type_invariant(&*self);
        }
        self.saved_revision = self.current_revision;
    }
}

impl Clone for EditHistory {
    fn clone(&self) -> (h: Self)
        ensures
            h@ == self@,
    {
        proof {
            use_type_invariant(self);
        }
        let h = EditHistory {
            undo: clone_entries(&self.undo),
            redo: clone_entries(&self.redo),
            current_revision: self.current_revision,
            saved_revision: self.saved_revision,
            next_revision: self.next_revision,
        };
        proof {
            assert(h@ =~= self@);
        }
        h
    }
}

/// The history of a document that has not been edited.
pub open spec fn empty_history() -> HistoryView {
    HistoryView {
        undo: Seq::empty(),
        redo: Seq::empty(),
        current_revision: 0,
        saved_revision: 0,
        next_revision: 1,
    }
}

impl Default for EditHistory {
    fn default() -> (h: Self)
        ensures
            h@ == empty_history(),
    {
        let h = EditHistory {
            undo: Vec::new(),
            redo: Vec::new(),
            current_revision: 0,
            saved_revision: 0,
            next_revision: 1,
        };
        proof {
            assert(h@ =~= empty_history());
        }
        h
    }
}

/// The change that replacing `range` (clamped to `ls`) by `t` makes, as
/// `Buffer::replace_range` reports it.
pub open spec fn change_of(ls: Seq<Seq<char>>, range: TextRange, t: Seq<char>) -> ChangeView {
    let r = clamp_range_spec(ls, range);
    ChangeView { start: r.start, removed: text_in_range_spec(ls, r), inserted: t }
}

/// Recording an edit that changed the text, made on the lines `ls` by replacing
/// `range` with `t`: the history is then modified and has nothing to redo, so a
/// redo changes nothing; an undo gives back the cursor before the edit, the lines
/// `ls`, and the history's stacks, revision and modified flag from before the
/// record; a redo right after that undo repeats the edit exactly.
pub proof fn lemma_record_then_undo(
    h: HistoryView,
    ls: Seq<Seq<char>>,
    range: TextRange,
    t: Seq<char>,
    cursor_before: CursorState,
    cursor_after: CursorState,
)
    requires
        h.revisions_fresh(),
        lines_wf(ls),
        lines_wf(replace_range_spec(ls, clamp_range_spec(ls, range), t)),
        change_of(ls, range, t).removed != t,
    ensures
        ({
            let edited = replace_range_spec(ls, clamp_range_spec(ls, range), t);
            let recorded = record_spec(h, change_of(ls, range, t), cursor_before, cursor_after);
            let undone = undo_history_spec(recorded);
            &&& recorded.is_modified()
            &&& recorded.redo.len() == 0
            &&& redo_history_spec(recorded) == recorded
            &&& redo_lines_spec(edited, recorded) == edited
            &&& recorded.undo.len() > 0
            &&& recorded.undo.last().cursor_before == cursor_before
            &&& undo_lines_spec(edited, recorded) == ls
            &&& undone.undo == h.undo
            &&& undone.current_revision == h.current_revision
            &&& undone.saved_revision == h.saved_revision
            &&& undone.is_modified() == h.is_modified()
            &&& undone.redo.last().cursor_after == cursor_after
            &&& redo_history_spec(undone) == recorded
            &&& redo_lines_spec(ls, undone) == edited
        }),
{
    lemma_replace_undo_redo(ls, range, t);
    let recorded = record_spec(h, change_of(ls, range, t), cursor_before, cursor_after);
    let undone = undo_history_spec(recorded);
    assert(undone.undo =~= h.undo);
    assert(redo_history_spec(undone) =~= recorded);
}

/// The saved point is a revision, not a count of edits: right after `mark_saved`
/// the history is not modified, recording an edit that changes the text makes it
/// modified, and undoing that edit makes it unmodified again.
pub proof fn lemma_saved_point_is_a_revision(
    h: HistoryView,
    change: ChangeView,
    cursor_before: CursorState,
    cursor_after: CursorState,
)
    requires
        h.revisions_fresh(),
        change.removed != change.inserted,
    ensures
        ({
            let saved = HistoryView { saved_revision: h.current_revision, ..h };
            let recorded = record_spec(saved, change, cursor_before, cursor_after);
            &&& !saved.is_modified()
            &&& recorded.is_modified()
            &&& !undo_history_spec(recorded).is_modified()
        }),
{
}

/// Undo then redo gives back the text and the history: on a history that fits
/// the lines `ls` and has something to undo, redoing right after an undo restores
/// both, and returns the cursor recorded after the undone edit.
pub proof fn lemma_redo_after_undo(h: HistoryView, ls: Seq<Seq<char>>)
    requires
        h.matches_text(ls),
        h.undo.len() > 0,
    ensures
        ({
            let undone = undo_history_spec(h);
            let back = undo_lines_spec(ls, h);
            &&& redo_history_spec(undone) == h
            &&& redo_lines_spec(back, undone) == ls
            &&& undone.redo.last().cursor_after == h.undo.last().cursor_after
        }),
{
    let e = h.undo.last();
    let c = e.change;
    let before = replace_range_spec(ls, c.inserted_range(), c.removed);
    assert(entry_links(before, ls, e));
    lemma_clamp_range_in(ls, c.inserted_range());
    lemma_clamp_range_in(before, c.removed_range());
    let undone = undo_history_spec(h);
    assert(undone.undo.push(undone.redo.last()) =~= h.undo);
    assert(undone.redo.drop_last() =~= h.redo);
    assert(redo_history_spec(undone) =~= h);
}

} // verus!
