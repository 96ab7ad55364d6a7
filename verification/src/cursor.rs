//! Positions, ranges and the cursor with its optional selection.
use vstd::prelude::*;

verus! {

/// A place in a buffer: a line index and a column counted in Unicode scalar values.
#[derive(Clone, Copy, Debug, Default, PartialEq, Eq, Structural, PartialOrd, Ord)]
pub struct Position {
    pub line: usize,
    pub column: usize,
}

/// `a` comes no later than `b` in reading order (line first, then column).
pub open spec fn pos_le(a: Position, b: Position) -> bool {
    a.line < b.line || (a.line == b.line && a.column <= b.column)
}

impl Position {
    pub fn new(line: usize, column: usize) -> (p: Self)
        ensures
            p.line == line,
            p.column == column,
    {
        Position { line, column }
    }
}

/// Two positions; `start` need not come first until the range is normalized.
#[derive(Clone, Copy, Debug, PartialEq, Eq, Structural)]
pub struct TextRange {
    pub start: Position,
    pub end: Position,
}

impl TextRange {
    /// The same range with its endpoints in reading order.
    pub open spec fn spec_normalized(self) -> TextRange {
        if pos_le(self.start, self.end) {
            self
        } else {
            TextRange { start: self.end, end: self.start }
        }
    }

    pub fn new(start: Position, end: Position) -> (r: Self)
        ensures
            r.start == start,
            r.end == end,
    {
        TextRange { start, end }
    }

    pub fn empty(at: Position) -> (r: Self)
        ensures
            r.start == at,
            r.end == at,
    {
        TextRange { start: at, end: at }
    }

    pub fn normalized(self) -> (r: Self)
        ensures
            r == self.spec_normalized(),
            pos_le(r.start, r.end),
    {
        if self.start.line < self.end.line || (self.start.line == self.end.line
            && self.start.column <= self.end.column) {
            self
        } else {
            TextRange::new(self.end, self.start)
        }
    }

    pub fn is_empty(self) -> (b: bool)
        ensures
            b == (self.start == self.end),
    {
        self.start == self.end
    }
}

/// Everything that describes a cursor: where it is, the column that vertical
/// movement aims for, and where a selection started.
#[derive(Clone, Copy, Debug, PartialEq, Eq, Structural)]
pub struct CursorState {
    pub position: Position,
    pub preferred_column: usize,
    pub selection_anchor: Option<Position>,
}

/// A cursor at `position` with no selection, aiming vertical moves at its own column.
pub open spec fn collapsed_state(position: Position) -> CursorState {
    CursorState { position, preferred_column: position.column, selection_anchor: None }
}

/// The selected range of a cursor state: the normalized span between anchor and
/// position, and only when it is not empty.
pub open spec fn selection_of(state: CursorState) -> Option<TextRange> {
    match state.selection_anchor {
        Some(anchor) => {
            let range = TextRange { start: anchor, end: state.position }.spec_normalized();
            if range.start != range.end {
                Some(range)
            } else {
                None
            }
        },
        None => None,
    }
}

/// The state after anchoring a selection at the position, unless one is anchored.
pub open spec fn start_selection_spec(s: CursorState) -> CursorState {
    CursorState {
        selection_anchor: match s.selection_anchor {
            Some(anchor) => Some(anchor),
            None => Some(s.position),
        },
        ..s
    }
}

/// The state with no selection anchor.
pub open spec fn clear_selection_spec(s: CursorState) -> CursorState {
    CursorState { selection_anchor: None, ..s }
}

/// The state moved to `position`, aiming vertical moves at its column when asked to.
pub open spec fn set_position_spec(s: CursorState, position: Position, update_preferred_column: bool) -> CursorState {
    CursorState {
        position,
        preferred_column: if update_preferred_column {
            position.column
        } else {
            s.preferred_column
        },
        ..s
    }
}

impl CursorState {
    pub fn collapsed(position: Position) -> (s: Self)
        ensures
            s == collapsed_state(position),
    {
        CursorState { position, preferred_column: position.column, selection_anchor: None }
    }
}

#[derive(Clone, Copy, Debug, PartialEq, Eq, Structural)]
pub struct Cursor {
    state: CursorState,
}

impl View for Cursor {
    type V = CursorState;

    closed spec fn view(&self) -> CursorState {
        self.state
    }
}

impl Cursor {
    pub fn new() -> (c: Self)
        ensures
            c@ == collapsed_state(Position { line: 0, column: 0 }),
    {
        Cursor { state: CursorState::collapsed(Position::new(0, 0)) }
    }

    pub fn position(&self) -> (p: Position)
        ensures
            p == self@.position,
    {
        self.state.position
    }

    pub fn preferred_column(&self) -> (c: usize)
        ensures
            c == self@.preferred_column,
    {
        self.state.preferred_column
    }

    /// The selected range, normalized; an anchor at the cursor's own position
    /// selects nothing.
    pub fn selection(&self) -> (r: Option<TextRange>)
        ensures
            r == selection_of(self@),
            r matches Some(range) ==> pos_le(range.start, range.end) && range.start != range.end,
    {
        match self.state.selection_anchor {
            Some(anchor) => {
                let range = TextRange::new(anchor, self.state.position).normalized();
                if range.is_empty() {
                    None
                } else {
                    Some(range)
                }
            },
            None => None,
        }
    }

    pub fn snapshot(&self) -> (s: CursorState)
        ensures
            s == self@,
    {
        self.state
    }

    pub fn restore(&mut self, state: CursorState)
        ensures
            final(self)@ == state,
    {
        self.state = state;
    }

    /// Anchors a selection at the current position unless one is already anchored.
    pub fn start_selection(&mut self)
        ensures
            final(self)@ == start_selection_spec(old(self)@),
    {
        if self.state.selection_anchor.is_none() {
            self.state.selection_anchor = Some(self.state.position);
        }
    }

    pub fn clear_selection(&mut self)
        ensures
            final(self)@ == clear_selection_spec(old(self)@),
    {
        self.state.selection_anchor = None;
    }

    pub fn set_position(&mut self, position: Position, update_preferred_column: bool)
        ensures
            final(self)@ == set_position_spec(old(self)@, position, update_preferred_column),
    {
        self.state.position = position;
        if update_preferred_column {
            self.state.preferred_column = position.column;
        }
    }

    pub fn collapse_to(&mut self, position: Position)
        ensures
            final(self)@ == collapsed_state(position),
    {
        self.state = CursorState::collapsed(position);
    }
}

impl Default for Cursor {
    fn default() -> (c: Self)
        ensures
            c@ == collapsed_state(Position { line: 0, column: 0 }),
    {
        Cursor::new()
    }
}

} // verus!
