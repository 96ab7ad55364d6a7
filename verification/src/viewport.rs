//! The window of lines and columns that is on screen.
use vstd::prelude::*;

use crate::cursor::Position;

verus! {

#[derive(Clone, Copy, Debug, Default, PartialEq, Eq, Structural)]
pub struct Viewport {
    pub width: usize,
    pub height: usize,
    pub offset_x: usize,
    pub offset_y: usize,
}

/// `min(a + b, usize::MAX)`, as `usize::saturating_add` computes it.
pub open spec fn sat_add(a: int, b: int) -> int {
    if a + b > usize::MAX { usize::MAX as int } else { a + b }
}

/// `max(a - b, 0)`, as `usize::saturating_sub` computes it.
pub open spec fn sat_sub(a: int, b: int) -> int {
    if a - b < 0 { 0 } else { a - b }
}

/// The offset after the smallest scroll that brings `target` into a window of
/// `size` cells that starts at `current`; an empty window never scrolls forward.
pub open spec fn visible_offset_spec(current: int, size: int, target: int) -> int {
    if target < current {
        target
    } else if size == 0 {
        current
    } else if target >= sat_add(current, size) {
        target + 1 - size
    } else {
        current
    }
}

/// The viewport after scrolling just enough to show `position`.
pub open spec fn ensure_visible_spec(v: Viewport, position: Position) -> Viewport {
    Viewport {
        offset_x: visible_offset_spec(v.offset_x as int, v.width as int, position.column as int) as usize,
        offset_y: visible_offset_spec(v.offset_y as int, v.height as int, position.line as int) as usize,
        ..v
    }
}

/// The last first-line that wheel scrolling may reach in a document of `line_count` lines.
pub open spec fn max_scroll_offset(v: Viewport, line_count: int) -> int {
    sat_sub(line_count, if v.height >= 1 { v.height as int } else { 1 })
}

/// The viewport after scrolling by `lines` (negative is up) in a document of `line_count` lines.
pub open spec fn scroll_vertical_spec(v: Viewport, lines: int, line_count: int) -> Viewport {
    Viewport {
        offset_y: if lines < 0 {
            sat_sub(v.offset_y as int, -lines)
        } else {
            let moved = sat_add(v.offset_y as int, lines);
            let max = max_scroll_offset(v, line_count);
            if moved <= max { moved } else { max }
        } as usize,
        ..v
    }
}

impl Viewport {
    pub fn new(width: usize, height: usize) -> (v: Self)
        ensures
            v == (Viewport { width, height, offset_x: 0, offset_y: 0 }),
    {
        Viewport { width, height, offset_x: 0, offset_y: 0 }
    }

    pub fn set_size(&mut self, width: usize, height: usize)
        ensures
            *final(self) == (Viewport { width, height, ..*old(self) }),
    {
        self.width = width;
        self.height = height;
    }

    pub fn ensure_visible(&mut self, position: Position)
        ensures
            *final(self) == ensure_visible_spec(*old(self), position),
    {
        self.offset_x = visible_offset(self.offset_x, self.width, position.column);
        self.offset_y = visible_offset(self.offset_y, self.height, position.line);
    }

    pub fn scroll_vertical(&mut self, lines: isize, line_count: usize)
        ensures
            *final(self) == scroll_vertical_spec(*old(self), lines as int, line_count as int),
    {
        let rows = if self.height >= 1 { self.height } else { 1 };
        let max_offset = line_count.saturating_sub(rows);
        if lines < 0 {
            let magnitude: usize = ((-(lines + 1)) as usize) + 1;
            self.offset_y = self.offset_y.saturating_sub(magnitude);
        } else {
            let moved = self.offset_y.saturating_add(lines as usize);
            self.offset_y = if moved <= max_offset { moved } else { max_offset };
        }
    }
}

fn visible_offset(current: usize, size: usize, target: usize) -> (r: usize)
    ensures
        r == visible_offset_spec(current as int, size as int, target as int),
{
    if target < current {
        target
    } else if size == 0 {
        current
    } else if target >= current.saturating_add(size) {
        target - (size - 1)
    } else {
        current
    }
}

/// After `ensure_visible`, a window with room for at least one cell shows the
/// position; and a position that was already on screen (within the window's
/// end as `usize` arithmetic saturates it) does not scroll the view.
pub proof fn lemma_ensure_visible_shows_position(v: Viewport, position: Position)
    ensures
        ({
            let w = ensure_visible_spec(v, position);
            &&& v.width > 0 ==> w.offset_x <= position.column < w.offset_x + w.width
            &&& v.height > 0 ==> w.offset_y <= position.line < w.offset_y + w.height
            &&& (v.offset_x <= position.column < sat_add(v.offset_x as int, v.width as int)) ==> w.offset_x == v.offset_x
            &&& (v.offset_y <= position.line < sat_add(v.offset_y as int, v.height as int)) ==> w.offset_y == v.offset_y
            &&& w.width == v.width && w.height == v.height
        }),
{
}

/// Wheel scrolling never moves below the last full page of the document nor above
/// its first line, and moving down never goes past the line count.
pub proof fn lemma_scroll_stays_inside(v: Viewport, lines: int, line_count: int)
    requires
        0 <= line_count <= usize::MAX,
        isize::MIN <= lines <= isize::MAX,
    ensures
        ({
            let w = scroll_vertical_spec(v, lines, line_count);
            &&& lines >= 0 ==> w.offset_y <= max_scroll_offset(v, line_count)
            &&& lines < 0 ==> w.offset_y <= v.offset_y
            &&& w.offset_x == v.offset_x && w.width == v.width && w.height == v.height
        }),
{
}

} // verus!
