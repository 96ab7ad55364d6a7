//! What the screen shows: terminal size, the line-number gutter, and the text of
//! each screen row, computed from a document.
use vstd::prelude::*;
use vstd::string::StrSliceExecFns;
use vstd::string::StringExecFns;

use crate::buffer::push_char;
use crate::cursor::{Position, TextRange};
use crate::viewport::{sat_add, sat_sub, Viewport};

verus! {

/// The size of the terminal, in columns and rows.
pub struct Terminal {
    size: (u16, u16),
}

impl View for Terminal {
    type V = (u16, u16);

    closed spec fn view(&self) -> (u16, u16) {
        self.size
    }
}

impl Terminal {
    pub fn new(size: (u16, u16)) -> (t: Self)
        ensures
            t@ == size,
    {
        Terminal { size }
    }

    pub fn size(&self) -> (s: (u16, u16))
        ensures
            s == self@,
    {
        self.size
    }

    pub fn resize(&mut self, width: u16, height: u16)
        ensures
            final(self)@ == (width, height),
    {
        self.size = (width, height);
    }
}

/// How many decimal digits `n` has (one for zero).
pub open spec fn decimal_digit_count_spec(n: nat) -> nat
    decreases n,
{
    if n < 10 {
        1
    } else {
        1 + decimal_digit_count_spec(n / 10)
    }
}

/// The decimal digits of `n`, most significant first.
pub open spec fn decimal_spec(n: nat) -> Seq<char>
    decreases n,
{
    if n < 10 {
        seq![digit_char(n)]
    } else {
        decimal_spec(n / 10).push(digit_char(n % 10))
    }
}

pub open spec fn digit_char(d: nat) -> char {
    if d == 0 { '0' }
    else if d == 1 { '1' }
    else if d == 2 { '2' }
    else if d == 3 { '3' }
    else if d == 4 { '4' }
    else if d == 5 { '5' }
    else if d == 6 { '6' }
    else if d == 7 { '7' }
    else if d == 8 { '8' }
    else { '9' }
}

/// `n` spaces.
pub open spec fn spaces(n: nat) -> Seq<char> {
    Seq::new(n, |i: int| ' ')
}

/// Text cut or padded with spaces to exactly `width` characters.
pub open spec fn fit_width(s: Seq<char>, width: nat) -> Seq<char> {
    if s.len() >= width {
        s.take(width as int)
    } else {
        s + spaces((width - s.len()) as nat)
    }
}

/// The characters of `s` from index `start` up to (not including) `end`, where
/// indices past the end of `s` stop at its end.
pub open spec fn chars_between_spec(s: Seq<char>, start: int, end: int) -> Seq<char> {
    let lo = if start <= s.len() { start } else { s.len() as int };
    let hi = if lo + sat_sub(end, start) <= s.len() { lo + sat_sub(end, start) } else { s.len() as int };
    s.subrange(lo, hi)
}

/// The gutter width: the digits of the largest line number and two more cells.
pub fn line_number_gutter_width(line_count: usize) -> (w: usize)
    ensures
        w == decimal_digit_count_spec(line_count as nat) + 2,
{
    proof {
        lemma_digit_count_bound(line_count as nat);
    }
    decimal_digit_count(line_count) + 2
}

/// The gutter never narrows as the line count grows.
pub proof fn lemma_gutter_width_monotone(n: nat, m: nat)
    requires
        n <= m,
    ensures
        decimal_digit_count_spec(n) <= decimal_digit_count_spec(m),
    decreases m,
{
    if n >= 10 {
        assert(n / 10 <= m / 10) by (nonlinear_arith)
            requires
                n <= m,
        ;
        lemma_gutter_width_monotone(n / 10, m / 10);
    }
}

proof fn lemma_digit_count_bound(n: nat)
    ensures
        1 <= decimal_digit_count_spec(n) <= 1 + n / 10,
    decreases n,
{
    if n >= 10 {
        lemma_digit_count_bound(n / 10);
        assert((n / 10) / 10 <= n / 10 - 1) by (nonlinear_arith)
            requires
                n >= 10,
        ;
    }
}

fn decimal_digit_count(number: usize) -> (d: usize)
    ensures
        d == decimal_digit_count_spec(number as nat),
    decreases number,
{
    proof {
        lemma_digit_count_bound(number as nat);
    }
    if number < 10 {
        1
    } else {
        1 + decimal_digit_count(number / 10)
    }
}

/// Appends the decimal digits of `n`.
fn push_decimal(s: &mut String, n: usize)
    ensures
        final(s)@ == old(s)@ + decimal_spec(n as nat),
    decreases n,
{
    if n >= 10 {
        push_decimal(s, n / 10);
    }
    let d = n % 10;
    let c = if d == 0 { '0' }
        else if d == 1 { '1' }
        else if d == 2 { '2' }
        else if d == 3 { '3' }
        else if d == 4 { '4' }
        else if d == 5 { '5' }
        else if d == 6 { '6' }
        else if d == 7 { '7' }
        else if d == 8 { '8' }
        else { '9' };
    push_char(s, c);
    proof {
        if n < 10 {
            assert(old(s)@ + decimal_spec(n as nat) =~= old(s)@.push(c));
        } else {
            assert(old(s)@ + decimal_spec(n as nat) =~= (old(s)@ + decimal_spec((n / 10) as nat)).push(c));
        }
    }
}

/// Appends `n` spaces.
fn push_spaces(s: &mut String, n: usize)
    ensures
        final(s)@ == old(s)@ + spaces(n as nat),
{
    let ghost start = s@;
    let mut i: usize = 0;
    while i < n
        invariant
            i <= n,
            s@ == start + spaces(i as nat),
        decreases n - i,
    {
        push_char(s, ' ');
        proof {
            assert(start + spaces((i + 1) as nat) =~= (start + spaces(i as nat)).push(' '));
        }
        i = i + 1;
    }
}

/// Text cut or padded with spaces to exactly `width` characters.
fn fit_to_width(s: String, width: usize) -> (r: String)
    ensures
        r@ == fit_width(s@, width as nat),
{
    let len = s.as_str().unicode_len();
    if len >= width {
        s.as_str().substring_char(0, width).to_owned()
    } else {
        let mut r = s;
        push_spaces(&mut r, width - len);
        r
    }
}

/// The gutter of one screen row: the line number right-aligned in `digits` cells,
/// a space and a bar, all cut to `max_width` cells.
pub fn gutter_label(line_number: usize, digits: usize, max_width: usize) -> (label: String)
    ensures
        label@ == ({
            let number = decimal_spec(line_number as nat);
            let padded = if number.len() < digits { spaces((digits - number.len()) as nat) + number } else { number };
            let full = padded + seq![' ', '\u{2502}'];
            if full.len() <= max_width { full } else { full.take(max_width as int) }
        }),
{
    let mut number = String::new();
    push_decimal(&mut number, line_number);
    let len = number.as_str().unicode_len();
    let mut label = String::new();
    if len < digits {
        push_spaces(&mut label, digits - len);
    }
    label.append(number.as_str());
    push_char(&mut label, ' ');
    push_char(&mut label, '\u{2502}');
    let total = label.as_str().unicode_len();
    proof {
        let padded = if len < digits { spaces((digits - len) as nat) + number@ } else { number@ };
        assert(label@ =~= padded + seq![' ', '\u{2502}']);
    }
    if total <= max_width {
        label
    } else {
        label.as_str().substring_char(0, max_width).to_owned()
    }
}

/// The help text at the right of the status line.
pub open spec fn status_help() -> Seq<char> {
    "  Ctrl-Q Quit | Ctrl-Z/Y Undo/Redo | Ctrl-C/X/V Clipboard "@
}

/// The status line: the document's name, `[+]` when modified, and the key help,
/// cut or padded to exactly `width` cells.
pub fn status_line(name: &str, modified: bool, width: usize) -> (line: String)
    ensures
        line@ == fit_width(
            seq![' '] + name@ + (if modified { " [+]"@ } else { Seq::<char>::empty() }) + status_help(),
            width as nat,
        ),
{
    let mut status = String::new();
    push_char(&mut status, ' ');
    status.append(name);
    if modified {
        status.append(" [+]");
    }
    status.append("  Ctrl-Q Quit | Ctrl-Z/Y Undo/Redo | Ctrl-C/X/V Clipboard ");
    proof {
        let m = if modified { " [+]"@ } else { Seq::<char>::empty() };
        assert(status@ =~= seq![' '] + name@ + m + status_help());
    }
    fit_to_width(status, width)
}

/// The characters of `text` from column `start` up to (not including) `end`.
pub fn characters_between(text: &str, start: usize, end: usize) -> (r: String)
    ensures
        r@ == chars_between_spec(text@, start as int, end as int),
{
    let len = text.unicode_len();
    let lo = if start <= len { start } else { len };
    let count = end.saturating_sub(start);
    let hi = if count <= len - lo { lo + count } else { len };
    text.substring_char(lo, hi).to_owned()
}

/// The columns of `line` (which has `line_length` columns) that a normalized
/// selection covers, when it covers any.
pub open spec fn selected_columns_spec(selection: TextRange, line: int, line_length: int) -> Option<(usize, usize)> {
    if line < selection.start.line || line > selection.end.line {
        None
    } else {
        let start = if line == selection.start.line { selection.start.column as int } else { 0 };
        let end = if line == selection.end.line { selection.end.column as int } else { line_length };
        if start < end { Some((start as usize, end as usize)) } else { None }
    }
}

pub fn selected_columns(selection: TextRange, line: usize, line_length: usize) -> (r: Option<(usize, usize)>)
    ensures
        r == selected_columns_spec(selection, line as int, line_length as int),
{
    if line < selection.start.line || line > selection.end.line {
        return None;
    }
    let start = if line == selection.start.line { selection.start.column } else { 0 };
    let end = if line == selection.end.line { selection.end.column } else { line_length };
    if start < end { Some((start, end)) } else { None }
}

/// The visible text of one screen row in three parts: before the selection, the
/// selection (shown reversed), and after it; without a selection on the row, all
/// of it is in the first part.
pub struct LineSegments {
    pub before: String,
    pub selected: String,
    pub after: String,
}

pub fn line_segments(
    line: &str,
    line_index: usize,
    offset_x: usize,
    width: usize,
    selection: Option<TextRange>,
) -> (segments: LineSegments)
    ensures
        ({
            let view_end = sat_add(offset_x as int, width as int);
            let columns = match selection {
                Some(range) => selected_columns_spec(range, line_index as int, line@.len() as int),
                None => None,
            };
            match columns {
                None => {
                    &&& segments.before@ == chars_between_spec(line@, offset_x as int, view_end)
                    &&& segments.selected@ == Seq::<char>::empty()
                    &&& segments.after@ == Seq::<char>::empty()
                },
                Some((selection_start, selection_end)) => {
                    let clip = |c: int| if c < offset_x { offset_x as int } else if c > view_end { view_end } else { c };
                    let highlighted_start = clip(selection_start as int);
                    let highlighted_end = clip(selection_end as int);
                    &&& segments.before@ == chars_between_spec(line@, offset_x as int, highlighted_start)
                    &&& segments.selected@ == chars_between_spec(line@, highlighted_start, highlighted_end)
                    &&& segments.after@ == chars_between_spec(line@, highlighted_end, view_end)
                },
            }
        }),
{
    let view_end = offset_x.saturating_add(width);
    let length = line.unicode_len();
    let columns = match selection {
        Some(range) => selected_columns(range, line_index, length),
        None => None,
    };
    match columns {
        None => LineSegments {
            before: characters_between(line, offset_x, view_end),
            selected: String::new(),
            after: String::new(),
        },
        Some((selection_start, selection_end)) => {
            let highlighted_start = clip_column(selection_start, offset_x, view_end);
            let highlighted_end = clip_column(selection_end, offset_x, view_end);
            LineSegments {
                before: characters_between(line, offset_x, highlighted_start),
                selected: characters_between(line, highlighted_start, highlighted_end),
                after: characters_between(line, highlighted_end, view_end),
            }
        },
    }
}

/// `column` limited to the range from `low` to `high` (`max` first, then `min`).
fn clip_column(column: usize, low: usize, high: usize) -> (c: usize)
    requires
        low <= high,
    ensures
        c == (if column < low { low as int } else if column > high { high as int } else { column as int }),
{
    let c = if column < low { low } else { column };
    if c > high { high } else { c }
}

/// Whether the viewport shows the text position.
pub open spec fn cursor_visible(viewport: Viewport, position: Position) -> bool {
    &&& viewport.width > 0 && viewport.height > 0
    &&& position.column >= viewport.offset_x
    &&& position.column < sat_add(viewport.offset_x as int, viewport.width as int)
    &&& position.line >= viewport.offset_y
    &&& position.line < sat_add(viewport.offset_y as int, viewport.height as int)
}

/// Where the cursor appears on screen, counting the gutter, when the viewport
/// shows it.
pub open spec fn cursor_screen_position_spec(viewport: Viewport, position: Position, gutter_width: int) -> Option<(u16, u16)> {
    if cursor_visible(viewport, position) {
        Some(((gutter_width + position.column - viewport.offset_x) as u16, (position.line - viewport.offset_y) as u16))
    } else {
        None
    }
}

pub fn cursor_screen_position(viewport: Viewport, position: Position, gutter_width: usize) -> (r: Option<(u16, u16)>)
    requires
        cursor_visible(viewport, position) ==> gutter_width + (position.column - viewport.offset_x)
            <= usize::MAX,
    ensures
        r == cursor_screen_position_spec(viewport, position, gutter_width as int),
{
    let visible = viewport.width > 0 && viewport.height > 0
        && position.column >= viewport.offset_x
        && position.column < viewport.offset_x.saturating_add(viewport.width)
        && position.line >= viewport.offset_y
        && position.line < viewport.offset_y.saturating_add(viewport.height);
    if visible {
        let screen_x = gutter_width + (position.column - viewport.offset_x);
        let screen_y = position.line - viewport.offset_y;
        Some((screen_x as u16, screen_y as u16))
    } else {
        None
    }
}

/// The lines that the text area shows, as the range `first..end` of line indexes:
/// from the viewport's first line, at most `height` lines, none past the last line.
/// The line at index `first + k` is drawn on screen row `k`.
pub fn visible_rows(offset_y: usize, height: usize, line_count: usize) -> (rows: (usize, usize))
    ensures
        rows.0 == (if offset_y < line_count { offset_y } else { line_count }),
        rows.1 == rows.0 + (if height < line_count - rows.0 { height as int } else { line_count - rows.0 }),
        rows.0 <= rows.1 <= line_count,
{
    let first = if offset_y < line_count { offset_y } else { line_count };
    let left = line_count - first;
    let count = if height < left { height } else { left };
    (first, first + count)
}

} // verus!
