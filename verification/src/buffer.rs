//! The text of a document as a list of lines, and the one primitive that edits it.
use std::path::{Path, PathBuf};

use vstd::prelude::*;
use vstd::string::StrSliceExecFns;
use vstd::string::StringExecFns;
use vstd::std_specs::cmp::PartialEqSpecImpl;

use crate::cursor::{pos_le, Position, TextRange};
use crate::lines::{
    join_lines, lemma_join_concat, lemma_join_extend_first, lemma_join_extend_last, lemma_join_split,
    lemma_split_basics, lemma_split_framed, lemma_split_join, lemma_split_single, lines_wf,
    no_newline, split_lines,
};

verus! {

#[verifier::external_type_specification]
#[verifier::external_body]
pub struct ExPathBuf(PathBuf);

#[verifier::external_type_specification]
#[verifier::external_body]
pub struct ExPath(Path);

/// Appends one character to a string (std's `String::push`).
#[verifier::external_body]
pub(crate) fn push_char(s: &mut String, c: char)
    ensures
        final(s)@ == old(s)@.push(c),
{
    s.push(c);
}

/// Borrows the path held by a `PathBuf` (std's `PathBuf::as_path`); nothing is
/// stated of the borrowed path, which Verus cannot look into.
#[verifier::external_body]
fn path_buf_as_path(path: &PathBuf) -> &Path {
    path.as_path()
}

/// The last component of a path, read as text: what std's `Path::file_name`
/// gives, with invalid Unicode replaced (`OsStr::to_string_lossy`); `None` where
/// the path has no last component (it ends in `..` or is a root). Both depend
/// on the path alone.
pub uninterp spec fn path_file_name_text(path: PathBuf) -> Option<Seq<char>>;

/// The file name of a path as text (std's `Path::file_name`, the name converted
/// to an owned `String` by `to_string_lossy`). The contract claims only that the
/// result is `path_file_name_text` of the path; what that is for a given path
/// is not stated, since Verus cannot look into a path.
#[verifier::external_body]
fn file_name_text(path: &PathBuf) -> (r: Option<String>)
    ensures
        r is None <==> path_file_name_text(*path) is None,
        r matches Some(text) ==> path_file_name_text(*path) == Some(text@),
{
    match path.file_name() {
        Some(name) => Some(name.to_string_lossy().into_owned()),
        None => None,
    }
}

pub open spec fn strings_view(v: Seq<String>) -> Seq<Seq<char>> {
    v.map_values(|s: String| s@)
}

/// A line without the carriage return that ends it, if any.
pub open spec fn strip_cr(line: Seq<char>) -> Seq<char> {
    if line.len() > 0 && line.last() == '\r' {
        line.drop_last()
    } else {
        line
    }
}

/// The lines of a text as a file holds it: split on line feeds, with each
/// line's final carriage return dropped.
pub open spec fn lines_of_text(text: Seq<char>) -> Seq<Seq<char>> {
    split_lines(text).map_values(|line: Seq<char>| strip_cr(line))
}

/// The length of a line, or 0 past the last line.
pub open spec fn line_len_spec(ls: Seq<Seq<char>>, line: int) -> int {
    if 0 <= line < ls.len() {
        ls[line].len() as int
    } else {
        0
    }
}

/// The nearest position inside the text: the line limited to the last line, then
/// the column limited to that line's length.
pub open spec fn clamp_position_spec(ls: Seq<Seq<char>>, p: Position) -> Position {
    let last = if ls.len() >= 1 { ls.len() - 1 } else { 0 };
    let line = if p.line <= last { p.line as int } else { last };
    let len = line_len_spec(ls, line);
    Position { line: line as usize, column: (if p.column <= len { p.column as int } else { len }) as usize }
}

/// A range normalized, with both ends clamped into the text.
pub open spec fn clamp_range_spec(ls: Seq<Seq<char>>, r: TextRange) -> TextRange {
    let n = r.spec_normalized();
    TextRange {
        start: clamp_position_spec(ls, n.start),
        end: clamp_position_spec(ls, n.end),
    }.spec_normalized()
}

/// A position that lies inside the text.
pub open spec fn position_in(ls: Seq<Seq<char>>, p: Position) -> bool {
    p.line < ls.len() && p.column <= ls[p.line as int].len()
}

/// A range whose ends lie inside the text, in reading order.
pub open spec fn range_in(ls: Seq<Seq<char>>, r: TextRange) -> bool {
    position_in(ls, r.start) && position_in(ls, r.end) && pos_le(r.start, r.end)
}

/// The characters between the ends of a range that lies inside the text, with a
/// line feed where the range crosses the end of a line.
pub open spec fn text_in_range_spec(ls: Seq<Seq<char>>, r: TextRange) -> Seq<char> {
    let sl = r.start.line as int;
    let el = r.end.line as int;
    if sl == el {
        ls[sl].subrange(r.start.column as int, r.end.column as int)
    } else {
        join_lines(
            seq![ls[sl].skip(r.start.column as int)] + ls.subrange(sl + 1, el) + seq![
                ls[el].take(r.end.column as int),
            ],
        )
    }
}

/// The lines after the text of a range that lies inside the text is replaced by
/// `t`: the lines before the range, the lines of (start line up to the range,
/// then `t`, then end line after the range), and the lines after the range.
pub open spec fn replace_range_spec(ls: Seq<Seq<char>>, r: TextRange, t: Seq<char>) -> Seq<
    Seq<char>,
> {
    let sl = r.start.line as int;
    let el = r.end.line as int;
    ls.subrange(0, sl) + split_lines(
        ls[sl].take(r.start.column as int) + t + ls[el].skip(r.end.column as int),
    ) + ls.subrange(el + 1, ls.len() as int)
}

/// Where text inserted at `start` ends: on the same line after its characters
/// when it holds no line feed, else on a later line after its last line.
pub open spec fn position_after_spec(start: Position, t: Seq<char>) -> Position {
    let p = split_lines(t);
    if p.len() == 1 {
        Position { line: start.line, column: (start.column + p[0].len()) as usize }
    } else {
        Position { line: (start.line + p.len() - 1) as usize, column: p.last().len() as usize }
    }
}

/// `position_after_spec(start, t)` has coordinates that fit in a `usize`.
pub open spec fn position_after_fits(start: Position, t: Seq<char>) -> bool {
    let p = split_lines(t);
    if p.len() == 1 {
        start.column + p[0].len() <= usize::MAX
    } else {
        start.line + p.len() - 1 <= usize::MAX
    }
}

/// The record of one edit: at `start`, `removed` was replaced by `inserted`.
#[derive(Debug)]
pub struct TextChange {
    pub start: Position,
    pub removed: String,
    pub inserted: String,
}

#[verifier::ext_equal]
pub struct ChangeView {
    pub start: Position,
    pub removed: Seq<char>,
    pub inserted: Seq<char>,
}

impl View for TextChange {
    type V = ChangeView;

    open spec fn view(&self) -> ChangeView {
        ChangeView { start: self.start, removed: self.removed@, inserted: self.inserted@ }
    }
}

impl ChangeView {
    /// Both ranges of the change have coordinates that fit in a `usize`.
    pub open spec fn fits(self) -> bool {
        position_after_fits(self.start, self.removed) && position_after_fits(
            self.start,
            self.inserted,
        )
    }

    /// The range that the removed text took up.
    pub open spec fn removed_range(self) -> TextRange {
        TextRange { start: self.start, end: position_after_spec(self.start, self.removed) }
    }

    /// The range that the inserted text takes up.
    pub open spec fn inserted_range(self) -> TextRange {
        TextRange { start: self.start, end: position_after_spec(self.start, self.inserted) }
    }
}

impl Clone for TextChange {
    fn clone(&self) -> (c: Self)
        ensures
            c@ == self@,
    {
        TextChange { start: self.start, removed: self.removed.clone(), inserted: self.inserted.clone() }
    }
}

impl PartialEq for TextChange {
    fn eq(&self, other: &Self) -> (r: bool) {
        self.start == other.start && self.removed == other.removed && self.inserted == other.inserted
    }
}

impl Eq for TextChange {
}

impl PartialEqSpecImpl for TextChange {
    open spec fn obeys_eq_spec() -> bool {
        true
    }

    /// Two changes are equal when their start and both texts are.
    open spec fn eq_spec(&self, other: &Self) -> bool {
        self@ == other@
    }
}

impl TextChange {
    pub fn removed_range(&self) -> (r: TextRange)
        requires
            position_after_fits(self.start, self.removed@),
        ensures
            r == self@.removed_range(),
    {
        TextRange::new(self.start, position_after(self.start, self.removed.as_str()))
    }

    pub fn inserted_range(&self) -> (r: TextRange)
        requires
            position_after_fits(self.start, self.inserted@),
        ensures
            r == self@.inserted_range(),
    {
        TextRange::new(self.start, position_after(self.start, self.inserted.as_str()))
    }

    pub fn is_noop(&self) -> (b: bool)
        ensures
            b == (self.removed@ == self.inserted@),
    {
        self.removed == self.inserted
    }
}

/// The lines of a document and the file it belongs to, if any.
#[derive(Debug)]
pub struct Buffer {
    lines: Vec<String>,
    path: Option<PathBuf>,
}

impl View for Buffer {
    type V = Seq<Seq<char>>;

    closed spec fn view(&self) -> Seq<Seq<char>> {
        strings_view(self.lines@)
    }
}

impl Buffer {
    /// A buffer always has at least one line and no line holds a line feed.
    #[verifier::type_invariant]
    pub open spec fn well_formed(&self) -> bool {
        lines_wf(self@)
    }

    pub closed spec fn path_spec(&self) -> Option<PathBuf> {
        self.path
    }

    pub fn new() -> (b: Self)
        ensures
            b@ == seq![Seq::<char>::empty()],
            b.path_spec() is None,
            lines_wf(b@),
    {
        let b = Self::from_text(None, "");
        proof {
            reveal_strlit("");
            assert(split_lines(""@) =~= seq![Seq::<char>::empty()]);
            assert(b@ =~= seq![Seq::<char>::empty()]);
        }
        b
    }

    pub fn from_text(path: Option<PathBuf>, text: &str) -> (b: Self)
        ensures
            b@ == lines_of_text(text@),
            b.path_spec() == path,
            lines_wf(b@),
    {
        let pieces = split_into_lines(text);
        let mut lines: Vec<String> = Vec::new();
        let n = pieces.len();
        let ghost split = split_lines(text@);
        for i in 0..n
            invariant
                n == pieces@.len(),
                strings_view(pieces@) == split,
                lines_wf(split),
                strings_view(lines@) == split.take(i as int).map_values(
                    |line: Seq<char>| strip_cr(line),
                ),
        {
            let line = strip_carriage_return(pieces[i].as_str());
            let ghost line_view = line@;
            let ghost old_lines = lines@;
            lines.push(line);
            proof {
                assert(pieces@[i as int]@ == split[i as int]);
                assert(split.take(i + 1).map_values(|line: Seq<char>| strip_cr(line))
                    =~= split.take(i as int).map_values(|line: Seq<char>| strip_cr(line)).push(
                    strip_cr(split[i as int]),
                ));
                assert(strings_view(lines@) =~= strings_view(old_lines).push(line_view));
            }
        }
        proof {
            assert(split.take(n as int) =~= split);
            let out = strings_view(lines@);
            assert forall|i: int| 0 <= i < out.len() implies #[trigger] no_newline(out[i]) by {
                assert(no_newline(split[i]));
            }
            assert forall|i: int| 0 <= i < out.len() implies #[trigger] out[i].len()
                <= usize::MAX by {
                assert(split[i].len() <= usize::MAX);
            }
        }
        Self { lines, path }
    }

    pub fn path(&self) -> (r: Option<&Path>)
        ensures
            r is None <==> self.path_spec() is None,
    {
        match &self.path {
            Some(path) => Some(path_buf_as_path(path)),
            None => None,
        }
    }

    /// The last component of the buffer's path, or `[untitled]`.
    pub fn display_name(&self) -> (name: String)
        ensures
            name@ == display_name_spec(
                match self.path_spec() {
                    Some(path) => path_file_name_text(path),
                    None => None,
                },
            ),
    {
        match &self.path {
            Some(path) => name_or_untitled(file_name_text(path)),
            None => name_or_untitled(None),
        }
    }

    pub fn lines(&self) -> (r: &[String])
        ensures
            strings_view(r@) == self@,
    {
        self.lines.as_slice()
    }

    pub fn line(&self, line: usize) -> (r: Option<&str>)
        ensures
            r is Some <==> line < self@.len(),
            r matches Some(text) ==> text@ == self@[line as int],
    {
        if line < self.lines.len() {
            Some(self.lines[line].as_str())
        } else {
            None
        }
    }

    pub fn line_count(&self) -> (n: usize)
        ensures
            n == self@.len(),
            n >= 1,
    {
        proof {
            use_type_invariant(self);
        }
        self.lines.len()
    }

    /// Returns a line length in Unicode scalar values, matching cursor columns.
    pub fn line_len(&self, line: usize) -> (n: usize)
        ensures
            n == line_len_spec(self@, line as int),
    {
        if line < self.lines.len() {
            self.lines[line].as_str().unicode_len()
        } else {
            0
        }
    }

    pub fn text(&self) -> (t: String)
        ensures
            t@ == join_lines(self@),
    {
        proof {
            use_type_invariant(self);
        }
        let ghost ls = self@;
        let n = self.lines.len();
        let mut text = String::new();
        text.append(self.lines[0].as_str());
        let mut i: usize = 1;
        while i < n
            invariant
                n == ls.len(),
                ls == self@,
                1 <= i <= n,
                text@ == join_lines(ls.take(i as int)),
            decreases n - i,
        {
            push_char(&mut text, '\n');
            text.append(self.lines[i].as_str());
            proof {
                assert(ls.take(i + 1).drop_last() =~= ls.take(i as int));
                assert(ls.take(i + 1).last() == ls[i as int]);
            }
            i = i + 1;
        }
        proof {
            assert(ls.take(n as int) =~= ls);
            assert(ls.take(1) =~= seq![ls[0]]);
        }
        text
    }

    pub fn clamp_position(&self, position: Position) -> (p: Position)
        ensures
            p == clamp_position_spec(self@, position),
            position_in(self@, p),
    {
        proof {
            use_type_invariant(self);
        }
        let last = self.line_count().saturating_sub(1);
        let line = if position.line <= last { position.line } else { last };
        let len = self.line_len(line);
        Position::new(line, if position.column <= len { position.column } else { len })
    }

    pub fn text_in_range(&self, range: TextRange) -> (t: String)
        ensures
            t@ == text_in_range_spec(self@, clamp_range_spec(self@, range)),
    {
        let range = self.clamp_range(range);
        let ghost ls = self@;
        if range.is_empty() {
            return String::new();
        }
        let sl = range.start.line;
        let el = range.end.line;
        if sl == el {
            return self.lines[sl].as_str().substring_char(range.start.column, range.end.column).to_owned();
        }
        let first_len = self.lines[sl].as_str().unicode_len();
        let mut text = String::new();
        text.append(self.lines[sl].as_str().substring_char(range.start.column, first_len));
        push_char(&mut text, '\n');
        let ghost first = ls[sl as int].skip(range.start.column as int);
        let mut line = sl + 1;
        while line < el
            invariant
                ls == self@,
                sl < line <= el < ls.len(),
                text@ == join_lines(seq![first] + ls.subrange(sl + 1, line as int)) + seq!['\n'],
            decreases el - line,
        {
            text.append(self.lines[line].as_str());
            push_char(&mut text, '\n');
            proof {
                let q = seq![first] + ls.subrange(sl + 1, line as int);
                let q2 = seq![first] + ls.subrange(sl + 1, line + 1);
                assert(q2.drop_last() =~= q);
                assert(q2.last() == ls[line as int]);
            }
            line = line + 1;
        }
        text.append(self.lines[el].as_str().substring_char(0, range.end.column));
        proof {
            let q = seq![first] + ls.subrange(sl + 1, el as int);
            let q2 = q + seq![ls[el as int].take(range.end.column as int)];
            assert(q2.drop_last() =~= q);
        }
        text
    }

    /// Applies every edit through one range-replacement primitive.
    ///
    /// Insert, paste, delete, line split, line join, cut, undo, and redo can all be
    /// represented by this operation, which keeps future editing features composable.
    pub fn replace_range(&mut self, range: TextRange, replacement: &str) -> (change: TextChange)
        ensures
            ({
                let r = clamp_range_spec(old(self)@, range);
                &&& final(self)@ == replace_range_spec(old(self)@, r, replacement@)
                &&& change@ == (ChangeView {
                    start: r.start,
                    removed: text_in_range_spec(old(self)@, r),
                    inserted: replacement@,
                })
                &&& range_in(old(self)@, r)
            }),
            final(self).path_spec() == old(self).path_spec(),
            lines_wf(final(self)@),
    {
        proof {
            use_type_invariant(&*self);
        }
        let ghost ls = self@;
        let range = self.clamp_range(range);
        let removed = self.text_in_range(range);
        let sl = range.start.line;
        let el = range.end.line;
        let end_len = self.lines[el].as_str().unicode_len();
        let mut combined = self.lines[sl].as_str().substring_char(0, range.start.column).to_owned();
        combined.append(replacement);
        combined.append(self.lines[el].as_str().substring_char(range.end.column, end_len));
        let mut new_lines = split_into_lines(combined.as_str());
        let mut result: Vec<String> = Vec::new();
        result.push(String::new());
        std::mem::swap(&mut result, &mut self.lines);
        let mut tail = result.split_off(el + 1);
        result.truncate(sl);
        result.append(&mut new_lines);
        result.append(&mut tail);
        proof {
            let out = strings_view(result@);
            assert(out =~= replace_range_spec(ls, range, replacement@));
            let mid = split_lines(combined@);
            lemma_split_basics(combined@);
            assert forall|i: int| 0 <= i < out.len() implies #[trigger] no_newline(out[i])
                && out[i].len() <= usize::MAX by {
                if i < sl {
                    assert(out[i] == ls[i]);
                } else if i < sl + mid.len() {
                    assert(out[i] == mid[i - sl]);
                } else {
                    assert(out[i] == ls[i - sl - mid.len() + el + 1]);
                }
            }
        }
        // the new line count is a `usize`, which the buffer invariant asks of it
        let line_count = result.len();
        proof {
            assert(strings_view(result@).len() == line_count);
        }
        self.lines = result;
        TextChange { start: range.start, removed, inserted: replacement.to_owned() }
    }

    fn clamp_range(&self, range: TextRange) -> (r: TextRange)
        ensures
            r == clamp_range_spec(self@, range),
            range_in(self@, r),
    {
        let range = range.normalized();
        TextRange::new(self.clamp_position(range.start), self.clamp_position(range.end)).normalized()
    }
}

/// A copy of a path (std's `PathBuf::clone`): the same path.
#[verifier::external_body]
fn clone_path(path: &PathBuf) -> (r: PathBuf)
    ensures
        r == *path,
{
    path.clone()
}

/// The name shown for a file: its file name as text, or `[untitled]` where there
/// is none.
pub open spec fn display_name_spec(file_name: Option<Seq<char>>) -> Seq<char> {
    match file_name {
        Some(text) => text,
        None => "[untitled]"@,
    }
}

/// The name shown for a buffer, given the file name of its path as text (`None`
/// for no path, or a path without a file name).
pub fn name_or_untitled(file_name: Option<String>) -> (name: String)
    ensures
        name@ == display_name_spec(
            match file_name {
                Some(text) => Some(text@),
                None => None,
            },
        ),
{
    match file_name {
        Some(text) => text,
        None => "[untitled]".to_owned(),
    }
}

impl Clone for Buffer {
    /// A buffer with the same lines and a copy of the path.
    fn clone(&self) -> (b: Self)
        ensures
            b@ == self@,
            b.path_spec() == self.path_spec(),
    {
        proof {
            use_type_invariant(self);
        }
        let n = self.lines.len();
        let mut lines: Vec<String> = Vec::new();
        for i in 0..n
            invariant
                n == self@.len(),
                strings_view(lines@) == self@.take(i as int),
        {
            let line = self.lines[i].clone();
            let ghost old_lines = lines@;
            lines.push(line);
            proof {
                assert(strings_view(lines@) =~= strings_view(old_lines).push(self@[i as int]));
                assert(self@.take(i + 1) =~= self@.take(i as int).push(self@[i as int]));
            }
        }
        proof {
            assert(self@.take(n as int) =~= self@);
        }
        let path = match &self.path {
            Some(path) => Some(clone_path(path)),
            None => None,
        };
        Buffer { lines, path }
    }
}

impl Default for Buffer {
    fn default() -> (b: Self)
        ensures
            b@ == seq![Seq::<char>::empty()],
    {
        Self::new()
    }
}

/// Where text inserted at `start` ends.
pub fn position_after(start: Position, text: &str) -> (p: Position)
    requires
        position_after_fits(start, text@),
    ensures
        p == position_after_spec(start, text@),
{
    let n = text.unicode_len();
    let mut line_count: usize = 0;
    let mut final_column: usize = 0;
    let ghost s = text@;
    for c in it: text.chars()
        invariant
            n == s.len(),
            it.seq() == s,
            line_count + 1 == split_lines(s.take(it.index() as int)).len(),
            final_column == split_lines(s.take(it.index() as int)).last().len(),
            line_count <= it.index() <= n,
            final_column <= it.index(),
    {
        proof {
            let k = it.index() as int;
            assert(s.take(k + 1).drop_last() =~= s.take(k));
            assert(s.take(k + 1).last() == c);
            lemma_split_basics(s.take(k));
        }
        if c == '\n' {
            line_count = line_count + 1;
            final_column = 0;
        } else {
            final_column = final_column + 1;
        }
    }
    proof {
        assert(s.take(n as int) =~= s);
    }
    if line_count == 0 {
        Position::new(start.line, start.column + final_column)
    } else {
        Position::new(start.line + line_count, final_column)
    }
}

/// The pieces of a text between its line feeds.
fn split_into_lines(text: &str) -> (lines: Vec<String>)
    ensures
        strings_view(lines@) == split_lines(text@),
        lines_wf(split_lines(text@)),
{
    let n = text.unicode_len();
    let ghost s = text@;
    let mut lines: Vec<String> = Vec::new();
    let mut current = String::new();
    for c in it: text.chars()
        invariant
            n == s.len(),
            it.seq() == s,
            strings_view(lines@).push(current@) == split_lines(s.take(it.index() as int)),
    {
        proof {
            let k = it.index() as int;
            assert(s.take(k + 1).drop_last() =~= s.take(k));
            assert(s.take(k + 1).last() == c);
            lemma_split_basics(s.take(k));
        }
        if c == '\n' {
            let mut done = String::new();
            std::mem::swap(&mut done, &mut current);
            lines.push(done);
        } else {
            push_char(&mut current, c);
        }
        proof {
            let k = it.index() as int;
            assert(strings_view(lines@).push(current@) =~= split_lines(s.take(k + 1)));
        }
    }
    lines.push(current);
    let count = lines.len();
    proof {
        assert(s.take(n as int) =~= s);
        assert(strings_view(lines@) =~= split_lines(s));
        assert(split_lines(s).len() == count);
        lemma_split_basics(s);
        assert forall|i: int| 0 <= i < split_lines(s).len() implies #[trigger] split_lines(
            s,
        )[i].len() <= usize::MAX by {
            assert(split_lines(s)[i].len() <= s.len());
        }
    }
    lines
}

/// A line without its final carriage return, if any.
fn strip_carriage_return(line: &str) -> (r: String)
    ensures
        r@ == strip_cr(line@),
{
    let n = line.unicode_len();
    if n > 0 && line.get_char(n - 1) == '\r' {
        line.substring_char(0, n - 1).to_owned()
    } else {
        line.to_owned()
    }
}

/// Clamping a range that already lies inside the text leaves it as it is.
pub proof fn lemma_clamp_range_in(ls: Seq<Seq<char>>, r: TextRange)
    requires
        lines_wf(ls),
        range_in(ls, r),
    ensures
        clamp_range_spec(ls, r) == r,
        clamp_position_spec(ls, r.start) == r.start,
        clamp_position_spec(ls, r.end) == r.end,
{
}

/// Clamping always yields a range inside the text.
pub proof fn lemma_clamp_range_is_in(ls: Seq<Seq<char>>, r: TextRange)
    requires
        lines_wf(ls),
    ensures
        range_in(ls, clamp_range_spec(ls, r)),
        position_in(ls, clamp_position_spec(ls, r.start)),
{
}

proof fn lemma_subrange_no_newline(s: Seq<char>, i: int, j: int)
    requires
        no_newline(s),
        0 <= i <= j <= s.len(),
    ensures
        no_newline(s.subrange(i, j)),
{
    assert forall|k: int| 0 <= k < j - i implies s.subrange(i, j)[k] != '\n' by {
        assert(s.subrange(i, j)[k] == s[i + k]);
    }
}

/// The pieces that the text of a range that crosses lines is joined from.
spec fn crossing_pieces(ls: Seq<Seq<char>>, r: TextRange) -> Seq<Seq<char>> {
    seq![ls[r.start.line as int].skip(r.start.column as int)] + ls.subrange(
        r.start.line + 1,
        r.end.line as int,
    ) + seq![ls[r.end.line as int].take(r.end.column as int)]
}

proof fn lemma_crossing_pieces(ls: Seq<Seq<char>>, r: TextRange)
    requires
        lines_wf(ls),
        range_in(ls, r),
        r.start.line < r.end.line,
    ensures
        crossing_pieces(ls, r).len() == r.end.line - r.start.line + 1,
        forall|i: int|
            0 <= i < crossing_pieces(ls, r).len() ==> #[trigger] no_newline(
                crossing_pieces(ls, r)[i],
            ),
        split_lines(text_in_range_spec(ls, r)) == crossing_pieces(ls, r),
{
    let q = crossing_pieces(ls, r);
    let sl = r.start.line as int;
    let el = r.end.line as int;
    assert(no_newline(ls[sl]));
    assert(no_newline(ls[el]));
    lemma_subrange_no_newline(ls[sl], r.start.column as int, ls[sl].len() as int);
    lemma_subrange_no_newline(ls[el], 0, r.end.column as int);
    assert forall|i: int| 0 <= i < q.len() implies #[trigger] no_newline(q[i]) by {
        if i == 0 {
            assert(q[i] == ls[sl].skip(r.start.column as int));
        } else if i < q.len() - 1 {
            assert(q[i] == ls[sl + i]);
        } else {
            assert(q[i] == ls[el].take(r.end.column as int));
        }
    }
    lemma_split_join(q);
}

/// The text of a range inside the text ends, when inserted at the range's start,
/// exactly at the range's end: a change's removed range is the range it replaced.
pub proof fn lemma_removed_range(ls: Seq<Seq<char>>, r: TextRange)
    requires
        lines_wf(ls),
        range_in(ls, r),
    ensures
        position_after_fits(r.start, text_in_range_spec(ls, r)),
        position_after_spec(r.start, text_in_range_spec(ls, r)) == r.end,
{
    let sl = r.start.line as int;
    let el = r.end.line as int;
    let d = text_in_range_spec(ls, r);
    if sl == el {
        assert(no_newline(ls[sl]));
        lemma_subrange_no_newline(ls[sl], r.start.column as int, r.end.column as int);
        lemma_split_single(d);
    } else {
        lemma_crossing_pieces(ls, r);
    }
}

/// The start line up to a range, the range's text, and the end line after the
/// range are, split into lines, exactly the lines that the range touches.
proof fn lemma_framed_text_is_lines(ls: Seq<Seq<char>>, r: TextRange)
    requires
        lines_wf(ls),
        range_in(ls, r),
    ensures
        split_lines(
            ls[r.start.line as int].take(r.start.column as int) + text_in_range_spec(ls, r)
                + ls[r.end.line as int].skip(r.end.column as int),
        ) == ls.subrange(r.start.line as int, r.end.line + 1),
{
    let sl = r.start.line as int;
    let el = r.end.line as int;
    let pre = ls[sl].take(r.start.column as int);
    let suf = ls[el].skip(r.end.column as int);
    let d = text_in_range_spec(ls, r);
    let mid = ls.subrange(sl, el + 1);
    if sl == el {
        assert(pre + d + suf =~= ls[sl]);
        lemma_split_single(ls[sl]);
        assert(split_lines(pre + d + suf) =~= mid);
    } else {
        lemma_crossing_pieces(ls, r);
        let q = crossing_pieces(ls, r);
        lemma_join_extend_first(q, pre);
        let q1 = q.update(0, pre + q[0]);
        lemma_join_extend_last(q1, suf);
        let q2 = q1.update(q1.len() - 1, q1.last() + suf);
        assert(pre + q[0] =~= ls[sl]);
        assert(q1.last() + suf =~= ls[el]);
        assert(q2 =~= mid);
        assert(pre + d + suf =~= join_lines(mid));
        assert forall|i: int| 0 <= i < mid.len() implies #[trigger] no_newline(mid[i]) by {
            assert(mid[i] == ls[sl + i]);
        }
        lemma_split_join(mid);
    }
}

/// Replacing the text of a range by that same text leaves the lines as they are.
pub proof fn lemma_replace_with_own_text(ls: Seq<Seq<char>>, r: TextRange)
    requires
        lines_wf(ls),
        range_in(ls, r),
    ensures
        replace_range_spec(ls, r, text_in_range_spec(ls, r)) == ls,
{
    lemma_framed_text_is_lines(ls, r);
    assert(replace_range_spec(ls, r, text_in_range_spec(ls, r)) =~= ls);
}

/// Replacing a range inside the text by `t`, then replacing the inserted text by
/// what was removed, gives back the original lines; the inserted range of the
/// change lies inside the new text and reads back as `t`.
pub proof fn lemma_replace_round_trip(ls: Seq<Seq<char>>, r: TextRange, t: Seq<char>)
    requires
        lines_wf(ls),
        range_in(ls, r),
        lines_wf(replace_range_spec(ls, r, t)),
    ensures
        ({
            let n = replace_range_spec(ls, r, t);
            let inserted = TextRange { start: r.start, end: position_after_spec(r.start, t) };
            &&& position_after_fits(r.start, t)
            &&& range_in(n, inserted)
            &&& text_in_range_spec(n, inserted) == t
            &&& replace_range_spec(n, inserted, text_in_range_spec(ls, r)) == ls
        }),
{
    let sl = r.start.line as int;
    let el = r.end.line as int;
    let sc = r.start.column as int;
    let ec = r.end.column as int;
    let n = replace_range_spec(ls, r, t);
    let pre = ls[sl].take(sc);
    let suf = ls[el].skip(ec);
    assert(no_newline(ls[sl]));
    assert(no_newline(ls[el]));
    lemma_subrange_no_newline(ls[sl], 0, sc);
    lemma_subrange_no_newline(ls[el], ec, ls[el].len() as int);
    lemma_split_framed(pre, t, suf);
    lemma_join_split(t);
    let p = split_lines(t);
    let m = split_lines(pre + t + suf);
    let k = p.len() - 1;
    assert(n.len() == sl + k + 1 + (ls.len() - el - 1));
    assert forall|j: int| 0 <= j <= k implies #[trigger] n[sl + j] == m[j] by {}
    let e = position_after_spec(r.start, t);
    let inserted = TextRange { start: r.start, end: e };
    assert(n[sl].len() <= usize::MAX);
    assert(n[sl + k] == m[k]);
    // the inserted text reads back
    if k == 0 {
        assert(m[0] == pre + p[0] + suf);
        assert(t == p[0]);
        assert(n[sl].subrange(sc, sc + p[0].len()) =~= p[0]);
    } else {
        assert(m[0] == pre + p[0]);
        assert(m[k] == p.last() + suf);
        let q = crossing_pieces(n, inserted);
        assert(n[sl].skip(sc) =~= p[0]);
        assert(n[sl + k].take(p.last().len() as int) =~= p.last());
        assert forall|i: int| 0 <= i < q.len() implies #[trigger] q[i] == p[i] by {
            if 0 < i < k {
                assert(q[i] == n[sl + i]);
                assert(m[i] == p[i]);
            }
        }
        assert(q =~= p);
    }
    // replacing the inserted text by the removed text restores the lines
    let d = text_in_range_spec(ls, r);
    let pre2 = n[sl].take(sc);
    let suf2 = n[sl + k].skip(e.column as int);
    assert(pre2 =~= pre);
    assert(suf2 =~= suf);
    lemma_framed_text_is_lines(ls, r);
    assert(replace_range_spec(n, inserted, d) =~= ls);
}

/// What the undo history relies on: after `replace_range`, replacing the change's
/// inserted range by its removed text restores the buffer, and the inserted range
/// reads back as the inserted text; on the restored buffer, replacing the removed
/// range (which reads back as the removed text) by the inserted text repeats the edit.
pub proof fn lemma_replace_undo_redo(ls: Seq<Seq<char>>, range: TextRange, t: Seq<char>)
    requires
        lines_wf(ls),
        lines_wf(replace_range_spec(ls, clamp_range_spec(ls, range), t)),
    ensures
        ({
            let r = clamp_range_spec(ls, range);
            let n = replace_range_spec(ls, r, t);
            let c = ChangeView { start: r.start, removed: text_in_range_spec(ls, r), inserted: t };
            &&& c.fits()
            &&& clamp_range_spec(n, c.inserted_range()) == c.inserted_range()
            &&& text_in_range_spec(n, c.inserted_range()) == c.inserted
            &&& replace_range_spec(n, c.inserted_range(), c.removed) == ls
            &&& clamp_range_spec(ls, c.removed_range()) == c.removed_range()
            &&& text_in_range_spec(ls, c.removed_range()) == c.removed
            &&& replace_range_spec(ls, c.removed_range(), c.inserted) == n
        }),
{
    let r = clamp_range_spec(ls, range);
    lemma_clamp_range_is_in(ls, range);
    lemma_removed_range(ls, r);
    lemma_replace_round_trip(ls, r, t);
    let n = replace_range_spec(ls, r, t);
    let inserted = TextRange { start: r.start, end: position_after_spec(r.start, t) };
    lemma_clamp_range_in(n, inserted);
    lemma_clamp_range_in(ls, r);
}

/// Where a position lies in the text as one sequence of characters: the lengths
/// of the lines before it, each with its line feed, then the column.
pub open spec fn text_offset(ls: Seq<Seq<char>>, p: Position) -> int {
    if p.line == 0 {
        p.column as int
    } else {
        join_lines(ls.take(p.line as int)).len() + 1 + p.column
    }
}

/// The text of the lines before `line`, with the line feed that ends the last of them.
spec fn text_before_line(ls: Seq<Seq<char>>, line: int) -> Seq<char> {
    if line == 0 {
        Seq::<char>::empty()
    } else {
        join_lines(ls.take(line)) + seq!['\n']
    }
}

/// The text of the lines after `line`, with the line feed that starts the first of them.
spec fn text_after_line(ls: Seq<Seq<char>>, line: int) -> Seq<char> {
    if line + 1 == ls.len() {
        Seq::<char>::empty()
    } else {
        seq!['\n'] + join_lines(ls.skip(line + 1))
    }
}

/// Joining the lines before `sl`, then `m`, then the lines after `el`.
proof fn lemma_join_around(ls: Seq<Seq<char>>, sl: int, el: int, m: Seq<Seq<char>>)
    requires
        0 <= sl <= el < ls.len(),
        m.len() >= 1,
    ensures
        join_lines(ls.take(sl) + m + ls.skip(el + 1)) == text_before_line(ls, sl) + join_lines(m)
            + text_after_line(ls, el),
{
    let a = ls.take(sl);
    let c = ls.skip(el + 1);
    if sl == 0 {
        assert(a + m =~= m);
    } else {
        lemma_join_concat(a, m);
    }
    if el + 1 == ls.len() {
        assert(a + m + c =~= a + m);
        assert(join_lines(a + m) =~= text_before_line(ls, sl) + join_lines(m));
    } else {
        lemma_join_concat(a + m, c);
        assert(join_lines(a + m) =~= text_before_line(ls, sl) + join_lines(m));
    }
}

/// The whole text around a range inside it: the text before the range's start
/// line, the start line up to the range, the range's text, the end line after the
/// range, and the text after the end line.
proof fn lemma_text_around_range(ls: Seq<Seq<char>>, r: TextRange)
    requires
        lines_wf(ls),
        range_in(ls, r),
    ensures
        join_lines(ls) == text_before_line(ls, r.start.line as int) + ls[r.start.line as int].take(
            r.start.column as int,
        ) + text_in_range_spec(ls, r) + ls[r.end.line as int].skip(r.end.column as int)
            + text_after_line(ls, r.end.line as int),
{
    let sl = r.start.line as int;
    let el = r.end.line as int;
    let mid = ls.subrange(sl, el + 1);
    lemma_join_around(ls, sl, el, mid);
    assert(ls.take(sl) + mid + ls.skip(el + 1) =~= ls);
    lemma_framed_text_is_lines(ls, r);
    let framed = ls[sl].take(r.start.column as int) + text_in_range_spec(ls, r) + ls[el].skip(
        r.end.column as int,
    );
    lemma_join_split(framed);
    assert(join_lines(ls) =~= text_before_line(ls, sl) + framed + text_after_line(ls, el));
}

/// On the text as one sequence of characters, `replace_range` does what its name
/// says: the range's text is the characters between the offsets of its ends, and
/// the new text is the old text before the start, then `t`, then the old text
/// after the end.
pub proof fn lemma_replace_range_text(ls: Seq<Seq<char>>, r: TextRange, t: Seq<char>)
    requires
        lines_wf(ls),
        range_in(ls, r),
    ensures
        ({
            let text = join_lines(ls);
            let start = text_offset(ls, r.start);
            let end = text_offset(ls, r.end);
            &&& 0 <= start <= end <= text.len()
            &&& text.subrange(start, end) == text_in_range_spec(ls, r)
            &&& join_lines(replace_range_spec(ls, r, t)) == text.take(start) + t + text.skip(end)
        }),
{
    let sl = r.start.line as int;
    let el = r.end.line as int;
    let text = join_lines(ls);
    let before = text_before_line(ls, sl);
    let pre = ls[sl].take(r.start.column as int);
    let d = text_in_range_spec(ls, r);
    let suf = ls[el].skip(r.end.column as int);
    let after = text_after_line(ls, el);
    lemma_text_around_range(ls, r);
    // the same text around the empty range at the end
    let at_end = TextRange { start: r.end, end: r.end };
    lemma_text_around_range(ls, at_end);
    let before_end = text_before_line(ls, el);
    let pre_end = ls[el].take(r.end.column as int);
    assert(text_in_range_spec(ls, at_end) =~= Seq::<char>::empty());
    assert(before.len() + pre.len() == text_offset(ls, r.start));
    assert(before_end.len() + pre_end.len() == text_offset(ls, r.end));
    assert(text == before + pre + d + suf + after);
    assert(text == before_end + pre_end + Seq::<char>::empty() + suf + after);
    assert(text.len() == before.len() + pre.len() + d.len() + suf.len() + after.len());
    assert(text.len() == before_end.len() + pre_end.len() + suf.len() + after.len());
    let start = text_offset(ls, r.start);
    let end = text_offset(ls, r.end);
    assert(end == start + d.len());
    assert(text.subrange(start, end) =~= d);
    // the new text
    let n = replace_range_spec(ls, r, t);
    let m = split_lines(pre + t + suf);
    lemma_split_basics(pre + t + suf);
    lemma_join_around(ls, sl, el, m);
    assert(n =~= ls.take(sl) + m + ls.skip(el + 1));
    lemma_join_split(pre + t + suf);
    assert(text.take(start) =~= before + pre);
    assert(text.skip(end) =~= suf + after);
    assert(join_lines(n) =~= text.take(start) + t + text.skip(end));
}

/// A text without carriage returns, split into a buffer's lines and joined
/// again, is the text itself.
pub proof fn lemma_lines_of_text_join(text: Seq<char>)
    requires
        forall|i: int| 0 <= i < text.len() ==> text[i] != '\r',
    ensures
        join_lines(lines_of_text(text)) == text,
{
    let p = split_lines(text);
    lemma_split_basics(text);
    assert forall|i: int| 0 <= i < p.len() implies #[trigger] strip_cr(p[i]) == p[i] by {
        lemma_split_piece_has_no_cr(text, i);
    }
    assert(lines_of_text(text) =~= p);
    lemma_join_split(text);
}

/// Each piece of a split text without carriage returns holds none.
proof fn lemma_split_piece_has_no_cr(text: Seq<char>, i: int)
    requires
        forall|j: int| 0 <= j < text.len() ==> text[j] != '\r',
        0 <= i < split_lines(text).len(),
    ensures
        strip_cr(split_lines(text)[i]) == split_lines(text)[i],
    decreases text.len(),
{
    lemma_split_basics(text);
    if text.len() > 0 {
        let r = split_lines(text.drop_last());
        lemma_split_basics(text.drop_last());
        assert forall|j: int| 0 <= j < text.drop_last().len() implies text.drop_last()[j] != '\r' by {
            assert(text.drop_last()[j] == text[j]);
        }
        assert(text.last() == text[text.len() - 1]);
        if i < r.len() {
            lemma_split_piece_has_no_cr(text.drop_last(), i);
        }
        if text.last() != '\n' && i == r.len() - 1 {
            assert(split_lines(text)[i] == r[i].push(text.last()));
        }
    }
}

} // verus!
