//! The line buffer being edited and the cursor that moves through it.
use vstd::prelude::*;

use crate::text::{owned, push_char, push_text};
use vstd::string::StrSliceExecFns;

verus! {

/// A position in the buffer: a line, a column in it, and the column that
/// moving up remembers.
#[derive(Debug, Copy, Clone, PartialEq, Eq, Structural)]
pub struct Cursor {
    pub line: usize,
    pub col: usize,
    pub max_col: usize,
}

/// The text being edited, as a sequence of lines, and the cursor.
pub struct Editor {
    file: Vec<String>,
    cursor: Cursor,
}

/// The state of an editor: its lines and where the cursor stands.
pub struct EditorView {
    pub lines: Seq<Seq<char>>,
    pub line: nat,
    pub col: nat,
    pub max_col: nat,
}

/// One edit of the text.
pub enum Edit {
    Push(char),
    Backspace,
    NewLine,
}

/// The characters of each line.
pub open spec fn lines_of(file: Seq<String>) -> Seq<Seq<char>> {
    file.map_values(|s: String| s@)
}

/// The smaller of two numbers.
pub open spec fn min_nat(a: nat, b: nat) -> nat {
    if a <= b {
        a
    } else {
        b
    }
}

impl EditorView {
    /// At least one line, and the cursor on one of them.
    pub open spec fn valid(self) -> bool {
        self.lines.len() >= 1 && self.line < self.lines.len()
    }

    /// Valid, and the cursor within its line's text or just after it.
    pub open spec fn in_text(self) -> bool {
        self.valid() && self.col <= self.lines[self.line as int].len()
    }

    /// The line the cursor is on.
    pub open spec fn current(self) -> Seq<char> {
        self.lines[self.line as int]
    }

    /// `c` typed at the cursor: inserted before the cursor's column, or added
    /// at the end where the column is at or past the end of the line.
    pub open spec fn pushed(self, c: char) -> EditorView {
        let s = self.current();
        let s2 = if self.col >= s.len() {
            s.push(c)
        } else {
            s.insert(self.col as int, c)
        };
        EditorView { lines: self.lines.update(self.line as int, s2), col: self.col + 1, ..self }
    }

    /// Backspace: nothing at the start of the text; at the start of a line the
    /// line is joined onto the one above; else the character before the cursor
    /// goes. Past the end of the line the cursor only steps back.
    pub open spec fn backspaced(self) -> EditorView {
        let s = self.current();
        if self.line == 0 && self.col == 0 {
            self
        } else if self.col == 0 {
            let prev = self.lines[self.line - 1];
            EditorView {
                lines: self.lines.update(self.line - 1, prev + s).remove(self.line as int),
                line: (self.line - 1) as nat,
                col: prev.len(),
                ..self
            }
        } else if self.col <= s.len() {
            EditorView {
                lines: self.lines.update(self.line as int, s.remove(self.col - 1)),
                col: (self.col - 1) as nat,
                ..self
            }
        } else {
            EditorView { col: (self.col - 1) as nat, ..self }
        }
    }

    /// The current line split at the cursor; the cursor goes to the start of
    /// the new second part.
    pub open spec fn line_split(self) -> EditorView {
        let s = self.current();
        let k = min_nat(self.col, s.len());
        EditorView {
            lines: self.lines.update(self.line as int, s.subrange(0, k as int)).insert(
                self.line + 1int,
                s.subrange(k as int, s.len() as int),
            ),
            line: self.line + 1,
            col: 0,
            ..self
        }
    }

    /// One column left, or to the end of the line above from the start of a line.
    pub open spec fn moved_left(self) -> EditorView {
        if self.col > 0 {
            EditorView { col: (self.col - 1) as nat, ..self }
        } else if self.line > 0 {
            EditorView {
                line: (self.line - 1) as nat,
                col: self.lines[self.line - 1].len(),
                ..self
            }
        } else {
            self
        }
    }

    /// One column right, or to the start of the next line from the end of a line.
    pub open spec fn moved_right(self) -> EditorView {
        if self.col < self.current().len() {
            EditorView { col: self.col + 1, ..self }
        } else if self.line + 1 < self.lines.len() {
            EditorView { line: self.line + 1, col: 0, ..self }
        } else {
            self
        }
    }

    /// One line up, remembering the column and keeping it within the new line.
    pub open spec fn moved_up(self) -> EditorView {
        if self.line > 0 {
            EditorView {
                line: (self.line - 1) as nat,
                col: min_nat(self.col, self.lines[self.line - 1].len()),
                max_col: self.col,
                ..self
            }
        } else {
            self
        }
    }

    /// One line down where there is a line below; the column is kept as it is.
    pub open spec fn moved_down(self) -> EditorView {
        if self.line + 1 < self.lines.len() {
            EditorView { line: self.line + 1, ..self }
        } else {
            self
        }
    }

    /// The state after one edit.
    pub open spec fn edited(self, e: Edit) -> EditorView {
        match e {
            Edit::Push(c) => self.pushed(c),
            Edit::Backspace => self.backspaced(),
            Edit::NewLine => self.line_split(),
        }
    }

    /// The state after a sequence of edits, in order.
    pub open spec fn edited_by(self, edits: Seq<Edit>) -> EditorView
        decreases edits.len(),
    {
        if edits.len() == 0 {
            self
        } else {
            self.edited_by(edits.drop_last()).edited(edits.last())
        }
    }
}

impl View for Editor {
    type V = EditorView;

    closed spec fn view(&self) -> EditorView {
        EditorView {
            lines: lines_of(self.file@),
            line: self.cursor.line as nat,
            col: self.cursor.col as nat,
            max_col: self.cursor.max_col as nat,
        }
    }
}

impl Editor {
    /// The buffer's lines and cursor are consistent.
    pub closed spec fn wf(&self) -> bool {
        self@.valid()
    }

    /// The cursor as it stands.
    pub closed spec fn cursor_spec(&self) -> Cursor {
        self.cursor
    }

    /// An empty text: one empty line, the cursor at its start.
    pub fn new() -> (r: Editor)
        ensures
            r.wf(),
            r@.lines == seq![Seq::<char>::empty()],
            r@.line == 0 && r@.col == 0 && r@.max_col == 0,
    {
        let mut file: Vec<String> = Vec::new();
        file.push(String::new());
        let r = Editor { file, cursor: Cursor { line: 0, col: 0, max_col: 0 } };
        assert(r@.lines =~= seq![Seq::<char>::empty()]);
        r
    }

    /// The lines of the text.
    pub fn get_file(&self) -> (r: Vec<String>)
        ensures
            lines_of(r@) == self@.lines,
    {
        self.file.clone()
    }

    /// The cursor.
    pub fn get_cursor(&self) -> (r: Cursor)
        ensures
            r == self.cursor_spec(),
            r.line as nat == self@.line,
            r.col as nat == self@.col,
            r.max_col as nat == self@.max_col,
    {
        self.cursor
    }

    /// The number of characters in line `i`.
    fn line_len(&self, i: usize) -> (r: usize)
        requires
            i < self@.lines.len(),
        ensures
            r as nat == self@.lines[i as int].len(),
    {
        self.file[i].as_str().unicode_len()
    }

    /// Deletes backwards from the cursor (see `EditorView::backspaced`).
    pub fn backspace(&mut self)
        requires
            old(self).wf(),
        ensures
            final(self).wf(),
            final(self)@ == old(self)@.backspaced(),
    {
        let line = self.cursor.line;
        let col = self.cursor.col;
        if line == 0 && col == 0 {
            return;
        }
        if col == 0 {
            let ghost v = self@;
            let moved = self.file.remove(line);
            let prev_len = self.line_len(line - 1);
            let mut joined = owned(self.file[line - 1].as_str());
            push_text(&mut joined, moved.as_str());
            self.file.set(line - 1, joined);
            self.cursor.line = line - 1;
            self.cursor.col = prev_len;
            assert(self@.lines =~= v.backspaced().lines);
            return;
        }
        let len = self.line_len(line);
        if col <= len {
            let ghost v = self@;
            let s = self.file[line].as_str();
            let mut t = owned(s.substring_char(0, col - 1));
            push_text(&mut t, s.substring_char(col, len));
            self.file.set(line, t);
            self.cursor.col = col - 1;
            assert(v.current().remove(col - 1) =~= v.current().subrange(0, col - 1) + v.current().subrange(col as int, len as int));
            assert(self@.lines =~= v.backspaced().lines);
        } else {
            self.cursor.col = col - 1;
        }
    }

    /// Types `c` at the cursor and moves the cursor past it (see `EditorView::pushed`).
    pub fn push(&mut self, c: char)
        requires
            old(self).wf(),
            old(self)@.col < usize::MAX,
        ensures
            final(self).wf(),
            final(self)@ == old(self)@.pushed(c),
    {
        let ghost v = self@;
        let line = self.cursor.line;
        let col = self.cursor.col;
        let len = self.line_len(line);
        if col >= len {
            let mut t = owned(self.file[line].as_str());
            push_char(&mut t, c);
            self.file.set(line, t);
        } else {
            let s = self.file[line].as_str();
            let mut t = owned(s.substring_char(0, col));
            push_char(&mut t, c);
            push_text(&mut t, s.substring_char(col, len));
            self.file.set(line, t);
            assert(v.current().insert(col as int, c) =~= v.current().subrange(0, col as int).push(c)
                + v.current().subrange(col as int, len as int));
        }
        self.cursor.col = col + 1;
        assert(self@.lines =~= v.pushed(c).lines);
    }

    /// Splits the current line at the cursor (see `EditorView::line_split`).
    pub fn new_line(&mut self)
        requires
            old(self).wf(),
        ensures
            final(self).wf(),
            final(self)@ == old(self)@.line_split(),
    {
        let ghost v = self@;
        let line = self.cursor.line;
        let n = self.file.len();
        assert(line < n);
        let len = self.line_len(line);
        let k = if self.cursor.col <= len {
            self.cursor.col
        } else {
            len
        };
        let s = self.file[line].as_str();
        let before = owned(s.substring_char(0, k));
        let after = owned(s.substring_char(k, len));
        self.file.set(line, before);
        self.file.insert(line + 1, after);
        self.cursor.line = line + 1;
        self.cursor.col = 0;
        assert(self@.lines =~= v.line_split().lines);
    }

    /// Adds empty lines at the end until there are at least `lines + 1`; never removes any.
    pub fn ensure_file_lines(&mut self, lines: usize)
        requires
            old(self).wf(),
            lines < usize::MAX,
        ensures
            final(self).wf(),
            final(self)@.line == old(self)@.line,
            final(self)@.col == old(self)@.col,
            final(self)@.max_col == old(self)@.max_col,
            final(self)@.lines.len() == if old(self)@.lines.len() > lines {
                old(self)@.lines.len()
            } else {
                (lines + 1) as nat
            },
            forall|i: int|
                0 <= i < final(self)@.lines.len() ==> #[trigger] final(self)@.lines[i] == if i
                    < old(self)@.lines.len() {
                    old(self)@.lines[i]
                } else {
                    Seq::<char>::empty()
                },
    {
        let ghost v = self@;
        while self.file.len() <= lines
            invariant
                lines < usize::MAX,
                self@.line == v.line && self@.col == v.col && self@.max_col == v.max_col,
                self@.lines.len() >= v.lines.len(),
                self@.lines.len() <= lines + 1 || self@.lines.len() == v.lines.len(),
                forall|i: int|
                    0 <= i < self@.lines.len() ==> #[trigger] self@.lines[i] == if i
                        < v.lines.len() {
                        v.lines[i]
                    } else {
                        Seq::<char>::empty()
                    },
            decreases lines + 1 - self.file.len(),
        {
            let ghost before = self@.lines;
            self.file.push(String::new());
            assert(self@.lines =~= before.push(Seq::<char>::empty()));
        }
    }

    /// Moves the cursor one line up (see `EditorView::moved_up`).
    pub fn cursor_up(&mut self)
        requires
            old(self).wf(),
        ensures
            final(self).wf(),
            final(self)@ == old(self)@.moved_up(),
    {
        if self.cursor.line != 0 {
            self.cursor.max_col = self.cursor.col;
            self.cursor.line = self.cursor.line - 1;
            let len = self.line_len(self.cursor.line);
            if len < self.cursor.max_col {
                self.cursor.col = len;
            } else {
                self.cursor.col = self.cursor.max_col;
            }
        }
    }

    /// Moves the cursor one line down (see `EditorView::moved_down`).
    pub fn cursor_down(&mut self)
        requires
            old(self).wf(),
        ensures
            final(self).wf(),
            final(self)@ == old(self)@.moved_down(),
    {
        let n = self.file.len();
        assert(n == self@.lines.len());
        if self.cursor.line + 1 >= n {
            return;
        }
        self.cursor.line = self.cursor.line + 1;
    }

    /// Moves the cursor one place left (see `EditorView::moved_left`).
    pub fn cursor_left(&mut self)
        requires
            old(self).wf(),
        ensures
            final(self).wf(),
            final(self)@ == old(self)@.moved_left(),
    {
        if self.cursor.col == 0 {
            if self.cursor.line == 0 {
                return;
            }
            self.cursor.line = self.cursor.line - 1;
            self.cursor.col = self.line_len(self.cursor.line);
            return;
        }
        self.cursor.col = self.cursor.col - 1;
    }

    /// Moves the cursor one place right (see `EditorView::moved_right`).
    pub fn cursor_right(&mut self)
        requires
            old(self).wf(),
        ensures
            final(self).wf(),
            final(self)@ == old(self)@.moved_right(),
    {
        assert(self.file@.len() == self@.lines.len());
        let len = self.line_len(self.cursor.line);
        if self.cursor.col >= len {
            let n = self.file.len();
            if self.cursor.line + 1 >= n {
                return;
            }
            self.cursor.col = 0;
            self.cursor.line = self.cursor.line + 1;
            return;
        }
        self.cursor.col = self.cursor.col + 1;
    }
}

/// One edit keeps the cursor within the text.
proof fn lemma_edit_keeps_cursor_in_text(v: EditorView, e: Edit)
    requires
        v.in_text(),
    ensures
        v.edited(e).in_text(),
{
    match e {
        Edit::Push(c) => {},
        Edit::Backspace => {
            if v.col == 0 && v.line > 0 {
                let prev = v.lines[v.line - 1];
                let joined = v.lines.update(v.line - 1, prev + v.current());
                assert(v.backspaced().lines[v.line - 1] == joined[v.line - 1]);
            }
        },
        Edit::NewLine => {
            let w = v.line_split();
            assert(w.lines.len() == v.lines.len() + 1);
        },
    }
}

/// Typing, deleting backwards and splitting lines, in any order, keep at least
/// one line, the cursor on a line, and its column within that line's text.
pub proof fn lemma_edits_keep_cursor_in_text(v: EditorView, edits: Seq<Edit>)
    requires
        v.in_text(),
    ensures
        v.edited_by(edits).in_text(),
    decreases edits.len(),
{
    if edits.len() > 0 {
        lemma_edits_keep_cursor_in_text(v, edits.drop_last());
        lemma_edit_keeps_cursor_in_text(v.edited_by(edits.drop_last()), edits.last());
    }
}

/// Splitting a line and then deleting backwards gives back the same text and
/// cursor, for any column of the cursor within its line.
pub proof fn lemma_new_line_then_backspace(v: EditorView)
    requires
        v.in_text(),
    ensures
        v.line_split().backspaced() == v,
{
    let w = v.line_split();
    let s = v.current();
    let k = v.col;
    assert(w.lines[v.line as int] == s.subrange(0, k as int));
    assert(w.lines[v.line + 1int] == s.subrange(k as int, s.len() as int));
    assert(s.subrange(0, k as int) + s.subrange(k as int, s.len() as int) =~= s);
    assert(w.backspaced().lines =~= v.lines);
}

/// Backspace at the start of the text changes nothing; at the start of a later
/// line it removes one line and puts the cursor where the line above ended.
pub proof fn lemma_backspace_at_line_start(v: EditorView)
    requires
        v.valid(),
        v.col == 0,
    ensures
        v.line == 0 ==> v.backspaced() == v,
        v.line > 0 ==> {
            &&& v.backspaced().lines.len() == v.lines.len() - 1
            &&& v.backspaced().line == v.line - 1
            &&& v.backspaced().col == v.lines[v.line - 1].len()
        },
{
}

/// Left then right, or right then left, comes back to the same place, except
/// where the first move stays put: left at the start of the text, right at its end.
pub proof fn lemma_left_right_round_trip(v: EditorView)
    requires
        v.in_text(),
    ensures
        v.line == 0 && v.col == 0 ==> v.moved_left() == v,
        !(v.line == 0 && v.col == 0) ==> v.moved_left().moved_right() == v,
        v.line + 1 == v.lines.len() && v.col == v.current().len() ==> v.moved_right() == v,
        !(v.line + 1 == v.lines.len() && v.col == v.current().len()) ==> v.moved_right().moved_left()
            == v,
{
}

} // verus!
