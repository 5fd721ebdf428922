//! The editor of the input line, on top of `tui_textarea`.
use vstd::prelude::*;
use vstd::string::*;

use crate::keys::{KeyCode, KeyEvent, KeyEventKind};
use crate::seqs;
use crate::text;
use crate::width;

verus! {

/// The editor widget of `tui_textarea`.
#[verifier::external_body]
pub struct Area {
    inner: tui_textarea::TextArea<'static>,
}

/// The lines that an editor holds (`TextArea::lines`).
pub uninterp spec fn area_lines(ta: Area) -> Seq<Seq<char>>;

/// The row and the character that an editor's cursor stands before
/// (`TextArea::cursor`).
pub uninterp spec fn area_cursor(ta: Area) -> (usize, usize);

/// Where the selection of an editor starts; it reaches to the cursor
/// (`TextArea::selection_range`).
pub uninterp spec fn area_anchor(ta: Area) -> Option<(usize, usize)>;

/// Whether an editor has what `TextArea::default` gives it: no block, no line
/// numbers, no atomic ranges, no mask, tabs of four columns, fifty changes to undo.
pub uninterp spec fn area_plain(ta: Area) -> bool;

/// Whether an editor breaks lines that do not fit between words
/// (`TextArea::wrap_mode`).
pub uninterp spec fn area_wraps(ta: Area) -> bool;

/// What an empty editor shows (`TextArea::placeholder_text`).
pub uninterp spec fn area_hint(ta: Area) -> Seq<char>;

/// The fewest rows that an editor asks for (`TextArea::min_rows`).
pub uninterp spec fn area_min_rows(ta: Area) -> u16;

/// The most rows that an editor asks for (`TextArea::max_rows`).
pub uninterp spec fn area_max_rows(ta: Area) -> u16;

/// The changes that undoing takes back, the last one first to go
/// (`TextArea::undo`); the editor keeps fifty changes.
pub uninterp spec fn area_past(ta: Area) -> Seq<Change>;

/// The changes that redoing makes again, the first one first
/// (`TextArea::redo`).
pub uninterp spec fn area_future(ta: Area) -> Seq<Change>;

/// The text that was cut or copied last, line by line
/// (`TextArea::yank_text`).
pub uninterp spec fn area_yank(ta: Area) -> Seq<Seq<char>>;

/// The width at which an editor was shown last, none before that: the cursor
/// moves through the rows that the lines are broken into there.
pub uninterp spec fn area_width(ta: Area) -> u16;

/// The part of the rows that an editor showed last: the first row, the columns
/// and the number of rows.
pub uninterp spec fn area_window(ta: Area) -> (u16, u16, u16);

/// Where the cursor goes by one row, down or else up, through lines that are
/// broken between words at a width (`CursorMove::Down` and `CursorMove::Up`).
pub uninterp spec fn row_step(
    lines: Seq<Seq<char>>,
    row: nat,
    col: nat,
    width: u16,
    down: bool,
) -> Option<(nat, nat)>;

/// Where the cursor goes by one character, on or else back, through lines that
/// are broken between words at a width (`CursorMove::Forward` and
/// `CursorMove::Back`).
pub uninterp spec fn char_step(
    lines: Seq<Seq<char>>,
    row: nat,
    col: nat,
    width: u16,
    on: bool,
) -> Option<(nat, nat)>;

/// Where the cursor goes to stand in a window of the rows that lines are broken
/// into at a width (`CursorMove::InViewport`).
pub uninterp spec fn window_step(
    lines: Seq<Seq<char>>,
    row: nat,
    col: nat,
    width: u16,
    window: (u16, u16, u16),
) -> (nat, nat);

/// The row that the cursor stands in once lines are broken between words at a
/// width.
pub uninterp spec fn cursor_row(lines: Seq<Seq<char>>, row: nat, col: nat, width: u16) -> u16;

/// The column that the cursor stands in once lines are broken between words at a
/// width.
pub uninterp spec fn cursor_col(lines: Seq<Seq<char>>, row: nat, col: nat, width: u16) -> nat;

/// Rows that lines take when they are broken between words at a width
/// (`TextAreaMeasure::content_rows` of a text that is not empty).
pub uninterp spec fn wrapped_count(lines: Seq<Seq<char>>, width: u16) -> u16;

/// A text with a cursor.
#[verifier::ext_equal]
pub struct Draft {
    pub lines: Seq<Seq<char>>,
    pub row: nat,
    pub col: nat,
}

/// A change to a text: what it was, with the cursor that undoing goes back to,
/// and what it became.
#[verifier::ext_equal]
pub struct Change {
    pub before: Draft,
    pub after: Draft,
}

/// A text under edit: its lines, where the cursor stands, and where a
/// selection starts that reaches to the cursor; the changes that can be undone
/// and made again; the text that was cut or copied last; the width that the
/// text was shown at, and the part of its rows that was shown: the first row,
/// the columns and the number of rows.
#[verifier::ext_equal]
pub struct EditView {
    pub lines: Seq<Seq<char>>,
    pub row: nat,
    pub col: nat,
    pub anchor: Option<(nat, nat)>,
    pub past: Seq<Change>,
    pub future: Seq<Change>,
    pub yank: Seq<Seq<char>>,
    pub width: u16,
    pub window: (u16, u16, u16),
}

/// Changes that an editor keeps.
pub const MAX_CHANGES: usize = 50;

/// The most rows that an editor shows.
pub const MAX_SHOWN_ROWS: u16 = 32767;

/// Whether no line holds a line break.
pub open spec fn unbroken(lines: Seq<Seq<char>>) -> bool {
    forall|i: int| 0 <= i < lines.len() ==> !(#[trigger] lines[i]).contains('\n')
}

/// Whether the texts before and after some changes hold no line break within a
/// line.
pub open spec fn all_unbroken(changes: Seq<Change>) -> bool {
    forall|i: int|
        0 <= i < changes.len() ==> unbroken((#[trigger] changes[i]).before.lines) && unbroken(
            changes[i].after.lines,
        )
}

/// Whether `a` stands before `b`.
pub open spec fn before(a: (nat, nat), b: (nat, nat)) -> bool {
    a.0 < b.0 || (a.0 == b.0 && a.1 < b.1)
}

impl EditView {
    /// Whether a position lies in the text.
    pub open spec fn holds(self, row: nat, col: nat) -> bool {
        row < self.lines.len() && col <= self.lines[row as int].len()
    }

    /// Whether cursor and selection lie in the text, no line of it, of its changes
    /// or of the text that was cut holds a line break, and the window is one that
    /// can be shown.
    pub open spec fn wf(self) -> bool {
        &&& self.holds(self.row, self.col)
        &&& self.anchor matches Some(a) ==> self.holds(a.0, a.1)
        &&& self.yank.len() > 0
        &&& unbroken(self.lines)
        &&& unbroken(self.yank)
        &&& all_unbroken(self.past)
        &&& all_unbroken(self.future)
        &&& self.window.2 <= MAX_SHOWN_ROWS
    }

    /// The text and the cursor.
    pub open spec fn draft(self) -> Draft {
        Draft { lines: self.lines, row: self.row, col: self.col }
    }

    /// Whether any text is selected.
    pub open spec fn selecting(self) -> bool {
        self.anchor matches Some(a) && a != (self.row, self.col)
    }

    /// Where the selected text starts and ends.
    pub open spec fn selected(self) -> ((nat, nat), (nat, nat)) {
        let a = self.anchor->0;
        let c = (self.row, self.col);
        if before(a, c) {
            (a, c)
        } else {
            (c, a)
        }
    }

    /// The text with other lines and nothing selected. Undoing goes back to the
    /// lines as they were, with the cursor at `back`; what was undone before is
    /// gone, and of too many changes the oldest.
    pub open spec fn changed(
        self,
        lines: Seq<Seq<char>>,
        row: nat,
        col: nat,
        back: (nat, nat),
    ) -> EditView {
        let change = Change {
            before: Draft { lines: self.lines, row: back.0, col: back.1 },
            after: Draft { lines, row, col },
        };
        let kept = if self.past.len() > 0 && self.past.len() + self.future.len() == MAX_CHANGES {
            self.past.skip(1)
        } else {
            self.past
        };
        EditView {
            lines,
            row,
            col,
            anchor: None,
            past: kept.push(change),
            future: Seq::empty(),
            ..self
        }
    }

    /// The text without what stands between two positions, the cursor there.
    pub open spec fn removed(self, from: (nat, nat), to: (nat, nat)) -> EditView {
        let rest = self.lines[from.0 as int].take(from.1 as int) + self.lines[to.0 as int].skip(
            to.1 as int,
        );
        self.changed(
            self.lines.take(from.0 as int).push(rest) + self.lines.skip(to.0 as int + 1),
            from.0,
            from.1,
            to,
        )
    }

    /// What stands between two positions, line by line.
    pub open spec fn span(self, from: (nat, nat), to: (nat, nat)) -> Seq<Seq<char>> {
        if from.0 == to.0 {
            seq![self.lines[from.0 as int].subrange(from.1 as int, to.1 as int)]
        } else {
            seq![self.lines[from.0 as int].skip(from.1 as int)] + self.lines.subrange(
                from.0 as int + 1,
                to.0 as int,
            ).push(self.lines[to.0 as int].take(to.1 as int))
        }
    }

    /// The text with nothing selected.
    pub open spec fn released(self) -> EditView {
        EditView { anchor: None, ..self }
    }

    /// The text without what is selected, the cursor where that was.
    pub open spec fn unselected(self) -> EditView {
        if self.selecting() {
            self.removed(self.selected().0, self.selected().1)
        } else {
            self.released()
        }
    }

    /// The text with what is selected remembered, and nothing selected.
    pub open spec fn copied(self) -> EditView {
        if self.selecting() {
            EditView {
                yank: self.span(self.selected().0, self.selected().1),
                ..self.released()
            }
        } else {
            self.released()
        }
    }

    /// The text without what is selected, which is remembered.
    pub open spec fn taken(self) -> EditView {
        EditView { yank: self.copied().yank, ..self.unselected() }
    }

    /// The text with `pieces` in place of the selection, each but the first on
    /// a line of its own, and the cursor behind the last.
    pub open spec fn inserted(self, pieces: Seq<Seq<char>>) -> EditView {
        let e = self.unselected();
        let head = e.lines[e.row as int].take(e.col as int);
        let tail = e.lines[e.row as int].skip(e.col as int);
        if pieces.len() == 1 && pieces[0].len() == 0 {
            e
        } else if pieces.len() == 1 {
            e.changed(
                e.lines.update(e.row as int, head + pieces[0] + tail),
                e.row,
                e.col + pieces[0].len(),
                (e.row, e.col),
            )
        } else {
            e.changed(
                e.lines.take(e.row as int).push(head + pieces[0]) + pieces.subrange(
                    1,
                    pieces.len() - 1,
                ).push(pieces.last() + tail) + e.lines.skip(e.row as int + 1),
                (e.row + pieces.len() - 1) as nat,
                pieces.last().len(),
                (e.row, e.col),
            )
        }
    }

    /// The text with the line broken at the cursor.
    pub open spec fn broken(self) -> EditView {
        self.inserted(seq![Seq::empty(), Seq::empty()])
    }

    /// The line of the cursor.
    pub open spec fn line(self) -> Seq<char> {
        self.lines[self.row as int]
    }

    /// The text without some characters of the cursor's line, which are
    /// remembered, the cursor where they were.
    pub open spec fn cut(self, from: nat, to: nat) -> EditView {
        EditView {
            yank: self.span((self.row, from), (self.row, to)),
            ..self.removed((self.row, from), (self.row, to))
        }
    }

    /// The text with the cursor's line behind the one above it.
    pub open spec fn joined_back(self) -> EditView {
        if self.row > 0 {
            self.removed(
                ((self.row - 1) as nat, self.lines[self.row - 1].len()),
                (self.row, 0),
            )
        } else {
            self.released()
        }
    }

    /// The text with the line below the cursor behind the cursor's.
    pub open spec fn joined_on(self) -> EditView {
        if self.row + 1 < self.lines.len() {
            self.removed((self.row, self.line().len()), (self.row + 1, 0))
        } else {
            self.released()
        }
    }

    /// The text without the selection, or else without the character or the
    /// line break before the cursor.
    pub open spec fn erased(self) -> EditView {
        if self.selecting() {
            self.unselected()
        } else if self.col > 0 {
            self.removed((self.row, (self.col - 1) as nat), (self.row, self.col))
        } else {
            self.joined_back()
        }
    }

    /// The text without the selection, or else with the cursor one character on
    /// and without what stands before it there.
    pub open spec fn erased_next(self) -> EditView {
        if self.selecting() {
            self.unselected()
        } else {
            match char_step(self.lines, self.row, self.col, self.width, true) {
                Some(p) => if p == (self.row, self.col) {
                    self.released()
                } else {
                    self.moved(p.0, p.1, false).erased()
                },
                None => self.released(),
            }
        }
    }

    /// The text without the selection, or else without the rest of the line, or
    /// without the line break where nothing is left of it.
    pub open spec fn erased_to_end(self) -> EditView {
        if !self.selecting() && self.col < self.line().len() {
            self.cut(self.col, self.line().len())
        } else {
            self.erased_next()
        }
    }

    /// The text without the selection, or else without the start of the line, or
    /// without the line break before it where the cursor stands there.
    pub open spec fn erased_to_start(self) -> EditView {
        if !self.selecting() && self.col > 0 {
            self.cut(0, self.col)
        } else {
            self.erased()
        }
    }

    /// The text without the selection, or else without the line from the word
    /// before the cursor on up to the cursor, or without the line break before
    /// it where the cursor stands there.
    pub open spec fn erased_word(self) -> EditView {
        if !self.selecting() && self.col > 0 {
            self.cut(
                match word_before(self.line(), self.col) {
                    Some(start) => start,
                    None => 0,
                },
                self.col,
            )
        } else {
            self.erased()
        }
    }

    /// The text without the selection, or else without the line up to the end of
    /// the next word, or without the line break where nothing is left of it.
    pub open spec fn erased_next_word(self) -> EditView {
        if self.selecting() {
            self.unselected()
        } else if self.col < self.line().len() {
            self.cut(self.col, word_end(self.line(), self.col))
        } else {
            self.joined_on()
        }
    }

    /// The text as it was before the last change, with the cursor where that
    /// was.
    pub open spec fn undone(self) -> EditView {
        if self.past.len() > 0 {
            let change = self.past.last();
            EditView {
                lines: change.before.lines,
                row: change.before.row,
                col: change.before.col,
                anchor: None,
                past: self.past.drop_last(),
                future: seq![change] + self.future,
                ..self
            }
        } else {
            self
        }
    }

    /// The text with the change made again that was undone last.
    pub open spec fn redone(self) -> EditView {
        if self.future.len() > 0 {
            let change = self.future[0];
            EditView {
                lines: change.after.lines,
                row: change.after.row,
                col: change.after.col,
                anchor: None,
                past: self.past.push(change),
                future: self.future.skip(1),
                ..self
            }
        } else {
            self
        }
    }

    /// The text with the cursor at another position. With Shift the selection
    /// reaches there, else nothing is selected.
    pub open spec fn moved(self, row: nat, col: nat, shift: bool) -> EditView {
        EditView {
            row,
            col,
            anchor: if !shift {
                None
            } else if self.anchor is None {
                Some((self.row, self.col))
            } else {
                self.anchor
            },
            ..self
        }
    }

    /// The text with the cursor at another position, where there is one.
    pub open spec fn stepped(self, to: Option<(nat, nat)>, shift: bool) -> EditView {
        match to {
            Some(p) => self.moved(p.0, p.1, shift),
            None => self,
        }
    }

    /// The text with the cursor one row down, or else up.
    pub open spec fn moved_by_row(self, down: bool, shift: bool) -> EditView {
        self.stepped(row_step(self.lines, self.row, self.col, self.width, down), shift)
    }

    /// The text with the cursor one character on, or else back.
    pub open spec fn moved_by_char(self, on: bool, shift: bool) -> EditView {
        self.stepped(char_step(self.lines, self.row, self.col, self.width, on), shift)
    }

    /// The text with the cursor at the start of the line.
    pub open spec fn moved_to_start(self, shift: bool) -> EditView {
        self.moved(self.row, 0, shift)
    }

    /// The text with the cursor at the end of the line.
    pub open spec fn moved_to_end(self, shift: bool) -> EditView {
        self.moved(self.row, self.line().len(), shift)
    }

    /// The text with the cursor in another line, at the same character or at the
    /// end of the line.
    pub open spec fn moved_to_line(self, row: nat, shift: bool) -> EditView {
        let len = self.lines[row as int].len();
        self.moved(
            row,
            if self.col <= len {
                self.col
            } else {
                len
            },
            shift,
        )
    }

    /// The text with the cursor at the word before it, or at the end of the line
    /// above where there is none.
    pub open spec fn moved_to_word_before(self, shift: bool) -> EditView {
        match word_before(self.line(), self.col) {
            Some(start) => self.moved(self.row, start, shift),
            None => if self.row > 0 {
                self.moved((self.row - 1) as nat, self.lines[self.row - 1].len(), shift)
            } else {
                self.moved_to_start(shift)
            },
        }
    }

    /// The text with the cursor at the next word, or at the start of the line
    /// below where there is none.
    pub open spec fn moved_to_next_word(self, shift: bool) -> EditView {
        match next_word(self.line(), self.col) {
            Some(start) => self.moved(self.row, start, shift),
            None => if self.row + 1 < self.lines.len() {
                self.moved(self.row + 1, 0, shift)
            } else {
                self.moved_to_end(shift)
            },
        }
    }

    /// The text with the cursor in the paragraph before it.
    pub open spec fn moved_to_paragraph_before(self, shift: bool) -> EditView {
        if self.row > 0 {
            self.moved_to_line(paragraph_before(self.lines, self.row), shift)
        } else {
            self
        }
    }

    /// The text with the cursor in the next paragraph.
    pub open spec fn moved_to_next_paragraph(self, shift: bool) -> EditView {
        self.moved_to_line(next_paragraph(self.lines, self.row), shift)
    }

    /// The text with the window one page down, or else up, and the cursor in it.
    pub open spec fn moved_by_page(self, down: bool, shift: bool) -> EditView {
        let (top, cols, rows) = self.window;
        let first = if down && top + rows > u16::MAX {
            u16::MAX
        } else if down {
            (top + rows) as u16
        } else if top < rows {
            0
        } else {
            (top - rows) as u16
        };
        let window = (first, cols, rows);
        let p = window_step(self.lines, self.row, self.col, self.width, window);
        EditView { window, ..self.moved(p.0, p.1, shift) }
    }

    /// The text with the cursor one character back, where each character takes a
    /// column of its own.
    pub open spec fn moved_back(self, shift: bool) -> EditView {
        if self.col > 0 {
            self.moved(self.row, (self.col - 1) as nat, shift)
        } else if self.row > 0 {
            self.moved((self.row - 1) as nat, self.lines[self.row - 1].len(), shift)
        } else {
            self
        }
    }

    /// The text with the cursor one character on, where each character takes a
    /// column of its own.
    pub open spec fn moved_on(self, shift: bool) -> EditView {
        if self.col < self.line().len() {
            self.moved(self.row, self.col + 1, shift)
        } else if self.row + 1 < self.lines.len() {
            self.moved(self.row + 1, 0, shift)
        } else {
            self
        }
    }

    /// The text with blanks in place of the selection, up to the next column
    /// that is a multiple of four.
    pub open spec fn tabbed(self) -> EditView {
        let e = self.unselected();
        let used = width::glyphs(e.line().take(e.col as int));
        e.inserted(seq![Seq::new((4 - used % 4) as nat, |i: int| ' ')])
    }

    /// Another text with the cursor at a position, or as far towards it as the
    /// text reaches. The changes before cannot be undone, and no part is shown.
    pub open spec fn placed(self, lines: Seq<Seq<char>>, row: nat, col: nat) -> EditView {
        let r = if row < lines.len() {
            row
        } else {
            (lines.len() - 1) as nat
        };
        EditView {
            lines,
            row: r,
            col: if col <= lines[r as int].len() {
                col
            } else {
                lines[r as int].len()
            },
            anchor: None,
            past: Seq::empty(),
            future: Seq::empty(),
            window: (0, 0, 0),
            ..self
        }
    }

    /// Whether the rows of the text can be counted at a width, together with
    /// those that are shown.
    pub open spec fn fits(self, width: u16, rows: u16) -> bool {
        rows <= MAX_SHOWN_ROWS && content_rows(self.lines, width) + rows < u16::MAX
    }

    /// The text shown in some columns and rows: the window is moved as little as
    /// shows the cursor, and starts at the top of an empty text.
    pub open spec fn shown(self, width: u16, rows: u16) -> EditView {
        let top = if self.lines == seq![Seq::<char>::empty()] {
            0
        } else {
            scrolled(self.window.0, cursor_row(self.lines, self.row, self.col, width), rows)
        };
        EditView { width, window: (top, width, rows), ..self }
    }

    /// Where the cursor is painted in some columns and rows.
    pub open spec fn cell(self, width: u16, rows: u16) -> Option<(u16, u16)> {
        if width == 0 || rows == 0 {
            None
        } else if self.lines == seq![Seq::<char>::empty()] {
            Some((0, 0))
        } else {
            let x = cursor_col(self.lines, self.row, self.col, width);
            let y = cursor_row(self.lines, self.row, self.col, width);
            if x < width {
                Some((x as u16, (y - self.shown(width, rows).window.0) as u16))
            } else {
                None
            }
        }
    }

    /// The text after a letter that was held down together with Control.
    pub open spec fn with_control(self, c: char, shift: bool) -> EditView {
        if c == 'm' {
            self.broken()
        } else if c == 'h' {
            self.erased()
        } else if c == 'd' {
            self.erased_next()
        } else if c == 'k' {
            self.erased_to_end()
        } else if c == 'j' {
            self.erased_to_start()
        } else if c == 'w' {
            self.erased_word()
        } else if c == 'n' {
            self.moved_by_row(true, shift)
        } else if c == 'p' {
            self.moved_by_row(false, shift)
        } else if c == 'f' {
            self.moved_by_char(true, shift)
        } else if c == 'b' {
            self.moved_by_char(false, shift)
        } else if c == 'a' {
            self.moved_to_start(shift)
        } else if c == 'e' {
            self.moved_to_end(shift)
        } else if c == 'u' {
            self.undone()
        } else if c == 'r' {
            self.redone()
        } else if c == 'y' {
            self.inserted(self.yank)
        } else if c == 'x' {
            self.taken()
        } else if c == 'c' {
            self.copied()
        } else if c == 'v' {
            self.moved_by_page(true, shift)
        } else {
            self
        }
    }

    /// The text after a character that was held down together with Alt.
    pub open spec fn with_alt(self, c: char, shift: bool) -> EditView {
        if c == 'h' {
            self.erased_word()
        } else if c == 'd' {
            self.erased_next_word()
        } else if c == '<' {
            self.moved_to_line(0, shift)
        } else if c == '>' {
            self.moved_to_line((self.lines.len() - 1) as nat, shift)
        } else if c == 'f' {
            self.moved_to_next_word(shift)
        } else if c == 'b' {
            self.moved_to_word_before(shift)
        } else if c == ']' || c == 'n' {
            self.moved_to_next_paragraph(shift)
        } else if c == '[' || c == 'p' {
            self.moved_to_paragraph_before(shift)
        } else if c == 'v' {
            self.moved_by_page(false, shift)
        } else {
            self
        }
    }

    /// The text after a letter that was held down together with Control and Alt.
    pub open spec fn with_both(self, c: char, shift: bool) -> EditView {
        if c == 'b' {
            self.moved_to_start(shift)
        } else if c == 'f' {
            self.moved_to_end(shift)
        } else if c == 'p' {
            self.moved_to_line(0, shift)
        } else if c == 'n' {
            self.moved_to_line((self.lines.len() - 1) as nat, shift)
        } else {
            self
        }
    }

    /// The text after an arrow key.
    pub open spec fn with_arrow(self, code: KeyCode, ctrl: bool, alt: bool, shift: bool) -> EditView {
        if !ctrl && alt {
            self
        } else if code is Left {
            if alt {
                self.moved_to_start(shift)
            } else if ctrl {
                self.moved_to_word_before(shift)
            } else {
                self.moved_by_char(false, shift)
            }
        } else if code is Right {
            if alt {
                self.moved_to_end(shift)
            } else if ctrl {
                self.moved_to_next_word(shift)
            } else {
                self.moved_by_char(true, shift)
            }
        } else if code is Up {
            if alt {
                self.moved_to_line(0, shift)
            } else if ctrl {
                self.moved_to_paragraph_before(shift)
            } else {
                self.moved_by_row(false, shift)
            }
        } else {
            if alt {
                self.moved_to_line((self.lines.len() - 1) as nat, shift)
            } else if ctrl {
                self.moved_to_next_paragraph(shift)
            } else {
                self.moved_by_row(true, shift)
            }
        }
    }

    /// The text after a key.
    pub open spec fn typed(self, code: KeyCode, ctrl: bool, alt: bool, shift: bool) -> EditView {
        match code {
            KeyCode::Char(c) => if ctrl && alt {
                self.with_both(c, shift)
            } else if ctrl {
                self.with_control(c, shift)
            } else if alt {
                self.with_alt(c, shift)
            } else if c == '\n' || c == '\r' {
                self.broken()
            } else {
                self.inserted(seq![seq![c]])
            },
            KeyCode::Enter => self.broken(),
            KeyCode::Tab => if ctrl || alt {
                self
            } else {
                self.tabbed()
            },
            KeyCode::Backspace => if ctrl {
                self
            } else if alt {
                self.erased_word()
            } else {
                self.erased()
            },
            KeyCode::Delete => if ctrl {
                self
            } else if alt {
                self.erased_next_word()
            } else {
                self.erased_next()
            },
            KeyCode::Left | KeyCode::Right | KeyCode::Up | KeyCode::Down => self.with_arrow(
                code,
                ctrl,
                alt,
                shift,
            ),
            KeyCode::Home => self.moved_to_start(shift),
            KeyCode::End => self.moved_to_end(shift),
            KeyCode::PageUp => self.moved_by_page(false, shift),
            KeyCode::PageDown => self.moved_by_page(true, shift),
            _ => self,
        }
    }

    /// The text as one run of characters.
    pub open spec fn text(self) -> Seq<char> {
        text::joined(self.lines, "\n"@)
    }
}

/// What an editor holds.
pub open spec fn edit_view(ta: Area) -> EditView {
    EditView {
        lines: area_lines(ta),
        row: area_cursor(ta).0 as nat,
        col: area_cursor(ta).1 as nat,
        anchor: match area_anchor(ta) {
            Some(a) => Some((a.0 as nat, a.1 as nat)),
            None => None,
        },
        past: area_past(ta),
        future: area_future(ta),
        yank: area_yank(ta),
        width: area_width(ta),
        window: area_window(ta),
    }
}

/// Whether two editors are set up alike.
pub open spec fn same_setup(a: Area, b: Area) -> bool {
    &&& area_plain(a) == area_plain(b)
    &&& area_wraps(a) == area_wraps(b)
    &&& area_hint(a) == area_hint(b)
    &&& area_min_rows(a) == area_min_rows(b)
    &&& area_max_rows(a) == area_max_rows(b)
}

/// The lines that a text is inserted as: a carriage return before a line
/// break belongs to the break.
pub open spec fn pieces_of(t: Seq<char>) -> Seq<Seq<char>> {
    let parts = text::split_on(t, '\n');
    Seq::new(parts.len(), |i: int| text::without_cr(parts[i]))
}

/// Whether each character of a line takes a column of its own.
pub open spec fn is_even(line: Seq<char>) -> bool {
    forall|i: int| 0 <= i < line.len() ==> width::glyph(#[trigger] line[i]) > 0
}

/// The kinds of characters that words are told apart by.
pub enum CharKind {
    Space,
    Punct,
    Other,
}

/// The kind of a character: ASCII punctuation but for the underscore makes words
/// of its own.
pub open spec fn kind_of(c: char) -> CharKind {
    if text::is_white(c) {
        CharKind::Space
    } else if c != '_' && ('!' <= c <= '/' || ':' <= c <= '@' || '[' <= c <= '`' || '{' <= c
        <= '~') {
        CharKind::Punct
    } else {
        CharKind::Other
    }
}

/// Whether the kind of character changes at a position of a line.
pub open spec fn turns(line: Seq<char>, i: int) -> bool {
    kind_of(line[i - 1]) != kind_of(line[i])
}

/// Where the last word starts before a position of a line.
pub open spec fn word_before(line: Seq<char>, col: nat) -> Option<nat>
    decreases col,
{
    if col == 0 {
        None
    } else if !text::is_white(line[col - 1]) && (col == 1 || turns(line, col - 1)) {
        Some((col - 1) as nat)
    } else {
        word_before(line, (col - 1) as nat)
    }
}

/// Where the first word starts behind a position of a line.
pub open spec fn next_word(line: Seq<char>, col: nat) -> Option<nat>
    decreases line.len() - col,
{
    if col + 1 >= line.len() {
        None
    } else if !text::is_white(line[col as int + 1]) && turns(line, col as int + 1) {
        Some(col + 1)
    } else {
        next_word(line, col + 1)
    }
}

/// Where the first word ends behind a position of a line.
pub open spec fn word_end(line: Seq<char>, col: nat) -> nat
    decreases line.len() - col,
{
    if col + 1 >= line.len() {
        line.len()
    } else if !text::is_white(line[col as int]) && turns(line, col as int + 1) {
        col + 1
    } else {
        word_end(line, col + 1)
    }
}

/// Whether a paragraph starts with a line: it is not empty, but the one above
/// is.
pub open spec fn starts_paragraph(lines: Seq<Seq<char>>, row: int) -> bool {
    lines[row].len() > 0 && lines[row - 1].len() == 0
}

/// The line that the last paragraph above a line starts with.
pub open spec fn paragraph_before(lines: Seq<Seq<char>>, row: nat) -> nat
    decreases row,
{
    if row <= 1 {
        0
    } else if starts_paragraph(lines, row - 1) {
        (row - 1) as nat
    } else {
        paragraph_before(lines, (row - 1) as nat)
    }
}

/// The line that the first paragraph below a line starts with, or the last line.
pub open spec fn next_paragraph(lines: Seq<Seq<char>>, row: nat) -> nat
    decreases lines.len() - row,
{
    if row + 1 >= lines.len() {
        (lines.len() - 1) as nat
    } else if starts_paragraph(lines, row as int + 1) {
        row + 1
    } else {
        next_paragraph(lines, row + 1)
    }
}

/// The first row of a window that is moved as little as shows row `at`.
pub open spec fn scrolled(top: u16, at: u16, rows: u16) -> u16 {
    if at < top {
        at
    } else if top + rows <= at {
        (at + 1 - rows) as u16
    } else {
        top
    }
}

/// Rows that a text takes at a width: one row where the hint stands for it.
pub open spec fn content_rows(lines: Seq<Seq<char>>, width: u16) -> u16 {
    if lines == seq![Seq::<char>::empty()] {
        1
    } else {
        wrapped_count(lines, width)
    }
}

/// Over characters that take a column of their own, the cursor goes from one to
/// the next and from line to line.
pub open spec fn steps_evenly(
    e: EditView,
    code: KeyCode,
    ctrl: bool,
    alt: bool,
    shift: bool,
    after: EditView,
) -> bool {
    let even = is_even(e.line());
    let letter = ctrl && !alt;
    let plain = !ctrl && !alt;
    &&& (code is Right && plain || code == KeyCode::Char('f') && letter) && (even || e.col
        == e.line().len()) ==> after == e.moved_on(shift)
    &&& (code is Left && plain || code == KeyCode::Char('b') && letter) && even && (e.col > 0
        || e.row == 0 || is_even(e.lines[e.row - 1])) ==> after == e.moved_back(shift)
    &&& (code is Delete && plain || code == KeyCode::Char('d') && letter) && !e.selecting()
        && e.col < e.line().len() && even ==> after == e.removed(
        (e.row, e.col),
        (e.row, e.col + 1),
    )
    &&& (code is Delete && plain || (code == KeyCode::Char('d') || code == KeyCode::Char('k'))
        && letter) && !e.selecting() && e.col == e.line().len() ==> after == e.joined_on()
}

/// An empty editor: `TextArea::default`, which holds one empty line, with the
/// cursor before it and nothing selected.
#[verifier::external_body]
fn area_default() -> (ta: Area)
    ensures
        area_lines(ta) == seq![Seq::<char>::empty()],
        area_cursor(ta) == (0usize, 0usize),
        area_anchor(ta) is None,
        area_past(ta) == Seq::<Change>::empty(),
        area_future(ta) == Seq::<Change>::empty(),
        area_yank(ta) == seq![Seq::<char>::empty()],
        area_width(ta) == 0,
        area_window(ta) == (0u16, 0u16, 0u16),
        area_plain(ta),
        area_hint(ta) == Seq::<char>::empty(),
        area_min_rows(ta) == 1,
        area_max_rows(ta) == u16::MAX,
{
    Area { inner: tui_textarea::TextArea::default() }
}

/// `TextArea::set_placeholder_text`: it sets what the empty editor shows.
#[verifier::external_body]
fn area_set_hint(ta: &mut Area, hint: &str)
    ensures
        edit_view(*final(ta)) == edit_view(*old(ta)),
        area_hint(*final(ta)) == hint@,
        area_plain(*final(ta)) == area_plain(*old(ta)),
        area_wraps(*final(ta)) == area_wraps(*old(ta)),
        area_min_rows(*final(ta)) == area_min_rows(*old(ta)),
        area_max_rows(*final(ta)) == area_max_rows(*old(ta)),
{
    ta.inner.set_placeholder_text(hint);
}

/// `TextArea::set_wrap_mode` with `WrapMode::WordOrGlyph`: lines that do not
/// fit are broken between words.
#[verifier::external_body]
fn area_set_wrapping(ta: &mut Area)
    ensures
        edit_view(*final(ta)) == edit_view(*old(ta)),
        area_wraps(*final(ta)),
        area_plain(*final(ta)) == area_plain(*old(ta)),
        area_hint(*final(ta)) == area_hint(*old(ta)),
        area_min_rows(*final(ta)) == area_min_rows(*old(ta)),
        area_max_rows(*final(ta)) == area_max_rows(*old(ta)),
{
    ta.inner.set_wrap_mode(tui_textarea::WrapMode::WordOrGlyph);
}

/// `TextArea::set_min_rows`: it sets the fewest rows, at least one, and raises
/// the most rows where they were fewer.
#[verifier::external_body]
fn area_set_min_rows(ta: &mut Area, rows: u16)
    requires
        rows >= 1,
    ensures
        edit_view(*final(ta)) == edit_view(*old(ta)),
        area_min_rows(*final(ta)) == rows,
        area_max_rows(*final(ta)) == (if area_max_rows(*old(ta)) < rows {
            rows
        } else {
            area_max_rows(*old(ta))
        }),
        area_plain(*final(ta)) == area_plain(*old(ta)),
        area_wraps(*final(ta)) == area_wraps(*old(ta)),
        area_hint(*final(ta)) == area_hint(*old(ta)),
{
    ta.inner.set_min_rows(rows);
}

/// `TextArea::set_max_rows`: it sets the most rows, though no fewer than the
/// fewest.
#[verifier::external_body]
fn area_set_max_rows(ta: &mut Area, rows: u16)
    requires
        rows >= 1,
    ensures
        edit_view(*final(ta)) == edit_view(*old(ta)),
        area_max_rows(*final(ta)) == (if rows < area_min_rows(*old(ta)) {
            area_min_rows(*old(ta))
        } else {
            rows
        }),
        area_min_rows(*final(ta)) == area_min_rows(*old(ta)),
        area_plain(*final(ta)) == area_plain(*old(ta)),
        area_wraps(*final(ta)) == area_wraps(*old(ta)),
        area_hint(*final(ta)) == area_hint(*old(ta)),
{
    ta.inner.set_max_rows(rows);
}

/// `TextArea::lines`, copied.
#[verifier::external_body]
fn area_get_lines(ta: &Area) -> (out: Vec<String>)
    ensures
        seqs::views(out@) == area_lines(*ta),
{
    ta.inner.lines().to_vec()
}

/// `TextArea::cursor`: the row and the character of the cursor.
#[verifier::external_body]
fn area_get_cursor(ta: &Area) -> (at: (usize, usize))
    ensures
        at == area_cursor(*ta),
{
    ta.inner.cursor()
}

/// `TextArea::selection_range`: the start of the selection and the cursor, the
/// one that stands first before the other.
#[verifier::external_body]
fn area_get_selection(ta: &Area) -> (range: Option<((usize, usize), (usize, usize))>)
    ensures
        match (area_anchor(*ta), range) {
            (Some(a), Some(r)) => r == (if before(
                (area_cursor(*ta).0 as nat, area_cursor(*ta).1 as nat),
                (a.0 as nat, a.1 as nat),
            ) {
                (area_cursor(*ta), a)
            } else {
                (a, area_cursor(*ta))
            }),
            (None, None) => true,
            _ => false,
        },
{
    ta.inner.selection_range()
}

/// `TextArea::set_lines`: it replaces the text, moves the cursor to a position
/// or as far towards it as the text reaches, and drops the selection. The call
/// panics without a line, and a line break within a line, once it is cut, makes
/// putting it back panic.
#[verifier::external_body]
fn area_set_lines(ta: &mut Area, lines: Vec<String>, row: usize, col: usize)
    requires
        lines@.len() > 0,
        unbroken(seqs::views(lines@)),
        area_plain(*old(ta)),
    ensures
        edit_view(*final(ta)) == edit_view(*old(ta)).placed(
            seqs::views(lines@),
            row as nat,
            col as nat,
        ),
        same_setup(*final(ta), *old(ta)),
{
    ta.inner.set_lines(lines, (row, col));
}

/// `TextArea::insert_str`: it puts a text in place of the selection, or at the
/// cursor.
#[verifier::external_body]
fn area_insert_str(ta: &mut Area, t: &str)
    requires
        area_plain(*old(ta)),
        edit_view(*old(ta)).wf(),
    ensures
        edit_view(*final(ta)) == edit_view(*old(ta)).inserted(pieces_of(t@)),
        edit_view(*final(ta)).wf(),
        same_setup(*final(ta), *old(ta)),
{
    ta.inner.insert_str(t);
}

/// `TextArea::insert_newline`: it breaks the line at the cursor, in place of
/// the selection.
#[verifier::external_body]
fn area_insert_newline(ta: &mut Area)
    requires
        area_plain(*old(ta)),
        edit_view(*old(ta)).wf(),
    ensures
        edit_view(*final(ta)) == edit_view(*old(ta)).broken(),
        edit_view(*final(ta)).wf(),
        same_setup(*final(ta), *old(ta)),
{
    ta.inner.insert_newline();
}

/// `TextArea::measure`: the rows of the text at the width (one for the hint of
/// an empty text), and the preferred rows, which are these within the fewest and
/// the most rows.
#[verifier::external_body]
fn area_measure(ta: &mut Area, width: u16) -> (rows: (u16, u16))
    requires
        area_plain(*old(ta)),
        area_wraps(*old(ta)),
        area_hint(*old(ta)).len() > 0,
        1 <= area_min_rows(*old(ta)) <= area_max_rows(*old(ta)),
    ensures
        rows.0 == if area_lines(*old(ta)) == seq![Seq::<char>::empty()] {
            1
        } else {
            wrapped_count(area_lines(*old(ta)), width)
        },
        rows.1 == within(rows.0, area_min_rows(*old(ta)), area_max_rows(*old(ta))),
        edit_view(*final(ta)) == edit_view(*old(ta)),
        same_setup(*final(ta), *old(ta)),
{
    let m = ta.inner.measure(width);
    (m.content_rows, m.preferred_rows)
}

/// `Widget::render` of an editor, into a buffer without cells, since only what
/// the editor remembers of it counts: the width, the window, which is moved as
/// little as shows the cursor, and where the cursor is painted
/// (`TextArea::rendered_cursor_position`). The call adds rows in sixteen bits, so
/// a text whose rows do not fit is left out.
#[verifier::external_body]
fn area_show(ta: &mut Area, width: u16, rows: u16) -> (cell: Option<(u16, u16)>)
    requires
        area_plain(*old(ta)),
        area_wraps(*old(ta)),
        area_hint(*old(ta)).len() > 0,
        edit_view(*old(ta)).wf(),
        edit_view(*old(ta)).fits(width, rows),
    ensures
        edit_view(*final(ta)) == edit_view(*old(ta)).shown(width, rows),
        area_lines(*old(ta)) != seq![Seq::<char>::empty()] ==> area_window(*final(ta)).0
            == scrolled(
            area_window(*old(ta)).0,
            cursor_row(
                area_lines(*old(ta)),
                area_cursor(*old(ta)).0 as nat,
                area_cursor(*old(ta)).1 as nat,
                width,
            ),
            rows,
        ),
        cell == edit_view(*old(ta)).cell(width, rows),
        cell matches Some(at) ==> (area_lines(*old(ta)) != seq![Seq::<char>::empty()] ==> at.0
            == cursor_col(
            area_lines(*old(ta)),
            area_cursor(*old(ta)).0 as nat,
            area_cursor(*old(ta)).1 as nat,
            width,
        )),
        same_setup(*final(ta), *old(ta)),
{
    let area = ratatui::layout::Rect::new(0, 0, width, rows);
    let mut buf = ratatui::buffer::Buffer::empty(ratatui::layout::Rect::ZERO);
    ratatui::widgets::Widget::render(&ta.inner, area, &mut buf);
    ta.inner.rendered_cursor_position().map(|p| (p.x, p.y))
}

/// `TextArea::input` with a key of the default key map: the contract claims what
/// each key does to the text, the cursor, the selection, the changes that can be
/// undone, the text that was cut and the window. Where the cursor goes by rows,
/// by characters and by pages is named, and said for characters that take a
/// column of their own. Cursor and selection stay in the text. Putting a cut text
/// back panics where it holds a line break within a line, so such texts are left
/// out.
#[verifier::external_body]
fn area_input(ta: &mut Area, code: KeyCode, ctrl: bool, alt: bool, shift: bool)
    requires
        area_plain(*old(ta)),
        area_wraps(*old(ta)),
        edit_view(*old(ta)).wf(),
    ensures
        edit_view(*final(ta)) == edit_view(*old(ta)).typed(code, ctrl, alt, shift),
        (code is Up || code is Down) && !ctrl && !alt ==> edit_view(*final(ta)) == edit_view(
            *old(ta),
        ).stepped(
            row_step(
                area_lines(*old(ta)),
                area_cursor(*old(ta)).0 as nat,
                area_cursor(*old(ta)).1 as nat,
                area_width(*old(ta)),
                code is Down,
            ),
            shift,
        ),
        (code is Left || code is Right) && !ctrl && !alt ==> edit_view(*final(ta)) == edit_view(
            *old(ta),
        ).stepped(
            char_step(
                area_lines(*old(ta)),
                area_cursor(*old(ta)).0 as nat,
                area_cursor(*old(ta)).1 as nat,
                area_width(*old(ta)),
                code is Right,
            ),
            shift,
        ),
        code is PageUp || code is PageDown ==> (
            area_cursor(*final(ta)).0 as nat,
            area_cursor(*final(ta)).1 as nat,
        ) == window_step(
            area_lines(*old(ta)),
            area_cursor(*old(ta)).0 as nat,
            area_cursor(*old(ta)).1 as nat,
            area_width(*old(ta)),
            area_window(*final(ta)),
        ),
        steps_evenly(edit_view(*old(ta)), code, ctrl, alt, shift, edit_view(*final(ta))),
        edit_view(*final(ta)).wf(),
        same_setup(*final(ta), *old(ta)),
{
    let key = match code {
        KeyCode::Char(c) => tui_textarea::Key::Char(c), KeyCode::F(n) => tui_textarea::Key::F(n),
        KeyCode::Backspace => tui_textarea::Key::Backspace,
        KeyCode::Delete => tui_textarea::Key::Delete,
        KeyCode::Enter => tui_textarea::Key::Enter, KeyCode::Tab => tui_textarea::Key::Tab,
        KeyCode::Left => tui_textarea::Key::Left, KeyCode::Right => tui_textarea::Key::Right,
        KeyCode::Up => tui_textarea::Key::Up, KeyCode::Down => tui_textarea::Key::Down,
        KeyCode::Home => tui_textarea::Key::Home, KeyCode::End => tui_textarea::Key::End,
        KeyCode::PageUp => tui_textarea::Key::PageUp,
        KeyCode::PageDown => tui_textarea::Key::PageDown,
        KeyCode::Esc => tui_textarea::Key::Esc, _ => tui_textarea::Key::Null,
    };
    ta.inner.input(tui_textarea::Input { key, ctrl, alt, shift });
}

/// `n`, moved into the bounds `lo` and `hi`.
pub open spec fn within(n: u16, lo: u16, hi: u16) -> u16 {
    if n < lo {
        lo
    } else if n > hi {
        hi
    } else {
        n
    }
}

/// What the empty input line shows.
pub const HINT: &'static str = "message…";

/// Rows that the input line grows to at most.
pub const MAX_INPUT_ROWS: u16 = 8;

/// The editor of the input line.
pub struct Composer {
    area: Area,
}

impl View for Composer {
    type V = EditView;

    closed spec fn view(&self) -> EditView {
        edit_view(self.area)
    }
}

/// Rows that a text takes in the input line at a width.
pub open spec fn composer_rows(lines: Seq<Seq<char>>, width: u16) -> u16 {
    within(content_rows(lines, width), 1, MAX_INPUT_ROWS)
}

/// An empty text that was never changed or shown.
pub open spec fn empty_edit() -> EditView {
    EditView {
        lines: seq![Seq::empty()],
        row: 0,
        col: 0,
        anchor: None,
        past: Seq::empty(),
        future: Seq::empty(),
        yank: seq![Seq::empty()],
        width: 0,
        window: (0, 0, 0),
    }
}

/// The key as the editor takes it: a key that went up is no key.
pub open spec fn edit_code(key: KeyEvent) -> KeyCode {
    if key.kind is Release {
        KeyCode::Null
    } else {
        key.code
    }
}

/// The text after a key press.
pub open spec fn pressed(e: EditView, key: KeyEvent) -> EditView {
    e.typed(edit_code(key), key.modifiers.control, key.modifiers.alt, key.modifiers.shift)
}

/// What a key press does over characters that take a column of their own.
pub open spec fn pressed_evenly(e: EditView, key: KeyEvent, after: EditView) -> bool {
    let m = key.modifiers;
    steps_evenly(e, edit_code(key), m.control, m.alt, m.shift, after)
}

impl Composer {
    /// Whether the editor is set up for the input line.
    pub closed spec fn wf(&self) -> bool {
        &&& edit_view(self.area).wf()
        &&& area_plain(self.area)
        &&& area_wraps(self.area)
        &&& area_hint(self.area) == HINT@
        &&& area_min_rows(self.area) == 1
        &&& area_max_rows(self.area) == MAX_INPUT_ROWS
    }

    /// Cursor and selection lie in the text.
    pub proof fn cursor_in_text(&self)
        requires
            self.wf(),
        ensures
            self@.wf(),
    {
    }

    /// An empty editor.
    pub fn new() -> (c: Self)
        ensures
            c.wf(),
            c@ == empty_edit(),
    {
        let mut area = area_default();
        area_set_hint(&mut area, HINT);
        area_set_wrapping(&mut area);
        area_set_min_rows(&mut area, 1);
        area_set_max_rows(&mut area, MAX_INPUT_ROWS);
        assert(edit_view(area) =~= empty_edit());
        Composer { area }
    }

    /// The lines of the text.
    pub fn lines(&self) -> (out: Vec<String>)
        ensures
            seqs::views(out@) == self@.lines,
    {
        area_get_lines(&self.area)
    }

    /// The row and the character that the cursor stands before.
    pub fn cursor(&self) -> (at: (usize, usize))
        ensures
            at.0 == self@.row,
            at.1 == self@.col,
    {
        area_get_cursor(&self.area)
    }

    /// Where the selected text starts and ends.
    pub fn selection(&self) -> (range: Option<((usize, usize), (usize, usize))>)
        ensures
            match range {
                Some(r) => {
                    &&& self@.selecting()
                    &&& (r.0.0 as nat, r.0.1 as nat) == self@.selected().0
                    &&& (r.1.0 as nat, r.1.1 as nat) == self@.selected().1
                },
                None => !self@.selecting(),
            },
    {
        match area_get_selection(&self.area) {
            Some((from, to)) => {
                if from.0 == to.0 && from.1 == to.1 {
                    None
                } else {
                    Some((from, to))
                }
            },
            None => None,
        }
    }

    /// The text as one run of characters.
    pub fn text(&self) -> (out: String)
        ensures
            out@ == self@.text(),
    {
        let lines = self.lines();
        text::join(&lines, "\n")
    }

    /// Rows that the text takes at a width.
    pub fn height(&mut self, width: u16) -> (rows: u16)
        requires
            old(self).wf(),
        ensures
            rows == composer_rows(old(self)@.lines, width),
            final(self)@ == old(self)@,
            final(self).wf(),
    {
        proof {
            reveal_strlit("message…");
        }
        area_measure(&mut self.area, width).1
    }

    /// Tells the editor the columns and rows that it is painted in, and says where
    /// its cursor is painted. A text with too many rows to count stays as it was
    /// shown before.
    pub fn show(&mut self, width: u16, rows: u16) -> (cell: Option<(u16, u16)>)
        requires
            old(self).wf(),
        ensures
            cell == if old(self)@.fits(width, rows) {
                old(self)@.cell(width, rows)
            } else {
                None
            },
            final(self)@ == if old(self)@.fits(width, rows) {
                old(self)@.shown(width, rows)
            } else {
                old(self)@
            },
            final(self).wf(),
    {
        proof {
            reveal_strlit("message…");
        }
        let (content, _) = area_measure(&mut self.area, width);
        if rows <= MAX_SHOWN_ROWS && (content as u32) + (rows as u32) < u16::MAX as u32 {
            area_show(&mut self.area, width, rows)
        } else {
            None
        }
    }

    /// Replaces the text, with the cursor at a position or as far towards it as
    /// the text reaches. A line break stands between two lines, never in one.
    pub fn place(&mut self, lines: Vec<String>, row: usize, col: usize)
        requires
            old(self).wf(),
            lines@.len() > 0,
            unbroken(seqs::views(lines@)),
        ensures
            final(self)@ == old(self)@.placed(seqs::views(lines@), row as nat, col as nat),
            final(self).wf(),
    {
        area_set_lines(&mut self.area, lines, row, col);
    }

    /// Puts a text in place of the selection, or at the cursor.
    pub fn insert(&mut self, t: &str)
        requires
            old(self).wf(),
        ensures
            final(self)@ == old(self)@.inserted(pieces_of(t@)),
            final(self).wf(),
    {
        area_insert_str(&mut self.area, t);
    }

    /// Breaks the line at the cursor.
    pub fn break_line(&mut self)
        requires
            old(self).wf(),
        ensures
            final(self)@ == old(self)@.broken(),
            final(self).wf(),
    {
        area_insert_newline(&mut self.area);
    }

    /// Hands a key press to the editor.
    pub fn press(&mut self, key: &KeyEvent)
        requires
            old(self).wf(),
        ensures
            final(self)@ == pressed(old(self)@, *key),
            pressed_evenly(old(self)@, *key, final(self)@),
            final(self).wf(),
    {
        let m = key.modifiers;
        match key.kind {
            KeyEventKind::Release => area_input(
                &mut self.area,
                KeyCode::Null,
                m.control,
                m.alt,
                m.shift,
            ),
            _ => area_input(&mut self.area, key.code, m.control, m.alt, m.shift),
        }
    }
}

/// Backspace takes back a character that was typed where nothing was selected.
pub proof fn erasing_takes_back_a_character(e: EditView, c: char)
    requires
        e.wf(),
        !e.selecting(),
    ensures
        e.inserted(seq![seq![c]]).erased().draft() == e.draft(),
{
    let line = e.line();
    let head = line.take(e.col as int);
    let tail = line.skip(e.col as int);
    let after = e.inserted(seq![seq![c]]);
    assert(after.line() == head + seq![c] + tail);
    assert(after.line().take(e.col as int) =~= head);
    assert(after.line().skip(e.col as int + 1) =~= tail);
    assert(head + tail =~= line);
    assert(after.erased().lines =~= e.lines);
}

/// Backspace takes back a line break that was typed where nothing was selected.
pub proof fn erasing_takes_back_a_break(e: EditView)
    requires
        e.wf(),
        !e.selecting(),
    ensures
        e.broken().erased().draft() == e.draft(),
{
    let line = e.line();
    let head = line.take(e.col as int);
    let tail = line.skip(e.col as int);
    let after = e.broken();
    let none = Seq::<char>::empty();
    let pieces = seq![none, none];
    assert(pieces.subrange(1, 1) =~= Seq::<Seq<char>>::empty());
    assert(head + none =~= head);
    assert(none + tail =~= tail);
    assert(after.lines =~= e.lines.take(e.row as int).push(head).push(tail) + e.lines.skip(
        e.row as int + 1,
    ));
    assert(after.lines[e.row as int] == head);
    assert(after.lines[e.row as int + 1] == tail);
    assert(head.take(head.len() as int) =~= head);
    assert(tail.skip(0) =~= tail);
    assert(head + tail =~= line);
    assert(after.lines.take(e.row as int) =~= e.lines.take(e.row as int));
    assert(after.lines.skip(e.row as int + 2) =~= e.lines.skip(e.row as int + 1));
    assert(after.erased().lines =~= e.lines);
}

/// Undoing a change brings the lines back as they were, with the cursor that the
/// change left behind, and making it again brings back what it made of them.
pub proof fn changes_can_be_undone(
    e: EditView,
    lines: Seq<Seq<char>>,
    row: nat,
    col: nat,
    back: (nat, nat),
)
    ensures
        e.changed(lines, row, col, back).undone().draft() == (Draft {
            lines: e.lines,
            row: back.0,
            col: back.1,
        }),
        e.changed(lines, row, col, back).undone().redone() == e.changed(lines, row, col, back),
{
    let after = e.changed(lines, row, col, back);
    let change = after.past.last();
    assert(after.past.drop_last().push(change) =~= after.past);
    assert((seq![change] + after.future).skip(1) =~= after.future);
}

/// Undoing what was typed where nothing was selected brings back the text and
/// the cursor.
pub proof fn typing_can_be_undone(e: EditView, pieces: Seq<Seq<char>>)
    requires
        e.wf(),
        !e.selecting(),
        pieces.len() > 1 || (pieces.len() == 1 && pieces[0].len() > 0),
    ensures
        e.inserted(pieces).undone().draft() == e.draft(),
{
}

/// What was cut is put back where it was.
pub proof fn cut_text_is_put_back(e: EditView)
    requires
        e.wf(),
        e.selecting(),
    ensures
        e.taken().inserted(e.taken().yank).lines == e.lines,
{
    let (from, to) = e.selected();
    let t = e.taken();
    let first = e.lines[from.0 as int];
    let last = e.lines[to.0 as int];
    let head = first.take(from.1 as int);
    let tail = last.skip(to.1 as int);
    assert(t.lines[from.0 as int] == head + tail);
    assert((head + tail).take(from.1 as int) =~= head);
    assert((head + tail).skip(from.1 as int) =~= tail);
    assert(t.lines.take(from.0 as int) =~= e.lines.take(from.0 as int));
    assert(t.lines.skip(from.0 as int + 1) =~= e.lines.skip(to.0 as int + 1));
    let pieces = t.yank;
    if from.0 == to.0 {
        assert(head + pieces[0] + tail =~= first);
        assert(pieces[0].len() > 0);
    } else {
        let middle = e.lines.subrange(from.0 as int + 1, to.0 as int);
        assert(pieces.subrange(1, pieces.len() - 1) =~= middle);
        assert(head + pieces[0] =~= first);
        assert(pieces.last() + tail =~= last);
    }
    assert(t.inserted(pieces).lines =~= e.lines);
}

/// Where the cursor went on by a character, it goes back to where it was.
pub proof fn going_back_undoes_going_on(e: EditView)
    requires
        e.wf(),
        e.moved_on(false) != e,
    ensures
        e.moved_on(false).moved_back(false) == e.released(),
{
}

/// The text before the cursor.
pub open spec fn text_before(e: EditView) -> Seq<char> {
    text::joined(e.lines.take(e.row as int).push(e.line().take(e.col as int)), "\n"@)
}

/// The text behind the cursor.
pub open spec fn text_behind(e: EditView) -> Seq<char> {
    text::joined(
        seq![e.line().skip(e.col as int)] + e.lines.skip(e.row as int + 1),
        "\n"@,
    )
}

/// The cursor parts the text in two, and what is inserted where nothing is selected
/// goes between them, line by line; the cursor stands behind it.
pub proof fn inserted_text_goes_to_the_cursor(e: EditView, pieces: Seq<Seq<char>>)
    requires
        e.wf(),
        !e.selecting(),
        pieces.len() > 0,
    ensures
        e.text() == text_before(e) + text_behind(e),
        e.inserted(pieces).text() == text_before(e) + text::joined(pieces, "\n"@) + text_behind(e),
        text_before(e.inserted(pieces)) == text_before(e) + text::joined(pieces, "\n"@),
{
    let sep = "\n"@;
    let above = e.lines.take(e.row as int);
    let below = e.lines.skip(e.row as int + 1);
    let head = e.line().take(e.col as int);
    let tail = e.line().skip(e.col as int);
    let none = Seq::<Seq<char>>::empty();
    assert(head + tail =~= e.line());
    assert(e.lines =~= above.push(head + tail) + below);
    text::lemma_joined_cut(above, head, tail, below, sep);
    let after = e.inserted(pieces);
    let first = pieces[0];
    let rest = pieces.skip(1);
    assert(seq![first] + rest =~= pieces);
    text::lemma_joined_cut(above, head, first, rest, sep);
    if pieces.len() == 1 {
        assert(rest =~= none);
        assert(above.push(head + first) + rest =~= above.push(head + first));
        assert(text::joined(pieces, sep) =~= first);
        if first.len() == 0 {
            assert(text_before(e) + first =~= text_before(e));
        } else {
            let line = head + first + tail;
            assert(after.lines =~= above.push((head + first) + tail) + below);
            text::lemma_joined_cut(above, head + first, tail, below, sep);
            assert(after.lines.take(e.row as int) =~= above);
            assert(line.take(after.col as int) =~= head + first);
        }
    } else {
        let mid = pieces.subrange(1, pieces.len() - 1);
        let last = pieces.last();
        let upper = above.push(head + first) + mid;
        assert(after.lines =~= upper.push(last + tail) + below);
        text::lemma_joined_cut(upper, last, tail, below, sep);
        assert(upper.push(last) =~= above.push(head + first) + rest);
        assert(after.lines.take(after.row as int) =~= upper);
        assert((last + tail).take(last.len() as int) =~= last);
        assert(after.line() == last + tail);
    }
}

/// Text without carriage returns is inserted as it is.
pub proof fn texts_are_inserted_whole(t: Seq<char>)
    requires
        !t.contains('\r'),
    ensures
        text::joined(pieces_of(t), "\n"@) == t,
{
    reveal_strlit("\n");
    assert("\n"@ =~= seq!['\n']);
    let parts = text::split_on(t, '\n');
    text::join_undoes_split(t, '\n');
    text::lemma_split_within(t, '\n', '\r');
    assert forall|i: int| 0 <= i < parts.len() implies #[trigger] pieces_of(t)[i] == parts[i] by {
        assert(!parts[i].contains('\r'));
        if parts[i].len() > 0 {
            assert(parts[i].last() == parts[i][parts[i].len() - 1]);
        }
    }
    assert(pieces_of(t) =~= parts);
}

} // verus!
