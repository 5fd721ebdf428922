//! The transcript on the screen: scrolling, the mouse and what is drawn.
use vstd::prelude::*;
use vstd::string::*;

use super::super::component::{Action, KeyResult};
use super::super::event;
use super::super::theme;
use super::kinds::Header;
use super::model;
use super::model::{RowView, TranscriptView};
use super::selection::SelPos;
use super::selection;
use super::widget::Transcript;
use super::wrap::THINKING_LABEL;
use super::wrap;
use crate::keys::{KeyCode, KeyEvent, MouseButton, MouseEvent, MouseEventKind};
use crate::seqs;
use crate::style::{Line, Rect, Span};
use crate::style;
use crate::text;

verus! {

broadcast use crate::seqs::views_push;

/// Lines that one notch of the mouse wheel scrolls by.
pub const MOUSE_SCROLL_STEP: u16 = 3;

/// The caret behind a streaming answer.
pub const STREAM_CARET: &'static str = "▊";

/// Frames that the caret stays on or off.
pub const CARET_FRAMES: u64 = 5;

/// Milliseconds within which a second click makes a double click.
pub const DOUBLE_CLICK_TIMEOUT: u64 = 500;

/// Whether a widget's answer says that it took the event (`taken`), and that
/// it copied the selection (`copied`).
pub open spec fn answers(result: KeyResult, taken: bool, copied: bool) -> bool {
    match result {
        KeyResult::Ignored => !taken && !copied,
        KeyResult::Handled => taken && !copied,
        KeyResult::Action(Action::Notify(t)) => taken && copied && t@ == "Copied!"@,
        KeyResult::Action(_) => false,
    }
}

impl Transcript {
    /// The first line that the view shows.
    pub fn current_top(&self) -> (top: usize)
        ensures
            top == self@.current_top(),
    {
        match self.top {
            Some(top) => top,
            None => self.total_lines().saturating_sub(self.area.height as usize),
        }
    }

    /// Scrolls up by `n` lines and anchors the view there.
    pub fn scroll_up(&mut self, n: u16)
        ensures
            final(self)@ == old(self)@.scrolled_up(n),
    {
        self.top = Some(self.current_top().saturating_sub(n as usize));
    }

    /// Scrolls down by `n` lines; at the bottom the view follows again.
    pub fn scroll_down(&mut self, n: u16)
        ensures
            final(self)@ == old(self)@.scrolled_down(n),
    {
        let total: usize = self.total_lines();
        let height: usize = if self.area.height == 0 {
            1
        } else {
            self.area.height as usize
        };
        let max_top: usize = total.saturating_sub(height);
        let wanted: usize = self.current_top().saturating_add(n as usize);
        let top: usize = if wanted <= max_top {
            wanted
        } else {
            max_top
        };
        self.top = if top.saturating_add(height) < total {
            Some(top)
        } else {
            None
        };
    }

    /// The position in the lines that a cell of the screen shows.
    pub fn pos_at(&self, column: u16, row: u16) -> (pos: SelPos)
        ensures
            pos == self@.pos_at(column, row),
    {
        let total: usize = self.total_lines();
        if total == 0 {
            return SelPos { line: 0, col: 0 };
        }
        let top: usize = self.current_top();
        let height: usize = if self.area.height == 0 {
            1
        } else {
            self.area.height as usize
        };
        let below: usize = row.saturating_sub(self.area.y) as usize;
        let rel_y: usize = if below < height {
            below
        } else {
            height - 1
        };
        let raw: usize = top.saturating_add(rel_y);
        let last: usize = total - 1;
        let line: usize = if raw <= last {
            raw
        } else {
            last
        };
        let w: usize = self.width_at(line);
        let rel_x: usize = column.saturating_sub(self.area.x) as usize;
        let col: usize = if raw > last || rel_x > w {
            w
        } else {
            rel_x
        };
        SelPos { line, col }
    }

    /// The ends of the selection in order, where it is not empty.
    pub fn normalized_sel(&self) -> (sel: Option<(SelPos, SelPos)>)
        ensures
            sel == self@.selection(),
    {
        match (self.select_anchor, self.select_head) {
            (Some(a), Some(b)) => if a == b {
                None
            } else if a.le(b) {
                Some((a, b))
            } else {
                Some((b, a))
            },
            _ => None,
        }
    }

    /// The line at `idx`, those of the stream last.
    fn line_at(&self, idx: usize) -> (line: Option<&Line>)
        ensures
            match line {
                Some(l) => idx < self@.lines().len() && l@ == self@.lines()[idx as int],
                None => idx >= self@.lines().len(),
            },
    {
        let n: usize = self.wrapped.len();
        if idx < n {
            Some(&self.wrapped[idx])
        } else if idx - n < self.wrapped_stream.len() {
            Some(&self.wrapped_stream[idx - n])
        } else {
            None
        }
    }

    /// The selected text, where there is any.
    pub fn selected_text(&self) -> (out: Option<String>)
        ensures
            event::text_view(out) == self@.selected(),
    {
        let (start, end) = match self.normalized_sel() {
            Some(pair) => pair,
            None => {
                return None;
            },
        };
        let mut out = String::new();
        let mut idx: usize = start.line;
        let mut more = start.line <= end.line;
        let ghost v = self@;
        assert(more);
        while more
            invariant
                v == self@,
                start.line <= idx <= end.line,
                more ==> out@ == v.text_between(start, end, idx as nat),
                !more ==> out@ == v.text_between(start, end, end.line as nat + 1),
            decreases end.line - idx + (if more {
                1int
            } else {
                0int
            }),
        {
            match self.line_at(idx) {
                None => {
                    more = false;
                    proof {
                        self.lemma_nothing_behind(start, end, idx as nat, end.line as nat + 1);
                    }
                },
                Some(line) => {
                    let from: usize = if idx == start.line {
                        start.col
                    } else {
                        0
                    };
                    let to: usize = if idx == end.line {
                        end.col
                    } else {
                        wrap::line_display_width(line)
                    };
                    let ghost before = out@;
                    if idx > start.line {
                        out.push('\n');
                    }
                    let part = selection::extract_line_range(line, from, to);
                    out.append(part.as_str());
                    proof {
                        let sep = if idx > start.line {
                            seq!['\n']
                        } else {
                            Seq::<char>::empty()
                        };
                        assert(out@ =~= before + sep + part@);
                        assert(out@ == v.text_between(start, end, idx as nat + 1));
                    }
                    if idx == end.line {
                        more = false;
                    } else {
                        idx += 1;
                    }
                },
            }
        }
        if out.as_str().is_empty() {
            None
        } else {
            Some(out)
        }
    }

    proof fn lemma_nothing_behind(&self, start: SelPos, end: SelPos, from: nat, to: nat)
        requires
            self@.lines().len() <= from <= to,
        ensures
            self@.text_between(start, end, from) == self@.text_between(start, end, to),
        decreases to - from,
    {
        if from < to {
            self.lemma_nothing_behind(start, end, from, (to - 1) as nat);
        }
    }

    /// The row whose header a cell of the screen shows, and that header.
    fn collapsible_header_at(&self, column: u16, row: u16) -> (found: Option<(usize, Header)>)
        ensures
            match found {
                Some((r, header)) => r < self@.rows.len() && self@.header_at(column, row) == Some(
                    (r as nat, header@),
                ),
                None => self@.header_at(column, row) is None,
            },
    {
        let line: usize = self.pos_at(column, row).line;
        let mut i: usize = 0;
        let ghost rows = self@.rows;
        while i < self.rows.len()
            invariant
                i <= self.rows@.len() == rows.len(),
                rows == self@.rows,
                model::row_header_on(rows, line as nat, 0) == model::row_header_on(
                    rows,
                    line as nat,
                    i as nat,
                ),
                line == self@.pos_at(column, row).line,
            decreases self.rows.len() - i,
        {
            let headers = &self.rows[i].headers;
            let ghost views = rows[i as int].headers;
            assert(views == seqs::views(headers@));
            let mut j: usize = 0;
            while j < headers.len()
                invariant
                    i < self.rows@.len() == rows.len(),
                    rows == self@.rows,
                    *headers == self.rows@[i as int].headers,
                    views == rows[i as int].headers,
                    views == seqs::views(headers@),
                    j <= headers@.len(),
                    model::header_on(views, line as nat, 0) == model::header_on(
                        views,
                        line as nat,
                        j as nat,
                    ),
                    model::row_header_on(rows, line as nat, 0) == model::row_header_on(
                        rows,
                        line as nat,
                        i as nat,
                    ),
                    line == self@.pos_at(column, row).line,
                decreases headers.len() - j,
            {
                assert(views[j as int] == headers@[j as int]@);
                if headers[j].line == line {
                    return Some((i, headers[j].copy()));
                }
                j += 1;
            }
            i += 1;
        }
        None
    }

    /// Moves the pointer. Returns whether it points at another header now.
    fn update_hover(&mut self, column: u16, row: u16) -> (changed: bool)
        ensures
            final(self)@ == old(self)@.with_pointer(column, row),
            changed == (old(self)@.hovered != old(self)@.pointed(column, row)),
    {
        let hovered = if self.area.contains(column, row) {
            match self.collapsible_header_at(column, row) {
                Some((_, header)) => Some(header),
                None => None,
            }
        } else {
            None
        };
        let same = match (&self.hovered_collapsible, &hovered) {
            (Some(a), Some(b)) => a.same(b),
            (None, None) => true,
            _ => false,
        };
        self.hovered_collapsible = hovered;
        !same
    }

    fn begin_selection(&mut self, column: u16, row: u16)
        ensures
            final(self)@ == old(self)@.with_selection_begun(column, row),
    {
        if self.total_lines() == 0 {
            self.clear_selection();
            return ;
        }
        let pos = self.pos_at(column, row);
        self.select_anchor = Some(pos);
        self.select_head = Some(pos);
        self.dragging = true;
    }

    fn update_selection(&mut self, column: u16, row: u16)
        ensures
            final(self)@ == old(self)@.with_selection_at(column, row),
    {
        if self.total_lines() == 0 {
            return ;
        }
        self.select_head = Some(self.pos_at(column, row));
    }

    /// Ends a selection. `clipboard` says whether the clipboard took the text.
    /// Returns whether it was copied.
    fn end_selection(&mut self, clipboard: bool) -> (copied: bool)
        ensures
            final(self)@ == old(self)@.with_selection_ended(clipboard),
            copied == old(self)@.copies(clipboard),
    {
        let ghost v = self@;
        self.dragging = false;
        proof {
            let next = TranscriptView { dragging: false, ..v };
            assert(next.lines() == v.lines());
            assert(next.selection() == v.selection());
            Self::lemma_text_between_same(v, next);
        }
        if self.selected_text().is_some() && clipboard {
            true
        } else {
            self.clear_selection();
            false
        }
    }

    proof fn lemma_text_between_same(a: TranscriptView, b: TranscriptView)
        requires
            a.lines() == b.lines(),
            a.selection() == b.selection(),
        ensures
            a.selected() == b.selected(),
    {
        assert forall|start: SelPos, end: SelPos, idx: nat|
            a.text_between(start, end, idx) == b.text_between(start, end, idx) by {
            Self::lemma_text_between_equal(a, b, start, end, idx);
        }
    }

    proof fn lemma_text_between_equal(
        a: TranscriptView,
        b: TranscriptView,
        start: SelPos,
        end: SelPos,
        idx: nat,
    )
        requires
            a.lines() == b.lines(),
        ensures
            a.text_between(start, end, idx) == b.text_between(start, end, idx),
        decreases idx,
    {
        if idx > start.line {
            Self::lemma_text_between_equal(a, b, start, end, (idx - 1) as nat);
        }
    }

    /// Switches the body that a header points at, and keeps the header where
    /// it is on the screen.
    pub fn toggle_collapsible(&mut self, row: usize, header: &Header)
        requires
            old(self)@.wf(),
        ensures
            final(self)@ == old(self)@.with_toggled(row as nat, header@.path),
            final(self)@.wf(),
    {
        proof {
            reveal(TranscriptView::with_toggled);
        }
        let ghost v = self@;
        if row >= self.rows.len() {
            return ;
        }
        let start: usize = self.current_top();
        let ghost path = header.path@;
        assert(path.skip(0) =~= path);
        let mut found = false;
        if let Some(body) = &mut self.rows[row].collapsible {
            found = body.toggle_at(&header.path, 0);
        }
        if !found {
            assert(self@.rows =~= v.rows);
            return ;
        }
        proof {
            let body = v.rows[row as int].collapsible->0;
            let next = TranscriptView {
                rows: v.rows.update(
                    row as int,
                    RowView {
                        collapsible: Some(super::collapsible::toggled_at(body, path)),
                        ..v.rows[row as int]
                    },
                ),
                ..v
            };
            assert(self@ =~= next);
        }
        self.rewrap_all();
        // Pin the clicked header to its screen row, so its body grows downward
        // instead of scrolling the header out of view.
        self.top = Some(start);
    }

    fn press(&mut self, column: u16, row: u16, now: u64)
        requires
            old(self)@.wf(),
        ensures
            final(self)@ == old(self)@.with_press(column, row, now),
            final(self)@.wf(),
    {
        let header = self.collapsible_header_at(column, row);
        match header {
            Some((r, hit)) => {
                let double = match &self.last_collapsible_click {
                    Some((last, at)) => last.line == hit.line && now.saturating_sub(*at)
                        <= DOUBLE_CLICK_TIMEOUT,
                    None => false,
                };
                if double {
                    self.last_collapsible_click = None;
                    self.toggle_collapsible(r, &hit);
                    self.clear_selection();
                    return ;
                }
                self.last_collapsible_click = Some((hit, now));
            },
            None => {
                self.last_collapsible_click = None;
            },
        }
        self.begin_selection(column, row);
    }

    /// The text that the clipboard should take when the mouse event is a
    /// release that ends a selection.
    pub fn copy_request(&mut self, mouse: &MouseEvent) -> (out: Option<String>)
        ensures
            final(self)@ == old(self)@.before_copy(*mouse),
            event::text_view(out) == old(self)@.wanted_copy(*mouse),
    {
        let inside = self.area.contains(mouse.column, mouse.row);
        match mouse.kind {
            MouseEventKind::Up(MouseButton::Left) => {
                if inside || self.dragging {
                    if self.dragging {
                        self.update_selection(mouse.column, mouse.row);
                    }
                    return self.selected_text();
                }
                None
            },
            _ => None,
        }
    }

    /// Reacts to the mouse at time `now`, in milliseconds. `clipboard` says
    /// whether the clipboard took the text that `copy_request` asked for.
    pub fn handle_mouse(&mut self, mouse: &MouseEvent, now: u64, clipboard: bool) -> (result: KeyResult)
        requires
            old(self)@.wf(),
        ensures
            final(self)@ == old(self)@.after_mouse(*mouse, now, clipboard),
            final(self)@.wf(),
            answers(
                result,
                old(self)@.mouse_answer(*mouse, clipboard).0,
                old(self)@.mouse_answer(*mouse, clipboard).1,
            ),
    {
        let inside = self.area.contains(mouse.column, mouse.row);
        match mouse.kind {
            MouseEventKind::ScrollUp => {
                if !inside {
                    return KeyResult::Ignored;
                }
                self.scroll_up(MOUSE_SCROLL_STEP);
                let _changed = self.update_hover(mouse.column, mouse.row);
                KeyResult::Handled
            },
            MouseEventKind::ScrollDown => {
                if !inside {
                    return KeyResult::Ignored;
                }
                self.scroll_down(MOUSE_SCROLL_STEP);
                let _changed = self.update_hover(mouse.column, mouse.row);
                KeyResult::Handled
            },
            MouseEventKind::Down(MouseButton::Left) => {
                if !inside {
                    return KeyResult::Ignored;
                }
                self.press(mouse.column, mouse.row, now);
                KeyResult::Handled
            },
            MouseEventKind::Drag(MouseButton::Left) => {
                if !self.dragging {
                    return KeyResult::Ignored;
                }
                self.update_selection(mouse.column, mouse.row);
                KeyResult::Handled
            },
            MouseEventKind::Moved => {
                if self.dragging {
                    self.update_selection(mouse.column, mouse.row);
                    KeyResult::Handled
                } else if self.update_hover(mouse.column, mouse.row) {
                    KeyResult::Handled
                } else {
                    KeyResult::Ignored
                }
            },
            MouseEventKind::Up(MouseButton::Left) => {
                if !(inside || self.dragging) {
                    return KeyResult::Ignored;
                }
                if self.dragging {
                    self.update_selection(mouse.column, mouse.row);
                }
                let selected = self.normalized_sel().is_some();
                let copied = self.end_selection(clipboard);
                if copied || selected {
                    self.last_collapsible_click = None;
                }
                if copied {
                    KeyResult::Action(Action::Notify("Copied!".to_owned()))
                } else {
                    KeyResult::Handled
                }
            },
            _ => KeyResult::Ignored,
        }
    }

    /// Pages up and down by the height of the view.
    pub fn handle_key(&mut self, key: &KeyEvent) -> (result: KeyResult)
        ensures
            ({
                let page = if old(self)@.area.height == 0 {
                    1u16
                } else {
                    old(self)@.area.height
                };
                match key.code {
                    KeyCode::PageUp => result is Handled && final(self)@ == old(
                        self,
                    )@.scrolled_up(page),
                    KeyCode::PageDown => result is Handled && final(self)@ == old(
                        self,
                    )@.scrolled_down(page),
                    _ => result is Ignored && final(self)@ == old(self)@,
                }
            }),
    {
        let page: u16 = if self.area.height == 0 {
            1
        } else {
            self.area.height
        };
        match key.code {
            KeyCode::PageUp => {
                self.scroll_up(page);
                KeyResult::Handled
            },
            KeyCode::PageDown => {
                self.scroll_down(page);
                KeyResult::Handled
            },
            _ => KeyResult::Ignored,
        }
    }

    /// Lays the transcript out for an area of the screen.
    pub fn lay_out(&mut self, area: Rect)
        requires
            old(self)@.wf(),
        ensures
            final(self)@ == old(self)@.laid_out(area),
            final(self)@.wf(),
    {
        proof {
            reveal(TranscriptView::laid_out);
        }
        let resized = area.width != self.area.width;
        self.area = area;
        if resized {
            self.rewrap_all();
        } else if !self.streaming.as_str().is_empty() {
            self.rewrap_stream();
        }
        if let Some(t) = self.top {
            let total: usize = self.total_lines();
            let height: usize = area.height as usize;
            let max_top: usize = total.saturating_sub(height);
            let top: usize = if t <= max_top {
                t
            } else {
                max_top
            };
            assert(self@.area == area);
            self.top = if top.saturating_add(height) < total {
                Some(top)
            } else {
                None
            };
        }
    }

    /// The header line of reasoning that is still streaming.
    fn live_thinking_header(&self) -> (line: Option<usize>)
        requires
            self@.wf(),
        ensures
            match line {
                Some(l) => self@.live_header() == Some(l as nat),
                None => self@.live_header() is None,
            },
    {
        let r: usize = match self.thinking_row {
            Some(r) => r,
            None => {
                return None;
            },
        };
        let row = &self.rows[r];
        assert(self@.rows[r as int] == row@);
        if text::same_text(row.text.as_str(), THINKING_LABEL) && row.headers.len() > 0 {
            assert(row@.headers[0] == row.headers@[0]@);
            Some(row.headers[0].line)
        } else {
            None
        }
    }

    /// How many characters of the live reasoning header shimmer; none where
    /// there is none.
    pub fn shimmer_len(&self) -> (n: usize)
        requires
            self@.wf(),
        ensures
            n == (match self@.live_header() {
                Some(l) => if l < self@.lines().len() && self@.lines()[l as int].len() > 0 {
                    style::line_text(self@.lines()[l as int].skip(1)).len()
                } else {
                    0
                },
                None => 0,
            }),
    {
        match self.live_thinking_header() {
            Some(l) => match self.line_at(l) {
                Some(line) => wrap::shimmer_len(line),
                None => 0,
            },
            None => 0,
        }
    }

    /// The line at `idx` with the shimmer, the hover and the caret.
    fn paint_line(&self, idx: usize, end: usize, frame: u64, shades: &Vec<u8>) -> (out: Line)
        requires
            self@.wf(),
            idx < self@.lines().len(),
            end == self@.end_line(),
        ensures
            out@ == self@.painted(idx as nat, frame, shades@),
    {
        let n: usize = self.wrapped.len();
        let plain = if idx < n {
            self.wrapped[idx].copy()
        } else {
            self.wrapped_stream[idx - n].copy()
        };
        assert(plain@ == self@.lines()[idx as int]);
        let live = match self.live_thinking_header() {
            Some(l) => l == idx,
            None => false,
        };
        let shimmering = if live && plain.spans.len() > 0 && wrap::shimmer_len(&plain)
            <= shades.len() {
            wrap::apply_thinking_shimmer(&plain, shades)
        } else {
            plain
        };
        let under = match &self.hovered_collapsible {
            Some(h) => h.line == idx,
            None => false,
        };
        let mut line = if under {
            wrap::apply_hover(&shimmering, self.width())
        } else {
            shimmering
        };
        let is_text = self.stream_kind == super::kinds::LineKind::Text
            && !self.streaming.as_str().is_empty();
        if is_text && end == self.total_lines() && (frame / CARET_FRAMES) % 2 == 0 && idx == end
            - 1 {
            let ghost before = line@;
            line.spans.push(Span::styled(STREAM_CARET.to_owned(), theme::assistant()));
            assert(line@ =~= before.push(
                style::SpanView { text: "▊"@, style: theme::assistant() },
            ));
        }
        line
    }

    /// The lines on the screen at animation frame `frame`. `shades` holds a
    /// shade of gray for each character of the live reasoning header.
    pub fn screen_lines(&self, frame: u64, shades: &Vec<u8>) -> (out: Vec<Line>)
        requires
            self@.wf(),
        ensures
            seqs::views(out@) == self@.screen(frame, shades@),
    {
        let total: usize = self.total_lines();
        let top: usize = self.current_top();
        let start: usize = if top <= total {
            top
        } else {
            total
        };
        let wanted: usize = start.saturating_add(self.area.height as usize);
        let end: usize = if wanted <= total {
            wanted
        } else {
            total
        };
        assert(start == self@.first_line() && end == self@.end_line());
        let sel = self.normalized_sel();
        let mut out: Vec<Line> = Vec::new();
        let ghost made = self@.screen(frame, shades@);
        let mut idx: usize = start;
        assert(seqs::views(out@) =~= made.take(0));
        while idx < end
            invariant
                self@.wf(),
                start <= idx <= end,
                start == self@.first_line(),
                end == self@.end_line(),
                end <= self@.lines().len(),
                sel == self@.selection(),
                made == self@.screen(frame, shades@),
                seqs::views(out@) == made.take(idx - start),
            decreases end - idx,
        {
            let mut line = self.paint_line(idx, end, frame, shades);
            if let Some((first, last)) = sel {
                if first.line <= idx && idx <= last.line {
                    let from: usize = if idx == first.line {
                        first.col
                    } else {
                        0
                    };
                    let to: usize = if idx == last.line {
                        last.col
                    } else {
                        wrap::line_display_width(&line)
                    };
                    line = selection::highlight_line(&line, from, to);
                }
            }
            proof {
                assert(line@ == self@.screen_line(idx as nat, frame, shades@));
                assert(made[idx - start] == line@);
                assert(made.take(idx - start + 1) =~= made.take(idx - start).push(line@));
            }
            out.push(line);
            idx += 1;
        }
        assert(made.take(made.len() as int) =~= made);
        out
    }
}

} // verus!
