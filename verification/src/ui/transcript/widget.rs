//! The transcript widget: rows, streamed text, scrolling and selecting.
use vstd::prelude::*;
use vstd::string::*;

use super::kinds::LineKind;
use super::model;
use super::model::{RowView, TranscriptView, MOUSE_SCROLL_STEP, NO_OUTPUT};
use super::selection::{extract_line_range, highlight_line};
use super::wrap::{keep_text, wrap_row_into};
use crate::components::component;
use crate::components::component::{Action, KeyResult};
use crate::components::event::{text_view, Role};
use crate::components::transcript::selection::SelPos;
use crate::components::transcript::wrap::{line_display_width, push_gap, trim_message};
use crate::keys::{KeyCode, KeyEvent, MouseButton, MouseEvent, MouseEventKind};
use crate::seqs;
use crate::style::{Line, Rect};
use crate::style;
use crate::text;
use crate::ui::event;
use crate::ui::event::{tool_display, AgentEvent, AppEvent, ContentBlock, Message};

verus! {

broadcast use crate::seqs::views_push;

/// A row of the transcript.
pub struct Row {
    pub kind: LineKind,
    pub text: String,
}

impl View for Row {
    type V = RowView;

    open spec fn view(&self) -> RowView {
        RowView { kind: self.kind, text: self.text@ }
    }
}

/// The scrolling record of a session.
pub struct Transcript {
    pub rows: Vec<Row>,
    pub wrapped: Vec<Line>,
    pub streaming: String,
    pub stream_kind: LineKind,
    pub wrapped_stream: Vec<Line>,
    pub stream_dirty: bool,
    /// User messages queued while busy; they become rows once the answer under
    /// way is finished, so that they appear after it.
    pub pending_user: Vec<String>,
    /// Columns that the lines are wrapped for; 0 until the first layout.
    pub width: usize,
    /// A pinned view follows the newest content; one that was scrolled up stays
    /// at `top` while new content arrives.
    pub pinned: bool,
    pub top: usize,
    pub view_height: usize,
    pub area: Rect,
    pub select_anchor: Option<SelPos>,
    pub select_head: Option<SelPos>,
    pub dragging: bool,
}

impl View for Transcript {
    type V = TranscriptView;

    open spec fn view(&self) -> TranscriptView {
        TranscriptView {
            rows: seqs::views(self.rows@),
            wrapped: seqs::views(self.wrapped@),
            streaming: self.streaming@,
            stream_kind: self.stream_kind,
            wrapped_stream: seqs::views(self.wrapped_stream@),
            stream_dirty: self.stream_dirty,
            pending_user: seqs::views(self.pending_user@),
            width: self.width,
            pinned: self.pinned,
            top: self.top,
            view_height: self.view_height,
            area: self.area,
            select_anchor: self.select_anchor,
            select_head: self.select_head,
            dragging: self.dragging,
        }
    }
}

/// The texts of the text blocks, one under the other.
pub fn result_text(content: &Vec<ContentBlock>) -> (out: String)
    ensures
        out@ == text::joined(model::result_texts(content@), "\n"@),
{
    let mut texts: Vec<String> = Vec::new();
    let mut i: usize = 0;
    proof {
        assert(content@.take(0) =~= Seq::<ContentBlock>::empty());
        assert(seqs::views(texts@) =~= Seq::<Seq<char>>::empty());
    }
    while i < content.len()
        invariant
            i <= content@.len(),
            seqs::views(texts@) == model::result_texts(content@.take(i as int)),
        decreases content.len() - i,
    {
        proof {
            let now = content@.take(i + 1);
            assert(now.drop_last() =~= content@.take(i as int));
            assert(now.last() == content@[i as int]);
        }
        if let ContentBlock::Text { text } = &content[i] {
            texts.push(text.clone());
        }
        i += 1;
    }
    assert(content@.take(content@.len() as int) =~= content@);
    text::join(&texts, "\n")
}

impl Transcript {
    /// An empty transcript that was not laid out yet.
    pub fn new() -> (t: Self)
        ensures
            t@ == model::fresh_transcript(),
            t@.is_current(),
    {
        let t = Transcript {
            rows: Vec::new(),
            wrapped: Vec::new(),
            streaming: String::new(),
            stream_kind: LineKind::Text,
            wrapped_stream: Vec::new(),
            stream_dirty: false,
            pending_user: Vec::new(),
            width: 0,
            pinned: true,
            top: 0,
            view_height: 0,
            area: Rect::new(0, 0, 0, 0),
            select_anchor: None,
            select_head: None,
            dragging: false,
        };
        proof {
            assert(t@.rows =~= Seq::<RowView>::empty());
            assert(t@.wrapped =~= Seq::<Seq<style::SpanView>>::empty());
            assert(t@.wrapped_stream =~= Seq::<Seq<style::SpanView>>::empty());
            assert(t@.pending_user =~= Seq::<Seq<char>>::empty());
        }
        t
    }

    /// How many lines there are, those of the stream included.
    pub fn total_lines(&self) -> (n: usize)
        ensures
            n == self@.total(),
    {
        self.wrapped.len().saturating_add(self.wrapped_stream.len())
    }

    /// The first line that the view shows.
    pub fn current_top(&self) -> (top: usize)
        ensures
            top == self@.current_top(),
    {
        if self.pinned {
            self.total_lines().saturating_sub(self.view_height)
        } else {
            self.top
        }
    }

    fn keep_following(&mut self)
        ensures
            final(self)@ == old(self)@.following(),
    {
        if self.pinned {
            self.top = self.total_lines().saturating_sub(self.view_height);
        }
    }

    /// Scrolls up by `n` lines and stays there.
    pub fn scroll_up(&mut self, n: u16)
        ensures
            final(self)@ == old(self)@.scrolled_up(n),
    {
        self.top = self.current_top().saturating_sub(n as usize);
        self.pinned = false;
    }

    /// Scrolls down by `n` lines; at the bottom the view follows again.
    pub fn scroll_down(&mut self, n: u16)
        ensures
            final(self)@ == old(self)@.scrolled_down(n),
    {
        let total: usize = self.total_lines();
        let height: usize = if self.view_height == 0 {
            1
        } else {
            self.view_height
        };
        let max_top: usize = total.saturating_sub(height);
        let wanted: usize = self.current_top().saturating_add(n as usize);
        let top: usize = if wanted <= max_top {
            wanted
        } else {
            max_top
        };
        self.top = top;
        self.pinned = top.saturating_add(height) >= total;
    }

    /// Puts a row behind the others.
    pub fn push_row(&mut self, kind: LineKind, t: &str)
        ensures
            final(self)@ == old(self)@.with_row(kind, t@),
    {
        reveal(TranscriptView::with_row);
        let kept = keep_text(kind, t);
        if self.width > 0 {
            push_gap(&mut self.wrapped);
            wrap_row_into(&mut self.wrapped, kind, kept.as_str(), self.width);
        }
        self.rows.push(Row { kind, text: kept });
        self.keep_following();
    }

    /// Puts a message of the user behind the other rows.
    pub fn push_user(&mut self, t: &str)
        ensures
            final(self)@ == old(self)@.with_row(LineKind::User, t@),
    {
        self.push_row(LineKind::User, t);
    }

    /// Remembers a user message accepted while the session was busy; it is shown
    /// as a row once the current activity is done.
    pub fn push_user_queued(&mut self, t: &str)
        ensures
            final(self)@ == (TranscriptView {
                pending_user: old(self)@.pending_user.push(t@),
                ..old(self)@
            }),
    {
        self.pending_user.push(t.to_owned());
    }

    /// The text of the most recent user message, if there is one.
    pub fn last_user_text(&self) -> (out: Option<String>)
        ensures
            text_view(out) == model::last_prompt(self@.rows),
    {
        let ghost rows = self@.rows;
        let mut i: usize = self.rows.len();
        assert(rows.take(i as int) =~= rows);
        while i > 0
            invariant
                i <= self.rows@.len(),
                rows == self@.rows,
                model::last_prompt(rows) == model::last_prompt(rows.take(i as int)),
            decreases i,
        {
            proof {
                let now = rows.take(i as int);
                assert(now.last() == self.rows@[i - 1]@);
                assert(now.drop_last() =~= rows.take(i - 1));
            }
            if self.rows[i - 1].kind == LineKind::User {
                return Some(self.rows[i - 1].text.clone());
            }
            i -= 1;
        }
        None
    }

    /// Drops the message that was queued last.
    pub fn pop_pending_user(&mut self) -> (out: Option<String>)
        ensures
            old(self)@.pending_user.len() == 0 ==> out is None && final(self)@ == old(self)@,
            old(self)@.pending_user.len() > 0 ==> text_view(out) == Some(
                old(self)@.pending_user.last(),
            ) && final(self)@ == (TranscriptView {
                pending_user: old(self)@.pending_user.drop_last(),
                ..old(self)@
            }),
    {
        let ghost v = self@;
        let out = self.pending_user.pop();
        proof {
            if v.pending_user.len() > 0 {
                assert(self@.pending_user =~= v.pending_user.drop_last());
            } else {
                assert(self@.pending_user =~= v.pending_user);
            }
        }
        out
    }

    fn clear_stream(&mut self)
        ensures
            final(self)@ == old(self)@.unstreamed(),
    {
        self.streaming = String::new();
        self.wrapped_stream = Vec::new();
        self.stream_dirty = false;
        assert(self@ =~= old(self)@.unstreamed());
    }

    fn clear_selection(&mut self)
        ensures
            final(self)@ == old(self)@.unselected(),
    {
        self.select_anchor = None;
        self.select_head = None;
        self.dragging = false;
    }

    fn empty(&mut self)
        ensures
            final(self)@ == old(self)@.emptied(),
    {
        reveal(TranscriptView::emptied);
        self.rows = Vec::new();
        self.wrapped = Vec::new();
        self.clear_stream();
        self.pinned = true;
        self.top = 0;
        self.clear_selection();
        assert(self@ =~= old(self)@.emptied());
    }

    fn reset(&mut self)
        ensures
            final(self)@ == old(self)@.reset(),
    {
        self.empty();
        let ghost mid = self@;
        self.pending_user = Vec::new();
        assert(self@ =~= (TranscriptView { pending_user: Seq::empty(), ..mid }));
    }

    fn flush_streaming(&mut self)
        ensures
            final(self)@ == old(self)@.flushed(),
    {
        reveal(TranscriptView::flushed);
        let body = trim_message(self.streaming.as_str());
        self.clear_stream();
        if !body.as_str().is_empty() {
            self.push_row(self.stream_kind, body.as_str());
        }
    }

    fn flush_pending_user(&mut self)
        ensures
            final(self)@ == old(self)@.with_queued(),
    {
        reveal(TranscriptView::with_queued);
        let ghost v = self@;
        let mut texts: Vec<String> = Vec::new();
        std::mem::swap(&mut texts, &mut self.pending_user);
        let ghost base = self@;
        let ghost all = seqs::views(texts@);
        proof {
            assert(base =~= (TranscriptView { pending_user: Seq::empty(), ..v }));
            assert(all.take(0) =~= Seq::<Seq<char>>::empty());
        }
        let mut i: usize = 0;
        while i < texts.len()
            invariant
                i <= texts@.len(),
                all == seqs::views(texts@),
                self@ == base.with_users(all.take(i as int)),
            decreases texts.len() - i,
        {
            proof {
                let now = all.take(i + 1);
                assert(now.drop_last() =~= all.take(i as int));
                assert(now.last() == texts@[i as int]@);
            }
            self.push_row(LineKind::User, texts[i].as_str());
            i += 1;
        }
        assert(all.take(all.len() as int) =~= all);
    }

    /// Takes more streamed text.
    pub fn push_stream(&mut self, kind: LineKind, t: &str)
        ensures
            final(self)@ == old(self)@.streamed(kind, t@),
    {
        reveal(TranscriptView::streamed);
        if t.is_empty() {
            return ;
        }
        if !self.streaming.as_str().is_empty() && self.stream_kind != kind {
            self.flush_streaming();
        }
        self.stream_kind = kind;
        self.streaming.append(t);
        self.stream_dirty = true;
        self.keep_following();
    }

    /// Draws the streaming text anew.
    pub fn rewrap_stream(&mut self)
        ensures
            final(self)@ == old(self)@.with_stream(),
    {
        let mut lines: Vec<Line> = Vec::new();
        self.stream_dirty = false;
        if self.width == 0 || self.streaming.as_str().is_empty() {
            assert(seqs::views(lines@) =~= Seq::<Seq<style::SpanView>>::empty());
            self.wrapped_stream = lines;
            return ;
        }
        if self.wrapped.len() > 0 {
            lines.push(Line::blank());
        }
        let ghost head = seqs::views(lines@);
        wrap_row_into(&mut lines, self.stream_kind, self.streaming.as_str(), self.width);
        proof {
            assert(self@.wrapped.len() == self.wrapped@.len());
            assert(self@.wrapped.len() > 0 ==> head =~= seq![style::blank_line()]);
            assert(seqs::views(lines@) =~= self@.stream_lines());
        }
        self.wrapped_stream = lines;
    }

    fn wrap_rows(&mut self)
        ensures
            final(self)@ == (TranscriptView {
                wrapped: if old(self)@.width == 0 {
                    Seq::empty()
                } else {
                    model::drawn(old(self)@.rows, old(self)@.width)
                },
                ..old(self)@
            }),
    {
        let mut lines: Vec<Line> = Vec::new();
        let ghost rows = self@.rows;
        let n: usize = if self.width == 0 {
            0
        } else {
            self.rows.len()
        };
        let mut i: usize = 0;
        proof {
            assert(rows.take(0) =~= Seq::<RowView>::empty());
            assert(seqs::views(lines@) =~= Seq::<Seq<style::SpanView>>::empty());
        }
        while i < n
            invariant
                i <= n <= self.rows@.len(),
                rows == self@.rows,
                seqs::views(lines@) == model::drawn(rows.take(i as int), self.width),
            decreases n - i,
        {
            proof {
                let now = rows.take(i + 1);
                assert(now.drop_last() =~= rows.take(i as int));
                assert(now.last() == self.rows@[i as int]@);
            }
            push_gap(&mut lines);
            wrap_row_into(&mut lines, self.rows[i].kind, self.rows[i].text.as_str(), self.width);
            i += 1;
        }
        assert(rows.take(rows.len() as int) =~= rows);
        self.wrapped = lines;
    }

    /// Draws everything anew.
    pub fn rewrap_all(&mut self)
        ensures
            final(self)@ == old(self)@.rewrapped(),
    {
        reveal(TranscriptView::rewrapped);
        self.wrap_rows();
        self.rewrap_stream();
        self.clear_selection();
    }

    fn push_output(&mut self, mark: bool, shown: bool, output: &str)
        ensures
            final(self)@ == old(self)@.with_output(mark, shown, output@),
    {
        reveal(TranscriptView::with_output);
        let body = trim_message(output);
        if shown || !body.as_str().is_empty() {
            if body.as_str().is_empty() {
                self.push_row(LineKind::ToolResult(mark), NO_OUTPUT);
            } else {
                self.push_row(LineKind::ToolResult(mark), body.as_str());
            }
        }
    }

    fn push_answer(&mut self, t: &str)
        ensures
            final(self)@ == old(self)@.with_answer(t@),
    {
        reveal(TranscriptView::with_answer);
        let body = trim_message(t);
        if !body.as_str().is_empty() {
            self.push_row(LineKind::Text, body.as_str());
        }
    }

    fn push_block(&mut self, role: Role, block: &ContentBlock)
        ensures
            final(self)@ == old(self)@.with_block(role, *block),
    {
        reveal(TranscriptView::with_block);
        match role {
            Role::User => match block {
                ContentBlock::Text { text } => self.push_row(LineKind::User, text.as_str()),
                ContentBlock::ToolResult { content, is_error } => {
                    let t = result_text(content);
                    self.push_output(*is_error, *is_error, t.as_str());
                },
                _ => {},
            },
            Role::Tool => match block {
                ContentBlock::ToolResult { content, is_error } => {
                    let t = result_text(content);
                    self.push_output(*is_error, *is_error, t.as_str());
                },
                _ => {},
            },
            Role::Assistant => match block {
                ContentBlock::Thinking { thinking } => self.push_row(
                    LineKind::Thinking,
                    thinking.as_str(),
                ),
                ContentBlock::Text { text } => self.push_answer(text.as_str()),
                ContentBlock::ToolUse { name, input } => {
                    let t = tool_display(name.as_str(), input);
                    self.push_row(LineKind::Tool, t.as_str());
                },
                _ => {},
            },
            Role::System => {},
        }
    }

    fn push_blocks(&mut self, role: Role, blocks: &Vec<ContentBlock>)
        ensures
            final(self)@ == old(self)@.with_blocks(role, blocks@),
    {
        let ghost v = self@;
        let mut i: usize = 0;
        assert(blocks@.take(0) =~= Seq::<ContentBlock>::empty());
        while i < blocks.len()
            invariant
                i <= blocks@.len(),
                self@ == v.with_blocks(role, blocks@.take(i as int)),
            decreases blocks.len() - i,
        {
            proof {
                let now = blocks@.take(i + 1);
                assert(now.drop_last() =~= blocks@.take(i as int));
                assert(now.last() == blocks@[i as int]);
            }
            self.push_block(role, &blocks[i]);
            i += 1;
        }
        assert(blocks@.take(blocks@.len() as int) =~= blocks@);
    }

    /// Fills the transcript from the messages of a session. Images are skipped.
    pub fn seed(&mut self, messages: &Vec<Message>)
        ensures
            final(self)@ == old(self)@.seeded(messages@),
    {
        let ghost v = self@;
        let mut i: usize = 0;
        assert(messages@.take(0) =~= Seq::<Message>::empty());
        while i < messages.len()
            invariant
                i <= messages@.len(),
                self@ == v.seeded(messages@.take(i as int)),
            decreases messages.len() - i,
        {
            proof {
                let now = messages@.take(i + 1);
                assert(now.drop_last() =~= messages@.take(i as int));
                assert(now.last() == messages@[i as int]);
            }
            self.push_blocks(messages[i].role, &messages[i].content);
            i += 1;
        }
        assert(messages@.take(messages@.len() as int) =~= messages@);
    }

    /// Rebuilds the transcript from the messages of a session, say after a
    /// rewind. Queued messages stay, and the view follows the newest content.
    pub fn replace_from(&mut self, messages: &Vec<Message>)
        ensures
            final(self)@ == old(self)@.replaced(messages@),
    {
        self.empty();
        self.seed(messages);
    }

    fn cancel(&mut self)
        ensures
            final(self)@ == old(self)@.cancelled(),
    {
        reveal(TranscriptView::cancelled);
        if !self.streaming.as_str().is_empty() {
            let mut partial = trim_message(self.streaming.as_str());
            self.clear_stream();
            if !partial.as_str().is_empty() {
                partial.append("…");
                self.push_row(self.stream_kind, partial.as_str());
            }
        }
        self.push_row(LineKind::System, "cancelled");
    }

    fn finish(&mut self, t: &str)
        ensures
            final(self)@ == old(self)@.finished(t@),
    {
        reveal(TranscriptView::finished);
        if self.stream_kind == LineKind::Text {
            self.clear_stream();
        } else {
            self.flush_streaming();
        }
        self.push_answer(t);
    }

    fn on_agent_event(&mut self, ev: &AgentEvent)
        ensures
            final(self)@ == old(self)@.after_agent(*ev),
    {
        match ev {
            AgentEvent::ThinkingDelta { text } => self.push_stream(
                LineKind::Thinking,
                text.as_str(),
            ),
            AgentEvent::TextDelta { text } => self.push_stream(LineKind::Text, text.as_str()),
            AgentEvent::ToolStart { name, input } => {
                self.flush_streaming();
                let t = tool_display(name.as_str(), input);
                self.push_row(LineKind::Tool, t.as_str());
            },
            AgentEvent::ToolEnd { ok, output } => {
                self.push_output(*ok, !*ok, output.as_str());
                self.flush_pending_user();
            },
            AgentEvent::Done { text, .. } => self.finish(text.as_str()),
            AgentEvent::Cancelled => self.cancel(),
            AgentEvent::HistoryCleared => self.reset(),
            _ => {},
        }
    }

    /// Takes an event of the session.
    pub fn on_event(&mut self, ev: &AppEvent)
        ensures
            final(self)@ == old(self)@.after(*ev),
    {
        match ev {
            AppEvent::Agent { event } => self.on_agent_event(event),
            AppEvent::Rewound { messages, .. } => self.replace_from(messages),
            AppEvent::Idle => {
                self.flush_streaming();
                self.flush_pending_user();
            },
            AppEvent::Error { message } => {
                self.flush_streaming();
                self.push_row(LineKind::Error, message.as_str());
            },
            _ => {},
        }
    }

    fn line_at(&self, idx: usize) -> (line: Option<&Line>)
        ensures
            match line {
                Some(l) => idx < self@.lines().len() && l@ == self@.lines()[idx as int],
                None => idx >= self@.lines().len(),
            },
    {
        let n: usize = self.wrapped.len();
        if idx < n {
            Some(&self.wrapped[idx])
        } else if idx - n < self.wrapped_stream.len() {
            Some(&self.wrapped_stream[idx - n])
        } else {
            None
        }
    }

    /// The position in the lines that a cell of the screen shows.
    pub fn pos_at(&self, column: u16, row: u16) -> (pos: SelPos)
        ensures
            pos == self@.pos_at(column, row),
    {
        let total: usize = self.total_lines();
        if total == 0 {
            return SelPos { line: 0, col: 0 };
        }
        let top: usize = self.current_top();
        let height: usize = if self.area.height == 0 {
            1
        } else {
            self.area.height as usize
        };
        let below: usize = row.saturating_sub(self.area.y) as usize;
        let rel_y: usize = if below < height {
            below
        } else {
            height - 1
        };
        let raw: usize = top.saturating_add(rel_y);
        let last: usize = total - 1;
        let line: usize = if raw <= last {
            raw
        } else {
            last
        };
        let w: usize = match self.line_at(line) {
            Some(l) => line_display_width(l),
            None => 0,
        };
        let rel_x: usize = column.saturating_sub(self.area.x) as usize;
        let col: usize = if raw > last || rel_x > w {
            w
        } else {
            rel_x
        };
        SelPos { line, col }
    }

    fn normalized_sel(&self) -> (sel: Option<(SelPos, SelPos)>)
        ensures
            sel == self@.selection(),
    {
        match (self.select_anchor, self.select_head) {
            (Some(a), Some(b)) => if a == b {
                None
            } else if a.le(b) {
                Some((a, b))
            } else {
                Some((b, a))
            },
            _ => None,
        }
    }

    proof fn lemma_nothing_behind(&self, start: SelPos, end: SelPos, from: nat, to: nat)
        requires
            self@.lines().len() <= from <= to,
        ensures
            self@.text_between(start, end, from) == self@.text_between(start, end, to),
        decreases to - from,
    {
        if from < to {
            self.lemma_nothing_behind(start, end, from, (to - 1) as nat);
        }
    }

    /// The selected text, where there is any.
    pub fn selected_text(&self) -> (out: Option<String>)
        ensures
            text_view(out) == self@.selected(),
    {
        let (start, end) = match self.normalized_sel() {
            Some(pair) => pair,
            None => {
                return None;
            },
        };
        let mut out = String::new();
        let mut idx: usize = start.line;
        let mut more = start.line <= end.line;
        let ghost v = self@;
        assert(more);
        while more
            invariant
                v == self@,
                start.line <= idx <= end.line,
                more ==> out@ == v.text_between(start, end, idx as nat),
                !more ==> out@ == v.text_between(start, end, end.line as nat + 1),
            decreases end.line - idx + (if more {
                1int
            } else {
                0int
            }),
        {
            match self.line_at(idx) {
                None => {
                    more = false;
                    proof {
                        self.lemma_nothing_behind(start, end, idx as nat, end.line as nat + 1);
                    }
                },
                Some(line) => {
                    let from: usize = if idx == start.line {
                        start.col
                    } else {
                        0
                    };
                    let to: usize = if idx == end.line {
                        end.col
                    } else {
                        line_display_width(line)
                    };
                    let ghost before = out@;
                    if idx > start.line {
                        out.push('\n');
                    }
                    let part = extract_line_range(line, from, to);
                    out.append(part.as_str());
                    proof {
                        let sep = if idx > start.line {
                            seq!['\n']
                        } else {
                            Seq::<char>::empty()
                        };
                        assert(out@ =~= before + sep + part@);
                        assert(out@ == v.text_between(start, end, idx as nat + 1));
                    }
                    if idx == end.line {
                        more = false;
                    } else {
                        idx += 1;
                    }
                },
            }
        }
        if out.as_str().is_empty() {
            None
        } else {
            Some(out)
        }
    }

    fn begin_selection(&mut self, column: u16, row: u16)
        ensures
            final(self)@ == old(self)@.with_selection_begun(column, row),
    {
        if self.total_lines() == 0 {
            self.clear_selection();
            return ;
        }
        let pos = self.pos_at(column, row);
        self.select_anchor = Some(pos);
        self.select_head = Some(pos);
        self.dragging = true;
    }

    fn update_selection(&mut self, column: u16, row: u16)
        ensures
            final(self)@ == old(self)@.with_selection_at(column, row),
    {
        if self.total_lines() == 0 {
            return ;
        }
        self.select_head = Some(self.pos_at(column, row));
    }

    fn end_selection(&mut self, clipboard: bool) -> (copied: bool)
        ensures
            final(self)@ == old(self)@.with_selection_ended(clipboard),
            copied == old(self)@.copies(clipboard),
    {
        if self.selected_text().is_some() && clipboard {
            self.dragging = false;
            true
        } else {
            self.clear_selection();
            false
        }
    }

    /// The text that the clipboard should take when the mouse event ends a
    /// selection.
    pub fn copy_request(&mut self, mouse: &MouseEvent) -> (out: Option<String>)
        ensures
            final(self)@ == old(self)@.before_copy(*mouse),
            text_view(out) == old(self)@.wanted_copy(*mouse),
    {
        match mouse.kind {
            MouseEventKind::Up(MouseButton::Left) => {
                if !self.dragging {
                    return None;
                }
                self.update_selection(mouse.column, mouse.row);
                self.selected_text()
            },
            _ => None,
        }
    }

    /// Reacts to the mouse. `clipboard` says whether the clipboard took the text
    /// that `copy_request` asked for.
    pub fn handle_mouse(&mut self, mouse: &MouseEvent, clipboard: bool) -> (result: KeyResult)
        ensures
            final(self)@ == old(self)@.after_mouse(*mouse, clipboard),
            result@ == old(self)@.mouse_answer(*mouse, clipboard),
    {
        let inside = self.area.contains(mouse.column, mouse.row);
        match mouse.kind {
            MouseEventKind::ScrollUp => {
                if !inside {
                    return KeyResult::Ignored;
                }
                self.scroll_up(MOUSE_SCROLL_STEP);
                KeyResult::Handled
            },
            MouseEventKind::ScrollDown => {
                if !inside {
                    return KeyResult::Ignored;
                }
                self.scroll_down(MOUSE_SCROLL_STEP);
                KeyResult::Handled
            },
            MouseEventKind::Down(MouseButton::Left) => {
                if !inside {
                    return KeyResult::Ignored;
                }
                self.begin_selection(mouse.column, mouse.row);
                KeyResult::Handled
            },
            MouseEventKind::Drag(MouseButton::Left) | MouseEventKind::Moved => {
                if !self.dragging {
                    return KeyResult::Ignored;
                }
                self.update_selection(mouse.column, mouse.row);
                KeyResult::Handled
            },
            MouseEventKind::Up(MouseButton::Left) => {
                if !self.dragging {
                    return KeyResult::Ignored;
                }
                self.update_selection(mouse.column, mouse.row);
                if self.end_selection(clipboard) {
                    KeyResult::Action(Action::Notify("Copied!".to_owned()))
                } else {
                    KeyResult::Handled
                }
            },
            _ => KeyResult::Ignored,
        }
    }

    /// Scrolls by a line up or down.
    pub fn handle_key(&mut self, key: &KeyEvent) -> (result: KeyResult)
        ensures
            match key.code {
                KeyCode::PageUp => result@ == component::KeyResultView::Handled && final(self)@
                    == old(self)@.scrolled_up(1),
                KeyCode::PageDown => result@ == component::KeyResultView::Handled && final(self)@
                    == old(self)@.scrolled_down(1),
                _ => result@ == component::KeyResultView::Ignored && final(self)@ == old(self)@,
            },
    {
        match key.code {
            KeyCode::PageUp => {
                self.scroll_up(1);
                KeyResult::Handled
            },
            KeyCode::PageDown => {
                self.scroll_down(1);
                KeyResult::Handled
            },
            _ => KeyResult::Ignored,
        }
    }

    /// Lays the transcript out for an area of the screen.
    pub fn lay_out(&mut self, area: Rect)
        ensures
            final(self)@ == old(self)@.laid_out(area),
    {
        reveal(TranscriptView::laid_out);
        reveal(TranscriptView::rewrapped);
        self.area = area;
        let width: usize = area.width as usize;
        if width != self.width {
            self.width = width;
            self.rewrap_all();
        } else if self.stream_dirty {
            self.rewrap_stream();
        }
        let height: usize = area.height as usize;
        self.view_height = height;
        if !self.pinned {
            let total: usize = self.total_lines();
            let max_top: usize = total.saturating_sub(height);
            if self.top > max_top {
                self.top = max_top;
            }
            if self.top.saturating_add(height) >= total {
                self.pinned = true;
            }
        }
    }

    /// The lines on the screen, with what is selected marked.
    pub fn screen_lines(&self) -> (out: Vec<Line>)
        ensures
            seqs::views(out@) == self@.screen(),
    {
        let total: usize = self.total_lines();
        let top: usize = self.current_top();
        let start: usize = if top <= total {
            top
        } else {
            total
        };
        let wanted: usize = start.saturating_add(self.view_height);
        let end: usize = if wanted <= total {
            wanted
        } else {
            total
        };
        assert(start == self@.first_line() && end == self@.end_line());
        let sel = self.normalized_sel();
        let mut out: Vec<Line> = Vec::new();
        let ghost made = self@.screen();
        let mut idx: usize = start;
        assert(seqs::views(out@) =~= made.take(0));
        while idx < end
            invariant
                start <= idx <= end,
                start == self@.first_line(),
                end == self@.end_line(),
                end <= self@.lines().len(),
                sel == self@.selection(),
                made == self@.screen(),
                seqs::views(out@) == made.take(idx - start),
            decreases end - idx,
        {
            let mut line = match self.line_at(idx) {
                Some(l) => l.copy(),
                None => Line::blank(),
            };
            if let Some((first, last)) = sel {
                if first.line <= idx && idx <= last.line {
                    let from: usize = if idx == first.line {
                        first.col
                    } else {
                        0
                    };
                    let to: usize = if idx == last.line {
                        last.col
                    } else {
                        line_display_width(&line)
                    };
                    line = highlight_line(&line, from, to);
                }
            }
            proof {
                assert(line@ == self@.screen_line(idx as nat));
                assert(made[idx - start] == line@);
                assert(made.take(idx - start + 1) =~= made.take(idx - start).push(line@));
            }
            out.push(line);
            idx += 1;
        }
        assert(made.take(made.len() as int) =~= made);
        out
    }
}

} // verus!
