//! The transcript as a mathematical value, and what each step makes of it.
use vstd::prelude::*;

use super::kinds::LineKind;
use super::selection;
use super::wrap;
use crate::components::component;
use crate::components::transcript::selection::SelPos;
use crate::components::transcript::wrap as framed;
use crate::keys::{MouseButton, MouseEvent, MouseEventKind};
use crate::style::Rect;
use crate::style;
use crate::text;
use crate::ui::event;
use crate::ui::event::{AgentEvent, AppEvent, ContentBlock, Message};
use crate::components::event::Role;

verus! {

/// Lines that one notch of the mouse wheel scrolls by.
pub const MOUSE_SCROLL_STEP: u16 = 3;

/// What is shown for a call without output.
pub const NO_OUTPUT: &'static str = "(no output)";

/// A row of the transcript.
#[verifier::ext_equal]
pub struct RowView {
    pub kind: LineKind,
    pub text: Seq<char>,
}

/// The transcript.
#[verifier::ext_equal]
pub struct TranscriptView {
    pub rows: Seq<RowView>,
    pub wrapped: Seq<Seq<style::SpanView>>,
    pub streaming: Seq<char>,
    pub stream_kind: LineKind,
    pub wrapped_stream: Seq<Seq<style::SpanView>>,
    pub stream_dirty: bool,
    pub pending_user: Seq<Seq<char>>,
    pub width: usize,
    pub pinned: bool,
    pub top: usize,
    pub view_height: usize,
    pub area: Rect,
    pub select_anchor: Option<SelPos>,
    pub select_head: Option<SelPos>,
    pub dragging: bool,
}

/// A transcript without anything, that was never drawn.
pub open spec fn fresh_transcript() -> TranscriptView {
    TranscriptView {
        rows: Seq::empty(),
        wrapped: Seq::empty(),
        streaming: Seq::empty(),
        stream_kind: LineKind::Text,
        wrapped_stream: Seq::empty(),
        stream_dirty: false,
        pending_user: Seq::empty(),
        width: 0,
        pinned: true,
        top: 0,
        view_height: 0,
        area: Rect { x: 0, y: 0, width: 0, height: 0 },
        select_anchor: None,
        select_head: None,
        dragging: false,
    }
}

/// The texts of the text blocks.
pub open spec fn result_texts(content: Seq<ContentBlock>) -> Seq<Seq<char>>
    decreases content.len(),
{
    if content.len() == 0 {
        Seq::empty()
    } else {
        match content.last() {
            ContentBlock::Text { text } => result_texts(content.drop_last()).push(text@),
            _ => result_texts(content.drop_last()),
        }
    }
}

/// The text of the last row from behind that the user wrote.
pub open spec fn last_prompt(rows: Seq<RowView>) -> Option<Seq<char>>
    decreases rows.len(),
{
    if rows.len() == 0 {
        None
    } else if rows.last().kind == LineKind::User {
        Some(rows.last().text)
    } else {
        last_prompt(rows.drop_last())
    }
}

/// What the rows are drawn as.
pub open spec fn drawn(rows: Seq<RowView>, width: usize) -> Seq<Seq<style::SpanView>>
    decreases rows.len(),
{
    if rows.len() == 0 {
        Seq::empty()
    } else {
        framed::gapped(drawn(rows.drop_last(), width)) + wrap::row_lines(
            rows.last().kind,
            rows.last().text,
            width,
        )
    }
}

impl TranscriptView {
    /// All lines, those of the stream last.
    pub open spec fn lines(self) -> Seq<Seq<style::SpanView>> {
        self.wrapped + self.wrapped_stream
    }

    /// How many lines there are.
    pub open spec fn total(self) -> nat {
        framed::capped_sum(self.wrapped.len(), self.wrapped_stream.len())
    }

    /// The first line of a view of the newest content.
    pub open spec fn bottom(self) -> nat {
        framed::less(self.total(), self.view_height as nat)
    }

    /// The first line that the view shows.
    pub open spec fn current_top(self) -> nat {
        if self.pinned {
            self.bottom()
        } else {
            self.top as nat
        }
    }

    /// A pinned view moved to the newest content; one that was scrolled up stays
    /// where it is.
    pub open spec fn following(self) -> Self {
        if self.pinned {
            TranscriptView { top: self.bottom() as usize, ..self }
        } else {
            self
        }
    }

    /// With a row behind the others.
    #[verifier::opaque]
    pub open spec fn with_row(self, kind: LineKind, t: Seq<char>) -> Self {
        let kept = wrap::kept_text(kind, t);
        TranscriptView {
            rows: self.rows.push(RowView { kind, text: kept }),
            wrapped: if self.width == 0 {
                self.wrapped
            } else {
                framed::gapped(self.wrapped) + wrap::row_lines(kind, kept, self.width)
            },
            ..self
        }.following()
    }

    /// Without the text that is still streaming.
    pub open spec fn unstreamed(self) -> Self {
        TranscriptView {
            streaming: Seq::empty(),
            wrapped_stream: Seq::empty(),
            stream_dirty: false,
            ..self
        }
    }

    /// With the streamed text as a row of its own.
    #[verifier::opaque]
    pub open spec fn flushed(self) -> Self {
        let body = framed::message_text(self.streaming);
        if body.len() == 0 {
            self.unstreamed()
        } else {
            self.unstreamed().with_row(self.stream_kind, body)
        }
    }

    /// With the given texts as rows that the user wrote.
    pub open spec fn with_users(self, texts: Seq<Seq<char>>) -> Self
        decreases texts.len(),
    {
        if texts.len() == 0 {
            self
        } else {
            self.with_users(texts.drop_last()).with_row(LineKind::User, texts.last())
        }
    }

    /// With the queued messages behind everything else.
    #[verifier::opaque]
    pub open spec fn with_queued(self) -> Self {
        TranscriptView { pending_user: Seq::empty(), ..self }.with_users(self.pending_user)
    }

    /// With more streamed text: text of another kind finishes what streamed
    /// before.
    #[verifier::opaque]
    pub open spec fn streamed(self, kind: LineKind, t: Seq<char>) -> Self {
        if t.len() == 0 {
            self
        } else {
            let next = if self.streaming.len() > 0 && self.stream_kind != kind {
                self.flushed()
            } else {
                self
            };
            TranscriptView {
                stream_kind: kind,
                streaming: next.streaming + t,
                stream_dirty: true,
                ..next
            }.following()
        }
    }

    /// What the streaming text is drawn as.
    pub open spec fn stream_lines(self) -> Seq<Seq<style::SpanView>> {
        if self.width == 0 || self.streaming.len() == 0 {
            Seq::empty()
        } else {
            let lines = wrap::row_lines(self.stream_kind, self.streaming, self.width);
            if self.wrapped.len() > 0 {
                seq![style::blank_line()] + lines
            } else {
                lines
            }
        }
    }

    /// With the streaming text drawn anew.
    pub open spec fn with_stream(self) -> Self {
        TranscriptView { wrapped_stream: self.stream_lines(), stream_dirty: false, ..self }
    }

    /// Without a selection.
    pub open spec fn unselected(self) -> Self {
        TranscriptView { select_anchor: None, select_head: None, dragging: false, ..self }
    }

    /// With everything drawn anew, and without a selection.
    #[verifier::opaque]
    pub open spec fn rewrapped(self) -> Self {
        TranscriptView {
            wrapped: if self.width == 0 {
                Seq::empty()
            } else {
                drawn(self.rows, self.width)
            },
            ..self
        }.with_stream().unselected()
    }

    /// Without rows and streamed text, the view at the newest content.
    #[verifier::opaque]
    pub open spec fn emptied(self) -> Self {
        TranscriptView {
            rows: Seq::empty(),
            wrapped: Seq::empty(),
            pinned: true,
            top: 0,
            ..self
        }.unstreamed().unselected()
    }

    /// Without anything, queued messages included.
    pub open spec fn reset(self) -> Self {
        TranscriptView { pending_user: Seq::empty(), ..self.emptied() }
    }

    /// With a tool's output: an empty one is shown only where the call failed.
    #[verifier::opaque]
    pub open spec fn with_output(self, mark: bool, shown: bool, output: Seq<char>) -> Self {
        let body = framed::message_text(output);
        if shown || body.len() > 0 {
            self.with_row(
                LineKind::ToolResult(mark),
                if body.len() == 0 {
                    NO_OUTPUT@
                } else {
                    body
                },
            )
        } else {
            self
        }
    }

    /// With an answer of the assistant, unless it is empty.
    #[verifier::opaque]
    pub open spec fn with_answer(self, t: Seq<char>) -> Self {
        let body = framed::message_text(t);
        if body.len() > 0 {
            self.with_row(LineKind::Text, body)
        } else {
            self
        }
    }

    /// With a piece of a message of the history.
    #[verifier::opaque]
    pub open spec fn with_block(self, role: Role, block: ContentBlock) -> Self {
        match block {
            ContentBlock::Text { text } => match role {
                Role::User => self.with_row(LineKind::User, text@),
                Role::Assistant => self.with_answer(text@),
                _ => self,
            },
            ContentBlock::Thinking { thinking } => if role is Assistant {
                self.with_row(LineKind::Thinking, thinking@)
            } else {
                self
            },
            ContentBlock::ToolUse { name, input } => if role is Assistant {
                self.with_row(
                    LineKind::Tool,
                    event::call_text(name@, event::command_of(input)),
                )
            } else {
                self
            },
            ContentBlock::ToolResult { content, is_error } => if role is User || role is Tool {
                self.with_output(
                    is_error,
                    is_error,
                    text::joined(result_texts(content@), "\n"@),
                )
            } else {
                self
            },
            ContentBlock::Image => self,
        }
    }

    /// With the pieces of a message of the history.
    pub open spec fn with_blocks(self, role: Role, blocks: Seq<ContentBlock>) -> Self
        decreases blocks.len(),
    {
        if blocks.len() == 0 {
            self
        } else {
            self.with_blocks(role, blocks.drop_last()).with_block(role, blocks.last())
        }
    }

    /// With the messages of a history.
    pub open spec fn seeded(self, messages: Seq<Message>) -> Self
        decreases messages.len(),
    {
        if messages.len() == 0 {
            self
        } else {
            self.seeded(messages.drop_last()).with_blocks(
                messages.last().role,
                messages.last().content@,
            )
        }
    }

    /// With the messages of a history in place of what there is; queued messages
    /// stay.
    pub open spec fn replaced(self, messages: Seq<Message>) -> Self {
        self.emptied().seeded(messages)
    }

    /// After the turn was cancelled: what streamed stays, with an ellipsis.
    #[verifier::opaque]
    pub open spec fn cancelled(self) -> Self {
        let partial = framed::message_text(self.streaming);
        let next = if self.streaming.len() == 0 {
            self
        } else if partial.len() == 0 {
            self.unstreamed()
        } else {
            self.unstreamed().with_row(self.stream_kind, partial + "…"@)
        };
        next.with_row(LineKind::System, "cancelled"@)
    }

    /// After the turn was done: the final text replaces what streamed of it.
    #[verifier::opaque]
    pub open spec fn finished(self, t: Seq<char>) -> Self {
        let next = if self.stream_kind == LineKind::Text {
            self.unstreamed()
        } else {
            self.flushed()
        };
        next.with_answer(t)
    }

    /// After an event of the agent.
    pub open spec fn after_agent(self, ev: AgentEvent) -> Self {
        match ev {
            AgentEvent::ThinkingDelta { text } => self.streamed(LineKind::Thinking, text@),
            AgentEvent::TextDelta { text } => self.streamed(LineKind::Text, text@),
            AgentEvent::ToolStart { name, input } => self.flushed().with_row(
                LineKind::Tool,
                event::call_text(name@, event::command_of(input)),
            ),
            AgentEvent::ToolEnd { ok, output } => self.with_output(ok, !ok, output@).with_queued(),
            AgentEvent::Done { text, .. } => self.finished(text@),
            AgentEvent::Cancelled => self.cancelled(),
            AgentEvent::HistoryCleared => self.reset(),
            _ => self,
        }
    }

    /// After an event of the session.
    pub open spec fn after(self, ev: AppEvent) -> Self {
        match ev {
            AppEvent::Agent { event } => self.after_agent(event),
            AppEvent::Rewound { messages, .. } => self.replaced(messages@),
            AppEvent::Idle => self.flushed().with_queued(),
            AppEvent::Error { message } => self.flushed().with_row(LineKind::Error, message@),
            _ => self,
        }
    }

    /// Scrolled up by `n` lines.
    pub open spec fn scrolled_up(self, n: u16) -> Self {
        TranscriptView {
            top: framed::less(self.current_top(), n as nat) as usize,
            pinned: false,
            ..self
        }
    }

    /// Scrolled down by `n` lines; at the bottom the view follows again.
    pub open spec fn scrolled_down(self, n: u16) -> Self {
        let height = if self.view_height == 0 {
            1nat
        } else {
            self.view_height as nat
        };
        let max_top = framed::less(self.total(), height);
        let top = if self.current_top() + n <= max_top {
            self.current_top() + n as nat
        } else {
            max_top
        };
        TranscriptView { top: top as usize, pinned: top + height >= self.total(), ..self }
    }

    /// Laid out for an area of the screen.
    #[verifier::opaque]
    pub open spec fn laid_out(self, area: Rect) -> Self {
        let moved = TranscriptView { area, ..self };
        let wrapped = if area.width as usize != self.width {
            TranscriptView { width: area.width as usize, ..moved }.rewrapped()
        } else if self.stream_dirty {
            moved.with_stream()
        } else {
            moved
        };
        let next = TranscriptView { view_height: area.height as usize, ..wrapped };
        if next.pinned {
            next
        } else {
            let top = if next.top <= next.bottom() {
                next.top as nat
            } else {
                next.bottom()
            };
            TranscriptView { top: top as usize, pinned: top + area.height >= next.total(), ..next }
        }
    }

    /// The columns of a line, none where there is no such line.
    pub open spec fn width_at(self, idx: nat) -> nat {
        if idx < self.lines().len() {
            framed::line_cols(self.lines()[idx as int])
        } else {
            0
        }
    }

    /// The position in the lines that a cell of the screen shows.
    pub open spec fn pos_at(self, column: u16, row: u16) -> SelPos {
        if self.total() == 0 {
            SelPos { line: 0, col: 0 }
        } else {
            let height = if self.area.height == 0 {
                1nat
            } else {
                self.area.height as nat
            };
            let below = framed::less(row as nat, self.area.y as nat);
            let rel_y = if below < height {
                below
            } else {
                (height - 1) as nat
            };
            let raw = framed::capped_sum(self.current_top(), rel_y);
            let last = (self.total() - 1) as nat;
            let line = if raw <= last {
                raw
            } else {
                last
            };
            let w = self.width_at(line);
            let rel_x = framed::less(column as nat, self.area.x as nat);
            SelPos {
                line: line as usize,
                col: if raw > last || rel_x > w {
                    w as usize
                } else {
                    rel_x as usize
                },
            }
        }
    }

    /// The ends of the selection in order, where it is not empty.
    pub open spec fn selection(self) -> Option<(SelPos, SelPos)> {
        match (self.select_anchor, self.select_head) {
            (Some(a), Some(b)) => if a == b {
                None
            } else if a.at_most(b) {
                Some((a, b))
            } else {
                Some((b, a))
            },
            _ => None,
        }
    }

    /// The selected part of a line.
    pub open spec fn selected_in(self, start: SelPos, end: SelPos, idx: nat) -> Seq<char> {
        let line = self.lines()[idx as int];
        selection::extracted(
            line,
            if idx == start.line {
                start.col as nat
            } else {
                0
            },
            if idx == end.line {
                end.col as nat
            } else {
                framed::line_cols(line)
            },
        )
    }

    /// The selected text of the lines before `idx`.
    pub open spec fn text_between(self, start: SelPos, end: SelPos, idx: nat) -> Seq<char>
        decreases idx,
    {
        if idx <= start.line {
            Seq::empty()
        } else {
            let i = (idx - 1) as nat;
            let before = self.text_between(start, end, i);
            if i >= self.lines().len() {
                before
            } else {
                before + (if i > start.line {
                    seq!['\n']
                } else {
                    Seq::empty()
                }) + self.selected_in(start, end, i)
            }
        }
    }

    /// The selected text, where there is any.
    pub open spec fn selected(self) -> Option<Seq<char>> {
        match self.selection() {
            Some((start, end)) => {
                let t = self.text_between(start, end, end.line as nat + 1);
                if t.len() == 0 {
                    None
                } else {
                    Some(t)
                }
            },
            None => None,
        }
    }

    /// With a selection that begins at a cell of the screen.
    pub open spec fn with_selection_begun(self, column: u16, row: u16) -> Self {
        if self.total() == 0 {
            self.unselected()
        } else {
            let pos = self.pos_at(column, row);
            TranscriptView {
                select_anchor: Some(pos),
                select_head: Some(pos),
                dragging: true,
                ..self
            }
        }
    }

    /// With the selection drawn out to a cell of the screen.
    pub open spec fn with_selection_at(self, column: u16, row: u16) -> Self {
        if self.total() == 0 {
            self
        } else {
            TranscriptView { select_head: Some(self.pos_at(column, row)), ..self }
        }
    }

    /// Whether a mouse event ends a selection.
    pub open spec fn releases(self, mouse: MouseEvent) -> bool {
        mouse.kind == MouseEventKind::Up(MouseButton::Left) && self.dragging
    }

    /// What a mouse event makes of the selection before anything is copied.
    pub open spec fn before_copy(self, mouse: MouseEvent) -> Self {
        if self.releases(mouse) {
            self.with_selection_at(mouse.column, mouse.row)
        } else {
            self
        }
    }

    /// The text that a mouse event wants copied.
    pub open spec fn wanted_copy(self, mouse: MouseEvent) -> Option<Seq<char>> {
        if self.releases(mouse) {
            self.before_copy(mouse).selected()
        } else {
            None
        }
    }

    /// Whether the selection is copied when it ends; `clipboard` says whether
    /// the clipboard took the text.
    pub open spec fn copies(self, clipboard: bool) -> bool {
        self.selected() is Some && clipboard
    }

    /// With the selection ended: it stays where it was copied.
    pub open spec fn with_selection_ended(self, clipboard: bool) -> Self {
        if self.copies(clipboard) {
            TranscriptView { dragging: false, ..self }
        } else {
            self.unselected()
        }
    }

    /// After a mouse event.
    pub open spec fn after_mouse(self, mouse: MouseEvent, clipboard: bool) -> Self {
        let inside = self.area.holds(mouse.column, mouse.row);
        match mouse.kind {
            MouseEventKind::ScrollUp => if inside {
                self.scrolled_up(MOUSE_SCROLL_STEP)
            } else {
                self
            },
            MouseEventKind::ScrollDown => if inside {
                self.scrolled_down(MOUSE_SCROLL_STEP)
            } else {
                self
            },
            MouseEventKind::Down(MouseButton::Left) => if inside {
                self.with_selection_begun(mouse.column, mouse.row)
            } else {
                self
            },
            MouseEventKind::Drag(MouseButton::Left) | MouseEventKind::Moved => if self.dragging {
                self.with_selection_at(mouse.column, mouse.row)
            } else {
                self
            },
            MouseEventKind::Up(MouseButton::Left) => if self.dragging {
                self.with_selection_at(mouse.column, mouse.row).with_selection_ended(clipboard)
            } else {
                self
            },
            _ => self,
        }
    }

    /// What a mouse event comes to.
    pub open spec fn mouse_answer(self, mouse: MouseEvent, clipboard: bool) ->
        component::KeyResultView {
        let inside = self.area.holds(mouse.column, mouse.row);
        match mouse.kind {
            MouseEventKind::ScrollUp
            | MouseEventKind::ScrollDown
            | MouseEventKind::Down(MouseButton::Left) => if inside {
                component::KeyResultView::Handled
            } else {
                component::KeyResultView::Ignored
            },
            MouseEventKind::Drag(MouseButton::Left) | MouseEventKind::Moved => if self.dragging {
                component::KeyResultView::Handled
            } else {
                component::KeyResultView::Ignored
            },
            MouseEventKind::Up(MouseButton::Left) => if !self.dragging {
                component::KeyResultView::Ignored
            } else if self.with_selection_at(mouse.column, mouse.row).copies(clipboard) {
                component::KeyResultView::Action(component::ActionView::Notify("Copied!"@))
            } else {
                component::KeyResultView::Handled
            },
            _ => component::KeyResultView::Ignored,
        }
    }

    /// The first line on the screen.
    pub open spec fn first_line(self) -> nat {
        if self.current_top() <= self.total() {
            self.current_top()
        } else {
            self.total()
        }
    }

    /// Behind the last line on the screen.
    pub open spec fn end_line(self) -> nat {
        if self.first_line() + self.view_height <= self.total() {
            (self.first_line() + self.view_height) as nat
        } else {
            self.total()
        }
    }

    /// A line as the screen shows it, with what is selected marked.
    pub open spec fn screen_line(self, idx: nat) -> Seq<style::SpanView> {
        let line = self.lines()[idx as int];
        match self.selection() {
            Some((start, end)) => if start.line <= idx <= end.line {
                selection::highlighted(
                    line,
                    if idx == start.line {
                        start.col as nat
                    } else {
                        0
                    },
                    if idx == end.line {
                        end.col as nat
                    } else {
                        framed::line_cols(line)
                    },
                )
            } else {
                line
            },
            None => line,
        }
    }

    /// The lines on the screen.
    pub open spec fn screen(self) -> Seq<Seq<style::SpanView>> {
        Seq::new(
            (self.end_line() - self.first_line()) as nat,
            |i: int| self.screen_line((self.first_line() + i) as nat),
        )
    }

    /// Whether the lines of the rows are up to date with the rows.
    pub open spec fn is_current(self) -> bool {
        self.wrapped == (if self.width == 0 {
            Seq::<Seq<style::SpanView>>::empty()
        } else {
            drawn(self.rows, self.width)
        })
    }
}

} // verus!
