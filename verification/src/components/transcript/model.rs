//! The transcript as a mathematical value, and what each step makes of it.
use vstd::prelude::*;

use super::super::event;
use super::super::event::{
    AgentEvent, AppEvent, ContentBlock, Message, Role, ShellEvent, ToolResult, ToolView,
};
use super::super::theme;
use super::collapsible;
use super::kinds;
use super::kinds::LineKind;
use super::selection;
use super::selection::SelPos;
use super::tools;
use super::wrap;
use crate::keys::{MouseButton, MouseEvent, MouseEventKind};
use crate::style;
use crate::style::Rect;
use crate::text;

verus! {

/// A row of the transcript: what it shows, the body that folds away under it,
/// and the wrapped lines that fold and unfold it.
#[verifier::ext_equal]
pub struct RowView {
    pub kind: LineKind,
    pub text: Seq<char>,
    pub collapsible: Option<collapsible::CollapsibleView>,
    pub headers: Seq<kinds::HeaderView>,
}

/// The transcript.
#[verifier::ext_equal]
pub struct TranscriptView {
    pub rows: Seq<RowView>,
    pub wrapped: Seq<Seq<style::SpanView>>,
    pub streaming: Seq<char>,
    pub stream_kind: LineKind,
    pub wrapped_stream: Seq<Seq<style::SpanView>>,
    /// None follows newest content; Some is an anchored wrapped-line index.
    pub top: Option<usize>,
    pub area: Rect,
    pub select_anchor: Option<SelPos>,
    pub select_head: Option<SelPos>,
    pub dragging: bool,
    pub hovered: Option<kinds::HeaderView>,
    pub last_click: Option<(kinds::HeaderView, u64)>,
    pub tool_burst: tools::BurstView,
    pub burst_row: Option<usize>,
    pub detail_ids: Map<Seq<char>, bool>,
    pub thinking_row: Option<usize>,
}

/// A history that does not say how long the reasoning took.
pub open spec fn untimed(messages: Seq<Message>) -> Seq<Message> {
    Seq::new(messages.len(), |i: int| Message { thinking_ms: None, ..messages[i] })
}

/// A transcript without anything, that was never drawn.
pub open spec fn fresh_transcript() -> TranscriptView {
    TranscriptView {
        rows: Seq::empty(),
        wrapped: Seq::empty(),
        streaming: Seq::empty(),
        stream_kind: LineKind::Text,
        wrapped_stream: Seq::empty(),
        top: None,
        area: Rect { x: 0, y: 0, width: 0, height: 0 },
        select_anchor: None,
        select_head: None,
        dragging: false,
        hovered: None,
        last_click: None,
        tool_burst: tools::empty_burst(),
        burst_row: None,
        detail_ids: Map::empty(),
        thinking_row: None,
    }
}

/// What a row is drawn as behind the lines `before`, and its headers.
pub open spec fn drawn_row(
    before: Seq<Seq<style::SpanView>>,
    row: RowView,
    total: usize,
    limit: Option<usize>,
) -> (Seq<Seq<style::SpanView>>, Seq<kinds::HeaderView>) {
    match row.collapsible {
        Some(body) => wrap::live_rows(before, row.kind, row.text, body, total, limit),
        None => (
            wrap::gapped(before) + wrap::row_lines(row.kind, row.text, total),
            Seq::empty(),
        ),
    }
}

/// A body, if there is one, asked to fold.
pub open spec fn folded_body(body: Option<collapsible::CollapsibleView>) -> Option<
    collapsible::CollapsibleView,
> {
    match body {
        Some(c) => Some(collapsible::folded(c)),
        None => None,
    }
}

/// A row with its body, if it has one, asked to fold.
pub open spec fn folded_row(row: RowView) -> RowView {
    RowView { collapsible: folded_body(row.collapsible), ..row }
}

/// Rows with their bodies asked to fold.
pub open spec fn folded_rows(rows: Seq<RowView>) -> Seq<RowView> {
    Seq::new(rows.len(), |i: int| folded_row(rows[i]))
}

/// Whether some row has a body that would fold when asked.
pub open spec fn some_would_fold(rows: Seq<RowView>) -> bool {
    exists|i: int| 0 <= i < rows.len() && would_fold((#[trigger] rows[i]).collapsible)
}

/// Whether a body is there and would fold when asked.
pub open spec fn would_fold(body: Option<collapsible::CollapsibleView>) -> bool {
    body matches Some(c) && c.expanded && !c.pinned
}

/// A body of one text.
pub open spec fn text_body(t: Seq<char>) -> collapsible::CollapsibleView {
    collapsible::CollapsibleView {
        sections: seq![collapsible::SectionView::Text(t)],
        expanded: true,
        pinned: false,
    }
}

/// The texts of the text blocks, one under the other.
pub open spec fn result_texts(content: Seq<ContentBlock>) -> Seq<Seq<char>>
    decreases content.len(),
{
    if content.len() == 0 {
        Seq::empty()
    } else {
        match content.last() {
            ContentBlock::Text { text } => result_texts(content.drop_last()).push(text@),
            _ => result_texts(content.drop_last()),
        }
    }
}

/// Where the first of `headers` from `j` on that stands on `line` is.
pub open spec fn header_on(headers: Seq<kinds::HeaderView>, line: nat, j: nat) -> Option<nat>
    decreases headers.len() - j,
{
    if j >= headers.len() {
        None
    } else if headers[j as int].line == line {
        Some(j)
    } else {
        header_on(headers, line, j + 1)
    }
}

/// The first row from `i` on with a header on `line`, and that header.
pub open spec fn row_header_on(rows: Seq<RowView>, line: nat, i: nat) -> Option<
    (nat, kinds::HeaderView),
>
    decreases rows.len() - i,
{
    if i >= rows.len() {
        None
    } else {
        match header_on(rows[i as int].headers, line, 0) {
            Some(j) => Some((i, rows[i as int].headers[j as int])),
            None => row_header_on(rows, line, i + 1),
        }
    }
}

impl TranscriptView {
    /// Whether the rows that the transcript keeps track of are there.
    pub open spec fn wf(self) -> bool {
        &&& self.burst_row matches Some(r) ==> r < self.rows.len()
        &&& self.thinking_row matches Some(r) ==> r < self.rows.len()
    }

    /// Columns of the view.
    pub open spec fn width(self) -> usize {
        self.area.width as usize
    }

    /// Rows of the view.
    pub open spec fn height(self) -> nat {
        self.area.height as nat
    }

    /// A body that is still growing — live thinking deltas or an open tool
    /// burst — renders only its newest lines.
    pub open spec fn limit_of(self, idx: nat) -> Option<usize> {
        if self.thinking_row == Some(idx as usize) || self.burst_row == Some(idx as usize) {
            Some(wrap::MAX_LIVE_BODY_LINES)
        } else {
            None
        }
    }

    /// What the first `n` rows are drawn as.
    pub open spec fn lines_upto(self, n: nat) -> Seq<Seq<style::SpanView>>
        decreases n,
    {
        if n == 0 {
            Seq::empty()
        } else {
            let i = (n - 1) as nat;
            drawn_row(self.lines_upto(i), self.rows[i as int], self.width(), self.limit_of(i)).0
        }
    }

    /// The headers of row `i` where every row is drawn.
    pub open spec fn headers_of(self, i: nat) -> Seq<kinds::HeaderView> {
        drawn_row(self.lines_upto(i), self.rows[i as int], self.width(), self.limit_of(i)).1
    }

    /// What the text that is still streaming is drawn as.
    pub open spec fn stream_lines(self) -> Seq<Seq<style::SpanView>> {
        if self.width() == 0 || self.streaming.len() == 0 {
            Seq::empty()
        } else {
            let lines = wrap::wrapped_lines(
                wrap::formatted(self.stream_kind, self.streaming),
                self.width(),
                self.stream_kind,
            );
            if self.wrapped.len() > 0 {
                seq![style::blank_line()] + lines
            } else {
                lines
            }
        }
    }

    /// With the streaming text drawn anew.
    pub open spec fn with_stream(self) -> Self {
        TranscriptView { wrapped_stream: self.stream_lines(), ..self }
    }

    /// All lines, those of the stream last.
    pub open spec fn lines(self) -> Seq<Seq<style::SpanView>> {
        self.wrapped + self.wrapped_stream
    }

    /// How many lines there are.
    pub open spec fn total(self) -> nat {
        wrap::capped_sum(self.wrapped.len(), self.wrapped_stream.len())
    }

    /// The columns of a line, none where there is no such line.
    pub open spec fn width_at(self, idx: nat) -> nat {
        if idx < self.lines().len() {
            wrap::line_cols(self.lines()[idx as int])
        } else {
            0
        }
    }

    /// A position moved into the lines up to `last`.
    pub open spec fn clamped(self, pos: SelPos, last: nat) -> SelPos {
        let line = if pos.line <= last {
            pos.line as nat
        } else {
            last
        };
        let w = self.width_at(line);
        SelPos {
            line: line as usize,
            col: if pos.col <= w {
                pos.col
            } else {
                w as usize
            },
        }
    }

    /// Without a selection.
    pub open spec fn unselected(self) -> Self {
        TranscriptView { select_anchor: None, select_head: None, dragging: false, ..self }
    }

    /// With both ends of a selection moved into the lines there are; without
    /// lines there is no selection.
    pub open spec fn reanchored(self) -> Self {
        if self.total() == 0 {
            self.unselected()
        } else {
            let last = (self.total() - 1) as nat;
            TranscriptView {
                select_anchor: match self.select_anchor {
                    Some(pos) => Some(self.clamped(pos, last)),
                    None => None,
                },
                select_head: match self.select_head {
                    Some(pos) => Some(self.clamped(pos, last)),
                    None => None,
                },
                ..self
            }
        }
    }

    /// With every row drawn anew.
    pub open spec fn redrawn(self) -> Self {
        TranscriptView {
            wrapped: if self.width() == 0 {
                Seq::empty()
            } else {
                self.lines_upto(self.rows.len())
            },
            rows: Seq::new(
                self.rows.len(),
                |i: int|
                    RowView {
                        headers: if self.width() == 0 {
                            Seq::empty()
                        } else {
                            self.headers_of(i as nat)
                        },
                        ..self.rows[i]
                    },
            ),
            ..self
        }
    }

    /// With everything drawn anew and the selection kept.
    #[verifier::opaque]
    pub open spec fn rewrapped(self) -> Self {
        self.redrawn().with_stream().reanchored()
    }

    /// With every body folded that is not pinned.
    #[verifier::opaque]
    pub open spec fn folded(self) -> Self {
        let next = TranscriptView { rows: folded_rows(self.rows), ..self };
        if some_would_fold(self.rows) {
            next.rewrapped()
        } else {
            next
        }
    }

    /// With a row behind the others.
    #[verifier::opaque]
    pub open spec fn with_row(
        self,
        kind: LineKind,
        t: Seq<char>,
        body: Option<collapsible::CollapsibleView>,
    ) -> Self {
        let row = RowView { kind, text: t, collapsible: body, headers: Seq::empty() };
        let (lines, headers) = if self.width() == 0 {
            (self.wrapped, Seq::empty())
        } else {
            drawn_row(self.wrapped, row, self.width(), self.limit_of(self.rows.len()))
        };
        TranscriptView {
            rows: self.rows.push(RowView { headers, ..row }),
            wrapped: lines,
            thinking_row: if kind == LineKind::Thinking {
                Some(self.rows.len() as usize)
            } else {
                self.thinking_row
            },
            ..self
        }
    }

    /// With a row behind the others, whose bodies fold.
    #[verifier::opaque]
    pub open spec fn with_folding_row(
        self,
        kind: LineKind,
        t: Seq<char>,
        body: Option<collapsible::CollapsibleView>,
    ) -> Self {
        self.folded().with_row(kind, t, body)
    }

    /// With a row of the given kind: tool output gets a body under a title,
    /// reasoning shows its title only, and of shell output the last lines stay.
    #[verifier::opaque]
    pub open spec fn with_message(self, kind: LineKind, t: Seq<char>) -> Self {
        match kind {
            LineKind::ToolResult(_) => self.with_folding_row(
                kind,
                wrap::RESULT_LABEL@,
                Some(text_body(t)),
            ),
            LineKind::Thinking => self.with_folding_row(kind, wrap::THOUGHT_LABEL@, None),
            LineKind::ShellResult(_) => self.with_folding_row(
                kind,
                wrap::tail_text(t, wrap::MAX_SHELL_DISPLAY_LINES as nat),
                None,
            ),
            _ => self.with_folding_row(kind, t, None),
        }
    }

    /// Without a tool burst: its row folds.
    #[verifier::opaque]
    pub open spec fn with_burst_closed(self) -> Self {
        match self.burst_row {
            Some(r) => TranscriptView {
                tool_burst: tools::empty_burst(),
                burst_row: None,
                rows: self.rows.update(r as int, folded_row(self.rows[r as int])),
                ..self
            }.rewrapped(),
            None => TranscriptView { tool_burst: tools::empty_burst(), ..self },
        }
    }

    /// With the user's message, followed to the bottom.
    #[verifier::opaque]
    pub open spec fn with_user(self, t: Seq<char>) -> Self {
        TranscriptView {
            top: None,
            ..self.with_burst_closed().with_message(LineKind::User, t)
        }
    }

    /// With a shell command, followed to the bottom.
    #[verifier::opaque]
    pub open spec fn with_shell(self, command: Seq<char>) -> Self {
        TranscriptView {
            top: None,
            ..self.with_burst_closed().with_message(LineKind::Shell, command)
        }
    }

    /// With the output of a shell command.
    #[verifier::opaque]
    pub open spec fn with_shell_output(self, output: Seq<char>, ok: bool) -> Self {
        let body = wrap::message_text(output);
        self.with_burst_closed().with_message(
            LineKind::ShellResult(ok),
            if body.len() == 0 {
                "(no output)"@
            } else {
                body
            },
        )
    }

    /// With the output of a tool call; success without output shows nothing.
    #[verifier::opaque]
    pub open spec fn with_result(self, ok: bool, output: Seq<char>) -> Self {
        let body = wrap::message_text(output);
        if ok && body.len() == 0 {
            self
        } else {
            self.with_message(
                LineKind::ToolResult(ok),
                if body.len() == 0 {
                    "(no output)"@
                } else {
                    body
                },
            )
        }
    }

    /// With more reasoning: in the last row where that is reasoning, else in a
    /// row of its own.
    #[verifier::opaque]
    pub open spec fn with_thinking(self, title: Seq<char>, t: Seq<char>) -> Self {
        let n = self.rows.len() - 1;
        if self.rows.len() > 0 && self.rows[n].kind == LineKind::Thinking
            && self.rows[n].collapsible is Some {
            let body = self.rows[n].collapsible->0;
            TranscriptView {
                rows: self.rows.update(
                    n,
                    RowView {
                        text: title,
                        collapsible: Some(
                            collapsible::CollapsibleView {
                                sections: collapsible::appended(body.sections, t),
                                ..body
                            },
                        ),
                        ..self.rows[n]
                    },
                ),
                ..self
            }.rewrapped()
        } else {
            self.with_folding_row(LineKind::Thinking, title, Some(text_body(t)))
        }
    }

    /// With the burst's row brought up to date, or made.
    #[verifier::opaque]
    pub open spec fn with_burst_row(self) -> Self {
        let title = tools::title_text(self.tool_burst);
        let sections = tools::burst_sections(self.tool_burst.calls);
        match self.burst_row {
            Some(r) => TranscriptView {
                rows: self.rows.update(
                    r as int,
                    RowView {
                        text: title,
                        collapsible: match self.rows[r as int].collapsible {
                            Some(c) => Some(
                                collapsible::CollapsibleView { sections, ..c },
                            ),
                            None => None,
                        },
                        ..self.rows[r as int]
                    },
                ),
                ..self
            }.rewrapped(),
            None => {
                let next = self.with_folding_row(
                    LineKind::Tool,
                    title,
                    Some(
                        collapsible::CollapsibleView { sections, expanded: true, pinned: false },
                    ),
                );
                TranscriptView {
                    burst_row: Some((next.rows.len() - 1) as usize),
                    ..next
                }.rewrapped()
            },
        }
    }

    /// With a tool call that began: in the open burst, or in a row of its own.
    #[verifier::opaque]
    pub open spec fn with_tool_started(self, call_id: Seq<char>, view: ToolView) -> Self {
        if view.collapse {
            TranscriptView {
                tool_burst: tools::after_start(
                    self.tool_burst,
                    call_id,
                    view.summary@,
                    event::text_view(view.detail),
                ),
                ..self
            }.with_burst_row()
        } else {
            let closed = self.with_burst_closed();
            TranscriptView {
                detail_ids: closed.detail_ids.insert(call_id, view.detail is Some),
                ..closed
            }.with_folding_row(
                if view.detail is Some {
                    LineKind::Diff
                } else {
                    LineKind::Tool
                },
                view.summary@,
                match view.detail {
                    Some(t) => Some(text_body(t@)),
                    None => None,
                },
            )
        }
    }

    /// With a tool call that ended: counted in its burst, shown under its own
    /// row, or, where nothing is known of it, its failure as a notice.
    #[verifier::opaque]
    pub open spec fn with_tool_ended(self, call_id: Seq<char>, ok: bool, output: Seq<char>) -> Self {
        if self.tool_burst.pending.dom().contains(call_id) {
            let next = TranscriptView {
                tool_burst: tools::after_finish(
                    self.tool_burst,
                    call_id,
                    !ok,
                    if ok {
                        None
                    } else {
                        Some(output)
                    },
                ),
                ..self
            };
            if ok {
                next
            } else {
                next.with_burst_row()
            }
        } else if self.detail_ids.dom().contains(call_id) {
            let has_detail = self.detail_ids[call_id];
            let next = TranscriptView { detail_ids: self.detail_ids.remove(call_id), ..self };
            if !has_detail || !ok {
                next.with_result(ok, output)
            } else {
                next
            }
        } else if !ok {
            self.with_message(LineKind::System, output)
        } else {
            self
        }
    }

    /// With a tool result of the history.
    #[verifier::opaque]
    pub open spec fn with_seed_result(
        self,
        id: Seq<char>,
        is_error: bool,
        content: Seq<ContentBlock>,
    ) -> Self {
        let output = text::joined(result_texts(content), "\n"@);
        if self.detail_ids.dom().contains(id) {
            let has_detail = self.detail_ids[id];
            let next = TranscriptView { detail_ids: self.detail_ids.remove(id), ..self };
            if !has_detail || is_error {
                next.with_result(!is_error, output)
            } else {
                next
            }
        } else {
            let known = self.tool_burst.pending.dom().contains(id);
            let next = TranscriptView {
                tool_burst: tools::after_finish(
                    self.tool_burst,
                    id,
                    is_error,
                    if is_error {
                        Some(output)
                    } else {
                        None
                    },
                ),
                ..self
            };
            if known && is_error {
                next.with_burst_row()
            } else {
                next
            }
        }
    }

    /// With nothing streaming.
    pub open spec fn without_stream(self) -> Self {
        TranscriptView { streaming: Seq::empty(), wrapped_stream: Seq::empty(), ..self }
    }

    /// With the streamed text as a row.
    #[verifier::opaque]
    pub open spec fn with_stream_flushed(self) -> Self {
        let body = wrap::message_text(self.streaming);
        if body.len() == 0 {
            self.without_stream()
        } else {
            self.without_stream().with_row(self.stream_kind, body, None)
        }
    }

    /// With more streamed text.
    #[verifier::opaque]
    pub open spec fn with_streamed(self, kind: LineKind, t: Seq<char>) -> Self {
        if t.len() == 0 {
            self
        } else {
            let flushed = if self.streaming.len() > 0 && self.stream_kind != kind {
                self.with_stream_flushed()
            } else {
                self
            };
            let ready = if flushed.streaming.len() == 0 {
                flushed.folded()
            } else {
                flushed
            };
            TranscriptView { stream_kind: kind, streaming: ready.streaming + t, ..ready }
        }
    }

    /// With the live reasoning settled under `title` and folded.
    #[verifier::opaque]
    pub open spec fn with_thinking_retired(self, title: Seq<char>) -> Self {
        match self.thinking_row {
            Some(r) => TranscriptView {
                thinking_row: None,
                rows: self.rows.update(
                    r as int,
                    RowView { text: title, ..folded_row(self.rows[r as int]) },
                ),
                ..self
            }.rewrapped(),
            None => self,
        }
    }

    /// With the live reasoning settled under the bare label.
    pub open spec fn with_thinking_stopped(self) -> Self {
        self.with_thinking_retired(wrap::THOUGHT_LABEL@)
    }

    /// Without anything.
    pub open spec fn cleared(self) -> Self {
        TranscriptView {
            rows: Seq::empty(),
            wrapped: Seq::empty(),
            streaming: Seq::empty(),
            wrapped_stream: Seq::empty(),
            top: None,
            select_anchor: None,
            select_head: None,
            dragging: false,
            hovered: None,
            last_click: None,
            tool_burst: tools::empty_burst(),
            burst_row: None,
            detail_ids: Map::empty(),
            thinking_row: None,
            ..self
        }
    }

    /// With the pieces of a message of the user.
    pub open spec fn with_user_blocks(self, blocks: Seq<ContentBlock>) -> Self
        decreases blocks.len(),
    {
        if blocks.len() == 0 {
            self
        } else {
            let before = self.with_user_blocks(blocks.drop_last());
            match blocks.last() {
                ContentBlock::Text { text } => before.with_burst_closed().with_message(
                    LineKind::User,
                    text@,
                ),
                ContentBlock::Shell { command, output, ok } =>
                    before.with_burst_closed().with_shell(command@).with_shell_output(output@, ok),
                ContentBlock::ToolResult { tool_use_id, content, is_error } =>
                    before.with_seed_result(tool_use_id@, is_error, content@),
                _ => before,
            }
        }
    }

    /// With the pieces of a tool message.
    pub open spec fn with_tool_blocks(self, blocks: Seq<ContentBlock>) -> Self
        decreases blocks.len(),
    {
        if blocks.len() == 0 {
            self
        } else {
            let before = self.with_tool_blocks(blocks.drop_last());
            match blocks.last() {
                ContentBlock::ToolResult { tool_use_id, content, is_error } =>
                    before.with_seed_result(tool_use_id@, is_error, content@),
                _ => before,
            }
        }
    }

    /// With the reasoning of an answer, or with the rest of it.
    pub open spec fn with_answer_blocks(
        self,
        blocks: Seq<ContentBlock>,
        thinking_ms: Option<u64>,
        reasoning: bool,
    ) -> Self
        decreases blocks.len(),
    {
        if blocks.len() == 0 {
            self
        } else {
            let before = self.with_answer_blocks(blocks.drop_last(), thinking_ms, reasoning);
            match blocks.last() {
                ContentBlock::Thinking { thinking } => if reasoning {
                    before.with_burst_closed().with_thinking(
                        wrap::thought_text(thinking_ms),
                        thinking@,
                    )
                } else {
                    before
                },
                ContentBlock::Text { text } => if reasoning || wrap::message_text(text@).len()
                    == 0 {
                    before
                } else {
                    before.with_burst_closed().with_message(
                        LineKind::Text,
                        wrap::message_text(text@),
                    )
                },
                ContentBlock::ToolUse { id, view } => if reasoning {
                    before
                } else {
                    before.with_tool_started(id@, view)
                },
                _ => before,
            }
        }
    }

    /// With a message of the history. Reasoning comes before the answer it
    /// led to, wherever it stands in the message.
    #[verifier::opaque]
    pub open spec fn with_history_message(self, m: Message) -> Self {
        match m.role {
            Role::User => self.with_user_blocks(m.content@),
            Role::Tool => self.with_tool_blocks(m.content@),
            Role::Assistant => self.with_answer_blocks(
                m.content@,
                m.thinking_ms,
                true,
            ).with_answer_blocks(m.content@, m.thinking_ms, false),
            Role::System => self,
        }
    }

    /// With the messages of the history, one after the other.
    pub open spec fn with_messages(self, messages: Seq<Message>) -> Self
        decreases messages.len(),
    {
        if messages.len() == 0 {
            self
        } else {
            self.with_messages(messages.drop_last()).with_history_message(messages.last())
        }
    }

    /// With a history, of which nothing is live.
    #[verifier::opaque]
    pub open spec fn seeded(self, messages: Seq<Message>) -> Self {
        TranscriptView {
            thinking_row: None,
            ..self.with_messages(messages).with_burst_closed()
        }.folded()
    }

    /// How a tool call ended: whether well, and with which output.
    pub open spec fn outcome(result: ToolResult) -> (bool, Seq<char>) {
        match result {
            ToolResult::Success { output } => (true, output@),
            ToolResult::Failed { error, output } => (
                false,
                match output {
                    Some(t) => t@,
                    None => error@,
                },
            ),
            ToolResult::Rejected { reason } => (false, reason@),
            ToolResult::Cancelled => (false, "cancelled"@),
        }
    }

    /// With what an answer left behind when it was cancelled.
    #[verifier::opaque]
    pub open spec fn with_cancelled(self) -> Self {
        let stopped = self.with_burst_closed().with_thinking_stopped();
        let partial = wrap::message_text(stopped.streaming);
        let flushed = if stopped.streaming.len() == 0 {
            stopped
        } else if partial.len() == 0 {
            stopped.without_stream()
        } else {
            stopped.without_stream().with_row(stopped.stream_kind, partial + "…"@, None)
        };
        flushed.with_message(LineKind::System, "cancelled"@)
    }

    /// What an event makes of the transcript.
    pub open spec fn after(self, ev: AppEvent) -> Self {
        match ev {
            AppEvent::Agent(event) => match event {
                AgentEvent::ThinkingDelta { text } => self.with_burst_closed().with_thinking(
                    wrap::THINKING_LABEL@,
                    text@,
                ),
                AgentEvent::ThinkingDone { duration_ms } => self.with_thinking_retired(
                    wrap::thought_text(Some(duration_ms)),
                ),
                AgentEvent::TextDelta { text } =>
                    self.with_burst_closed().with_thinking_stopped().with_streamed(
                    LineKind::Text,
                    text@,
                ),
                AgentEvent::ApprovalRequested { view } =>
                    self.with_thinking_stopped().with_stream_flushed().with_message(
                    LineKind::System,
                    "approval required: "@ + view.summary@,
                ),
                AgentEvent::ToolStarted { call_id, view } =>
                    self.with_thinking_stopped().with_stream_flushed().with_tool_started(
                    text::decimal(call_id as nat),
                    view,
                ),
                AgentEvent::ToolFinished { call_id, result } => self.with_tool_ended(
                    text::decimal(call_id as nat),
                    Self::outcome(result).0,
                    Self::outcome(result).1,
                ),
                AgentEvent::LoopLimitReached { max_iters } =>
                    self.with_thinking_stopped().with_stream_flushed().with_message(
                    LineKind::System,
                    "agent loop limit reached"@ + " ("@ + text::decimal(max_iters as nat)
                        + " iterations)"@,
                ),
                AgentEvent::Completed { usage } =>
                    self.with_burst_closed().with_thinking_stopped().with_stream_flushed(),
                AgentEvent::Cancelled => self.with_cancelled(),
                AgentEvent::Failed { message } =>
                    self.with_burst_closed().with_thinking_stopped().with_stream_flushed().with_message(
                    LineKind::Error,
                    message@,
                ),
                AgentEvent::ToolOutputDelta
                | AgentEvent::TurnStarted
                | AgentEvent::UsageReported
                | AgentEvent::TodosChanged { .. } => self,
            },
            AppEvent::Shell(event) => match event {
                ShellEvent::Started => self,
                ShellEvent::Finished { output, exit_code } => self.with_shell_output(
                    output@,
                    exit_code == 0,
                ),
                ShellEvent::Failed { error, output } => self.with_shell_output(
                    if output@.len() == 0 {
                        error@
                    } else {
                        output@
                    },
                    false,
                ),
            },
            AppEvent::CompactionCompleted => self.with_message(
                LineKind::System,
                "context compacted"@,
            ),
            AppEvent::Error { message } => self.with_burst_closed().with_stream_flushed().with_message(
                LineKind::Error,
                message@,
            ),
            AppEvent::CompactionStarted
            | AppEvent::StateChanged(_)
            | AppEvent::Exited
            | AppEvent::Idle
            | AppEvent::Rewound
            | AppEvent::Notification { .. } => self,
        }
    }

    /// The first line that the view shows.
    pub open spec fn current_top(self) -> nat {
        match self.top {
            Some(top) => top as nat,
            None => wrap::less(self.total(), self.height()),
        }
    }

    /// Scrolled up by `n` lines, and anchored there.
    pub open spec fn scrolled_up(self, n: u16) -> Self {
        TranscriptView { top: Some(wrap::less(self.current_top(), n as nat) as usize), ..self }
    }

    /// Scrolled down by `n` lines; at the bottom the view follows again.
    pub open spec fn scrolled_down(self, n: u16) -> Self {
        let height = if self.height() == 0 {
            1
        } else {
            self.height()
        };
        let max_top = wrap::less(self.total(), height);
        let wanted = wrap::capped_sum(self.current_top(), n as nat);
        let top = if wanted <= max_top {
            wanted
        } else {
            max_top
        };
        TranscriptView {
            top: if wrap::capped_sum(top, height) < self.total() {
                Some(top as usize)
            } else {
                None
            },
            ..self
        }
    }

    /// The position in the lines that a cell of the screen shows. Cells below
    /// the last line stand for its end.
    pub open spec fn pos_at(self, column: u16, row: u16) -> SelPos {
        if self.total() == 0 {
            SelPos { line: 0, col: 0 }
        } else {
            let height = if self.height() == 0 {
                1
            } else {
                self.height()
            };
            let below = wrap::less(row as nat, self.area.y as nat);
            let rel_y = if below < height {
                below
            } else {
                (height - 1) as nat
            };
            let raw = wrap::capped_sum(self.current_top(), rel_y);
            let last = (self.total() - 1) as nat;
            let line = if raw <= last {
                raw
            } else {
                last
            };
            let w = self.width_at(line);
            let rel_x = wrap::less(column as nat, self.area.x as nat);
            SelPos {
                line: line as usize,
                col: if raw > last || rel_x > w {
                    w as usize
                } else {
                    rel_x as usize
                },
            }
        }
    }

    /// The ends of the selection in order, where it is not empty.
    pub open spec fn selection(self) -> Option<(SelPos, SelPos)> {
        match (self.select_anchor, self.select_head) {
            (Some(a), Some(b)) => if a == b {
                None
            } else if a.at_most(b) {
                Some((a, b))
            } else {
                Some((b, a))
            },
            _ => None,
        }
    }

    /// The text of a selection up to line `idx`, that line left out.
    pub open spec fn text_between(self, start: SelPos, end: SelPos, idx: nat) -> Seq<char>
        decreases idx,
    {
        if idx <= start.line {
            Seq::empty()
        } else {
            let i = (idx - 1) as nat;
            let before = self.text_between(start, end, i);
            if i < self.lines().len() {
                let line = self.lines()[i as int];
                let from = if i == start.line {
                    start.col as nat
                } else {
                    0
                };
                let to = if i == end.line {
                    end.col as nat
                } else {
                    wrap::line_cols(line)
                };
                before + (if i > start.line {
                    seq!['\n']
                } else {
                    Seq::empty()
                }) + selection::extracted(line, from, to)
            } else {
                before
            }
        }
    }

    /// The selected text, where there is any.
    pub open spec fn selected(self) -> Option<Seq<char>> {
        match self.selection() {
            Some((start, end)) => {
                let t = self.text_between(start, end, end.line as nat + 1);
                if t.len() == 0 {
                    None
                } else {
                    Some(t)
                }
            },
            None => None,
        }
    }

    /// The row whose header a cell of the screen shows, and that header.
    pub open spec fn header_at(self, column: u16, row: u16) -> Option<(nat, kinds::HeaderView)> {
        row_header_on(self.rows, self.pos_at(column, row).line as nat, 0)
    }

    /// The header under the pointer.
    pub open spec fn pointed(self, column: u16, row: u16) -> Option<kinds::HeaderView> {
        if self.area.holds(column, row) {
            match self.header_at(column, row) {
                Some((_, header)) => Some(header),
                None => None,
            }
        } else {
            None
        }
    }

    /// With the pointer at a cell of the screen.
    pub open spec fn with_pointer(self, column: u16, row: u16) -> Self {
        TranscriptView { hovered: self.pointed(column, row), ..self }
    }

    /// With a selection that starts at a cell of the screen.
    pub open spec fn with_selection_begun(self, column: u16, row: u16) -> Self {
        if self.total() == 0 {
            self.unselected()
        } else {
            let pos = self.pos_at(column, row);
            TranscriptView {
                select_anchor: Some(pos),
                select_head: Some(pos),
                dragging: true,
                ..self
            }
        }
    }

    /// With the selection drawn out to a cell of the screen.
    pub open spec fn with_selection_at(self, column: u16, row: u16) -> Self {
        if self.total() == 0 {
            self
        } else {
            TranscriptView { select_head: Some(self.pos_at(column, row)), ..self }
        }
    }

    /// Whether there is text to copy and the clipboard took it.
    pub open spec fn copies(self, clipboard: bool) -> bool {
        self.selected() is Some && clipboard
    }

    /// With the selection ended: what was copied stays selected.
    pub open spec fn with_selection_ended(self, clipboard: bool) -> Self {
        let next = TranscriptView { dragging: false, ..self };
        if next.copies(clipboard) {
            next
        } else {
            next.unselected()
        }
    }

    /// With the body that a header points at switched. The view is anchored,
    /// so the header stays where it was clicked.
    #[verifier::opaque]
    pub open spec fn with_toggled(self, row: nat, path: Seq<usize>) -> Self {
        if row < self.rows.len() && self.rows[row as int].collapsible is Some
            && collapsible::leads_to_item(self.rows[row as int].collapsible->0, path) {
            let body = self.rows[row as int].collapsible->0;
            TranscriptView {
                top: Some(self.current_top() as usize),
                ..TranscriptView {
                    rows: self.rows.update(
                        row as int,
                        RowView {
                            collapsible: Some(collapsible::toggled_at(body, path)),
                            ..self.rows[row as int]
                        },
                    ),
                    ..self
                }.rewrapped()
            }
        } else {
            self
        }
    }

    /// Whether a click at `now` on `header` is the second of a double click.
    pub open spec fn is_double(self, header: kinds::HeaderView, now: u64) -> bool {
        match self.last_click {
            Some((last, at)) => last.line == header.line && wrap::less(now as nat, at as nat)
                <= 500,
            None => false,
        }
    }

    /// With the left button pressed: the second click on a header switches its
    /// body, any other click starts a selection.
    pub open spec fn with_press(self, column: u16, row: u16, now: u64) -> Self {
        match self.header_at(column, row) {
            Some((r, header)) => if self.is_double(header, now) {
                TranscriptView { last_click: None, ..self }.with_toggled(
                    r,
                    header.path,
                ).unselected()
            } else {
                TranscriptView {
                    last_click: Some((header, now)),
                    ..self
                }.with_selection_begun(column, row)
            },
            None => TranscriptView { last_click: None, ..self }.with_selection_begun(column, row),
        }
    }

    /// Whether a mouse event is a release of the left button that the
    /// transcript takes.
    pub open spec fn releases(self, mouse: MouseEvent) -> bool {
        mouse.kind == MouseEventKind::Up(MouseButton::Left) && (self.dragging || self.area.holds(
            mouse.column,
            mouse.row,
        ))
    }

    /// With the selection where the left button is released.
    pub open spec fn at_release(self, column: u16, row: u16) -> Self {
        if self.dragging {
            self.with_selection_at(column, row)
        } else {
            self
        }
    }

    /// What a mouse event makes of the selection before anything is copied.
    pub open spec fn before_copy(self, mouse: MouseEvent) -> Self {
        if self.releases(mouse) {
            self.at_release(mouse.column, mouse.row)
        } else {
            self
        }
    }

    /// The text that a mouse event wants copied.
    pub open spec fn wanted_copy(self, mouse: MouseEvent) -> Option<Seq<char>> {
        if self.releases(mouse) {
            self.before_copy(mouse).selected()
        } else {
            None
        }
    }

    /// With the left button released.
    pub open spec fn with_release(self, column: u16, row: u16, clipboard: bool) -> Self {
        let at = self.at_release(column, row);
        let ended = at.with_selection_ended(clipboard);
        if at.copies(clipboard) || at.selection() is Some {
            TranscriptView { last_click: None, ..ended }
        } else {
            ended
        }
    }

    /// What a mouse event makes of the transcript.
    pub open spec fn after_mouse(self, mouse: MouseEvent, now: u64, clipboard: bool) -> Self {
        let (x, y) = (mouse.column, mouse.row);
        let inside = self.area.holds(x, y);
        match mouse.kind {
            MouseEventKind::ScrollUp => if inside {
                self.scrolled_up(3).with_pointer(x, y)
            } else {
                self
            },
            MouseEventKind::ScrollDown => if inside {
                self.scrolled_down(3).with_pointer(x, y)
            } else {
                self
            },
            MouseEventKind::Down(MouseButton::Left) => if inside {
                self.with_press(x, y, now)
            } else {
                self
            },
            MouseEventKind::Drag(MouseButton::Left) => if self.dragging {
                self.with_selection_at(x, y)
            } else {
                self
            },
            MouseEventKind::Moved => if self.dragging {
                self.with_selection_at(x, y)
            } else {
                self.with_pointer(x, y)
            },
            MouseEventKind::Up(MouseButton::Left) => if inside || self.dragging {
                self.with_release(x, y, clipboard)
            } else {
                self
            },
            _ => self,
        }
    }

    /// What the transcript answers to a mouse event: whether it took it, and
    /// whether it copied the selection.
    pub open spec fn mouse_answer(self, mouse: MouseEvent, clipboard: bool) -> (bool, bool) {
        let (x, y) = (mouse.column, mouse.row);
        let inside = self.area.holds(x, y);
        match mouse.kind {
            MouseEventKind::ScrollUp
            | MouseEventKind::ScrollDown
            | MouseEventKind::Down(MouseButton::Left) => (inside, false),
            MouseEventKind::Drag(MouseButton::Left) => (self.dragging, false),
            MouseEventKind::Moved => (
                self.dragging || self.hovered != self.pointed(x, y),
                false,
            ),
            MouseEventKind::Up(MouseButton::Left) => (
                inside || self.dragging,
                (inside || self.dragging) && self.at_release(x, y).copies(clipboard),
            ),
            _ => (false, false),
        }
    }

    /// Laid out for an area of the screen: drawn anew where the width changed,
    /// and following the newest content where the anchor shows it all.
    #[verifier::opaque]
    pub open spec fn laid_out(self, area: Rect) -> Self {
        let moved = TranscriptView { area, ..self };
        let drawn = if area.width != self.area.width {
            moved.rewrapped()
        } else if self.streaming.len() > 0 {
            moved.with_stream()
        } else {
            moved
        };
        TranscriptView { top: drawn.settled_top(), ..drawn }
    }

    /// The anchor, where the view does not reach the bottom.
    pub open spec fn settled_top(self) -> Option<usize> {
        match self.top {
            Some(t) => {
                let max_top = wrap::less(self.total(), self.height());
                let top = if t <= max_top {
                    t as nat
                } else {
                    max_top
                };
                if wrap::capped_sum(top, self.height()) < self.total() {
                    Some(top as usize)
                } else {
                    None
                }
            },
            None => None,
        }
    }

    /// The first of the lines on the screen.
    pub open spec fn first_line(self) -> nat {
        let top = self.current_top();
        if top <= self.total() {
            top
        } else {
            self.total()
        }
    }

    /// The line behind the last on the screen.
    pub open spec fn end_line(self) -> nat {
        let end = wrap::capped_sum(self.first_line(), self.height());
        if end <= self.total() {
            end
        } else {
            self.total()
        }
    }

    /// The header line of reasoning that is still streaming.
    pub open spec fn live_header(self) -> Option<nat> {
        match self.thinking_row {
            Some(r) => if self.rows[r as int].text == wrap::THINKING_LABEL@
                && self.rows[r as int].headers.len() > 0 {
                Some(self.rows[r as int].headers[0].line)
            } else {
                None
            },
            None => None,
        }
    }

    /// Whether the caret of a streaming answer is on.
    pub open spec fn caret_on(self, frame: u64) -> bool {
        &&& self.stream_kind == LineKind::Text
        &&& self.streaming.len() > 0
        &&& self.end_line() == self.total()
        &&& (frame / 5) % 2 == 0
    }

    /// A line before the selection is marked in it: the shimmer of live
    /// reasoning, the hover, and the caret behind the last line.
    pub open spec fn painted(self, idx: nat, frame: u64, shades: Seq<u8>) -> Seq<style::SpanView> {
        let plain = self.lines()[idx as int];
        let shimmering = if self.live_header() == Some(idx) && plain.len() > 0
            && style::line_text(plain.skip(1)).len() <= shades.len() {
            wrap::shimmered(plain, shades)
        } else {
            plain
        };
        let pointed = if self.hovered matches Some(h) && h.line == idx {
            wrap::hovered(shimmering, self.width())
        } else {
            shimmering
        };
        if self.caret_on(frame) && idx + 1 == self.end_line() {
            pointed.push(style::SpanView { text: "▊"@, style: theme::assistant() })
        } else {
            pointed
        }
    }

    /// A line as it is drawn on the screen.
    pub open spec fn screen_line(self, idx: nat, frame: u64, shades: Seq<u8>) -> Seq<
        style::SpanView,
    > {
        let line = self.painted(idx, frame, shades);
        match self.selection() {
            Some((start, end)) => if start.line <= idx <= end.line {
                selection::highlighted(
                    line,
                    if idx == start.line {
                        start.col as nat
                    } else {
                        0
                    },
                    if idx == end.line {
                        end.col as nat
                    } else {
                        wrap::line_cols(line)
                    },
                )
            } else {
                line
            },
            None => line,
        }
    }

    /// The lines on the screen.
    pub open spec fn screen(self, frame: u64, shades: Seq<u8>) -> Seq<Seq<style::SpanView>> {
        Seq::new(
            (self.end_line() - self.first_line()) as nat,
            |i: int| self.screen_line(self.first_line() + i as nat, frame, shades),
        )
    }

    /// The text of the user's last message or command.
    pub open spec fn last_prompt(rows: Seq<RowView>) -> Option<Seq<char>>
        decreases rows.len(),
    {
        if rows.len() == 0 {
            None
        } else {
            match rows.last().kind {
                LineKind::User => Some(rows.last().text),
                LineKind::Shell => Some("! "@ + rows.last().text),
                _ => Self::last_prompt(rows.drop_last()),
            }
        }
    }
}

} // verus!
