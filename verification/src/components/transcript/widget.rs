//! The transcript widget: rows, streamed text, folding and scrolling.
use vstd::prelude::*;
use vstd::string::*;

use super::super::event;
use super::super::event::{
    AgentEvent, AppEvent, ContentBlock, Message, Role, ShellEvent, ToolResult, ToolView,
};
use super::collapsible::Collapsible;
use super::collapsible;
use super::kinds::{Header, LineKind};
use super::kinds;
use super::model;
use super::model::{RowView, TranscriptView};
use super::selection::SelPos;
use super::tools::ToolBurst;
use super::tools;
use super::wrap::{
    MAX_LIVE_BODY_LINES, MAX_SHELL_DISPLAY_LINES, RESULT_LABEL, THINKING_LABEL, THOUGHT_LABEL,
};
use super::wrap;
use crate::seqs;
use crate::style::{Line, Rect};
use crate::style;
use crate::table::Table;
use crate::text;

verus! {

broadcast use crate::seqs::views_push;

/// What is shown for a command or a call without output.
pub const NO_OUTPUT: &'static str = "(no output)";

/// The notice that the agent ran into its loop limit.
pub const LOOP_LIMIT_REACHED: &'static str = "agent loop limit reached";

/// A row of the transcript.
pub struct Row {
    pub kind: LineKind,
    pub text: String,
    pub collapsible: Option<Collapsible>,
    pub headers: Vec<Header>,
}

/// What a body that may be there holds.
pub open spec fn body_view(c: Option<Collapsible>) -> Option<collapsible::CollapsibleView> {
    match c {
        Some(c) => Some(c@),
        None => None,
    }
}

impl View for Row {
    type V = RowView;

    open spec fn view(&self) -> RowView {
        RowView {
            kind: self.kind,
            text: self.text@,
            collapsible: body_view(self.collapsible),
            headers: seqs::views(self.headers@),
        }
    }
}

impl Row {
    /// Folds the body of the row unless it is pinned. Returns whether it was
    /// unfolded before.
    fn fold(&mut self) -> (changed: bool)
        ensures
            final(self)@ == model::folded_row(old(self)@),
            changed == model::would_fold(old(self)@.collapsible),
    {
        let mut changed = false;
        if let Some(body) = &mut self.collapsible {
            changed = body.collapse();
        }
        assert(self@ =~= model::folded_row(old(self)@));
        changed
    }
}

/// Folds the bodies of the rows that are not pinned. Returns whether one was
/// unfolded before.
fn fold_rows(rows: &mut Vec<Row>) -> (changed: bool)
    ensures
        seqs::views(final(rows)@) == model::folded_rows(seqs::views(old(rows)@)),
        changed == model::some_would_fold(seqs::views(old(rows)@)),
{
    let ghost before = seqs::views(rows@);
    let mut changed = false;
    let n: usize = rows.len();
    let mut i: usize = 0;
    while i < n
        invariant
            i <= n == rows@.len() == before.len(),
            forall|j: int| i <= j < n ==> (#[trigger] rows@[j])@ == before[j],
            forall|j: int| 0 <= j < i ==> (#[trigger] rows@[j])@ == model::folded_row(before[j]),
            changed == exists|j: int|
                0 <= j < i && model::would_fold((#[trigger] before[j]).collapsible),
        decreases n - i,
    {
        let folds = rows[i].fold();
        changed = changed || folds;
        i += 1;
    }
    assert(seqs::views(rows@) =~= model::folded_rows(before));
    changed
}

/// The scrolling record of a session.
pub struct Transcript {
    pub rows: Vec<Row>,
    pub wrapped: Vec<Line>,
    pub streaming: String,
    pub stream_kind: LineKind,
    pub wrapped_stream: Vec<Line>,
    /// None follows newest content; Some is an anchored wrapped-line index.
    pub top: Option<usize>,
    pub area: Rect,
    pub select_anchor: Option<SelPos>,
    pub select_head: Option<SelPos>,
    pub dragging: bool,
    pub hovered_collapsible: Option<Header>,
    pub last_collapsible_click: Option<(Header, u64)>,
    pub tool_burst: ToolBurst,
    pub burst_row: Option<usize>,
    /// Calls rendered as their own rows; `true` when they carry a detail body,
    /// whose success output stays hidden.
    pub detail_ids: Table<bool>,
    pub thinking_row: Option<usize>,
}

impl View for Transcript {
    type V = TranscriptView;

    open spec fn view(&self) -> TranscriptView {
        TranscriptView {
            rows: seqs::views(self.rows@),
            wrapped: seqs::views(self.wrapped@),
            streaming: self.streaming@,
            stream_kind: self.stream_kind,
            wrapped_stream: seqs::views(self.wrapped_stream@),
            top: self.top,
            area: self.area,
            select_anchor: self.select_anchor,
            select_head: self.select_head,
            dragging: self.dragging,
            hovered: match self.hovered_collapsible {
                Some(h) => Some(h@),
                None => None,
            },
            last_click: match self.last_collapsible_click {
                Some(pair) => Some((pair.0@, pair.1)),
                None => None,
            },
            tool_burst: self.tool_burst@,
            burst_row: self.burst_row,
            detail_ids: self.detail_ids@,
            thinking_row: self.thinking_row,
        }
    }
}

/// The texts of the text blocks, one under the other.
pub fn result_text(content: &Vec<ContentBlock>) -> (out: String)
    ensures
        out@ == text::joined(model::result_texts(content@), "\n"@),
{
    let mut texts: Vec<String> = Vec::new();
    let mut i: usize = 0;
    proof {
        assert(content@.take(0) =~= Seq::<ContentBlock>::empty());
        assert(seqs::views(texts@) =~= Seq::<Seq<char>>::empty());
    }
    while i < content.len()
        invariant
            i <= content@.len(),
            seqs::views(texts@) == model::result_texts(content@.take(i as int)),
        decreases content.len() - i,
    {
        proof {
            let now = content@.take(i + 1);
            assert(now.drop_last() =~= content@.take(i as int));
            assert(now.last() == content@[i as int]);
        }
        if let ContentBlock::Text { text } = &content[i] {
            texts.push(text.clone());
        }
        i += 1;
    }
    assert(content@.take(content@.len() as int) =~= content@);
    text::join(&texts, "\n")
}

impl Transcript {
    /// An empty transcript that was not drawn yet.
    pub fn new() -> (t: Self)
        ensures
            t@.wf(),
            t@ == model::fresh_transcript(),
    {
        let t = Transcript {
            rows: Vec::new(),
            wrapped: Vec::new(),
            streaming: String::new(),
            stream_kind: LineKind::Text,
            wrapped_stream: Vec::new(),
            top: None,
            area: Rect::new(0, 0, 0, 0),
            select_anchor: None,
            select_head: None,
            dragging: false,
            hovered_collapsible: None,
            last_collapsible_click: None,
            tool_burst: ToolBurst::new(),
            burst_row: None,
            detail_ids: Table::new(),
            thinking_row: None,
        };
        assert(t@ =~= model::fresh_transcript());
        t
    }

    /// How many lines there are, those of the stream included.
    pub fn total_lines(&self) -> (n: usize)
        ensures
            n == self@.total(),
    {
        self.wrapped.len().saturating_add(self.wrapped_stream.len())
    }

    pub(super) fn width(&self) -> (w: usize)
        ensures
            w == self@.width(),
    {
        self.area.width as usize
    }

    /// A body that is still growing — live thinking deltas or an open tool
    /// burst — renders only its newest lines, so it cannot scroll the view
    /// upward.
    fn live_body_limit(&self, idx: usize) -> (limit: Option<usize>)
        ensures
            limit == self@.limit_of(idx as nat),
    {
        let thinking = match self.thinking_row {
            Some(r) => r == idx,
            None => false,
        };
        let burst = match self.burst_row {
            Some(r) => r == idx,
            None => false,
        };
        if thinking || burst {
            Some(MAX_LIVE_BODY_LINES)
        } else {
            None
        }
    }

    fn wrap_row_into(out: &mut Vec<Line>, row: &Row, total: usize, limit: Option<usize>) -> (headers: Vec<
        Header,
    >)
        ensures
            ({
                let (lines, found) = model::drawn_row(seqs::views(old(out)@), row@, total, limit);
                &&& seqs::views(final(out)@) == lines
                &&& seqs::views(headers@) == found
            }),
    {
        match &row.collapsible {
            Some(body) => wrap::wrap_live_collapsible_into(
                out,
                row.kind,
                row.text.as_str(),
                body,
                total,
                limit,
            ),
            None => {
                wrap::wrap_plain_row_into(out, row.kind, row.text.as_str(), total);
                let none: Vec<Header> = Vec::new();
                assert(seqs::views(none@) =~= Seq::<kinds::HeaderView>::empty());
                none
            },
        }
    }

    /// Draws row `idx` behind the lines there are.
    fn wrap_row(&mut self, idx: usize)
        requires
            idx < old(self)@.rows.len(),
        ensures
            ({
                let v = old(self)@;
                let (lines, headers) = if v.width() == 0 {
                    (v.wrapped, Seq::empty())
                } else {
                    model::drawn_row(
                        v.wrapped,
                        v.rows[idx as int],
                        v.width(),
                        v.limit_of(idx as nat),
                    )
                };
                final(self)@ == (TranscriptView {
                    wrapped: lines,
                    rows: v.rows.update(idx as int, RowView { headers, ..v.rows[idx as int] }),
                    ..v
                })
            }),
    {
        let total: usize = self.width();
        let limit = self.live_body_limit(idx);
        let headers = if total == 0 {
            Vec::new()
        } else {
            Self::wrap_row_into(&mut self.wrapped, &self.rows[idx], total, limit)
        };
        assert(total == 0 ==> seqs::views(headers@) =~= Seq::<kinds::HeaderView>::empty());
        let ghost h = seqs::views(headers@);
        let ghost before = self.rows@;
        self.rows[idx].headers = headers;
        assert(seqs::views(self.rows@) =~= seqs::views(before).update(
            idx as int,
            RowView { headers: h, ..before[idx as int]@ },
        ));
    }

    /// Draws the streaming text anew.
    pub fn rewrap_stream(&mut self)
        ensures
            final(self)@ == old(self)@.with_stream(),
    {
        let mut lines: Vec<Line> = Vec::new();
        let total: usize = self.width();
        if total == 0 || self.streaming.as_str().is_empty() {
            assert(seqs::views(lines@) =~= Seq::<Seq<style::SpanView>>::empty());
            self.wrapped_stream = lines;
            return ;
        }
        if self.wrapped.len() > 0 {
            lines.push(Line::blank());
        }
        let ghost head = seqs::views(lines@);
        let made = wrap::format_lines(self.stream_kind, self.streaming.as_str());
        wrap::wrap_lines_into(&mut lines, &made, total, self.stream_kind);
        proof {
            assert(self@.wrapped.len() == self.wrapped@.len());
            assert(self@.wrapped.len() > 0 ==> head =~= seq![style::blank_line()]);
            assert(seqs::views(lines@) =~= self@.stream_lines());
        }
        self.wrapped_stream = lines;
    }

    pub(super) fn width_at(&self, idx: usize) -> (w: usize)
        ensures
            w == self@.width_at(idx as nat),
    {
        let n: usize = self.wrapped.len();
        if idx < n {
            assert(self@.lines()[idx as int] == self.wrapped@[idx as int]@);
            wrap::line_display_width(&self.wrapped[idx])
        } else if idx - n < self.wrapped_stream.len() {
            assert(self@.lines()[idx as int] == self.wrapped_stream@[idx - n]@);
            wrap::line_display_width(&self.wrapped_stream[idx - n])
        } else {
            0
        }
    }

    fn clamp_pos(&self, pos: SelPos, last: usize) -> (out: SelPos)
        ensures
            out == self@.clamped(pos, last as nat),
    {
        let line: usize = if pos.line <= last {
            pos.line
        } else {
            last
        };
        let w: usize = self.width_at(line);
        SelPos {
            line,
            col: if pos.col <= w {
                pos.col
            } else {
                w
            },
        }
    }

    pub(super) fn clear_selection(&mut self)
        ensures
            final(self)@ == old(self)@.unselected(),
    {
        self.select_anchor = None;
        self.select_head = None;
        self.dragging = false;
    }

    /// Events land mid-drag on every tool call, so a rewrap must never drop an
    /// in-progress selection: both ends are clamped into the new line range.
    fn reanchor_selection(&mut self)
        ensures
            final(self)@ == old(self)@.reanchored(),
    {
        let total: usize = self.total_lines();
        if total == 0 {
            self.clear_selection();
            return ;
        }
        let last: usize = total - 1;
        let anchor = match self.select_anchor {
            Some(pos) => Some(self.clamp_pos(pos, last)),
            None => None,
        };
        let head = match self.select_head {
            Some(pos) => Some(self.clamp_pos(pos, last)),
            None => None,
        };
        self.select_anchor = anchor;
        self.select_head = head;
    }

    /// Draws everything anew and keeps the selection.
    pub fn rewrap_all(&mut self)
        ensures
            final(self)@ == old(self)@.rewrapped(),
            final(self)@.area == old(self)@.area,
            final(self)@.top == old(self)@.top,
            final(self)@.rows.len() == old(self)@.rows.len(),
            final(self)@.burst_row == old(self)@.burst_row,
            final(self)@.thinking_row == old(self)@.thinking_row,
    {
        proof {
            reveal(TranscriptView::rewrapped);
        }
        let ghost v = self@;
        self.wrapped = Vec::new();
        let n: usize = self.rows.len();
        let mut i: usize = 0;
        proof {
            assert(seqs::views(self.wrapped@) =~= Seq::<Seq<style::SpanView>>::empty());
        }
        while i < n
            invariant
                i <= n == self.rows@.len() == v.rows.len(),
                self@ == (TranscriptView {
                    rows: self@.rows,
                    wrapped: if v.width() == 0 {
                        Seq::empty()
                    } else {
                        v.lines_upto(i as nat)
                    },
                    ..v
                }),
                forall|j: int| i <= j < n ==> self@.rows[j] == v.rows[j],
                forall|j: int|
                    0 <= j < i ==> #[trigger] self@.rows[j] == (RowView {
                        headers: if v.width() == 0 {
                            Seq::empty()
                        } else {
                            v.headers_of(j as nat)
                        },
                        ..v.rows[j]
                    }),
            decreases n - i,
        {
            let ghost before = self@;
            self.wrap_row(i);
            proof {
                assert(before.limit_of(i as nat) == v.limit_of(i as nat));
                assert(self@.rows.len() == self.rows@.len());
            }
            i += 1;
        }
        assert(self@ =~= v.redrawn());
        self.rewrap_stream();
        self.reanchor_selection();
    }

    /// Folds every body that is not pinned.
    fn collapse_open(&mut self)
        ensures
            final(self)@ == old(self)@.folded(),
            final(self)@.rows.len() == old(self)@.rows.len(),
            final(self)@.burst_row == old(self)@.burst_row,
            final(self)@.thinking_row == old(self)@.thinking_row,
    {
        proof {
            reveal(TranscriptView::folded);
        }
        let ghost v = self@;
        let changed = fold_rows(&mut self.rows);
        assert(self@ =~= TranscriptView { rows: self@.rows, ..v });
        if changed {
            self.rewrap_all();
        }
    }

    /// Appends the row and tracks it as the thinking row awaiting a duration.
    fn append_row(&mut self, kind: LineKind, t: String, body: Option<Collapsible>)
        requires
            old(self)@.wf(),
        ensures
            final(self)@ == old(self)@.with_row(kind, t@, body_view(body)),
            final(self)@.wf(),
            final(self)@.rows.len() == old(self)@.rows.len() + 1,
    {
        proof {
            reveal(TranscriptView::with_row);
        }
        let ghost v = self@;
        let ghost row = RowView {
            kind,
            text: t@,
            collapsible: body_view(body),
            headers: Seq::empty(),
        };
        let idx: usize = self.rows.len();
        self.rows.push(Row { kind, text: t, collapsible: body, headers: Vec::new() });
        proof {
            assert(self.rows@.last()@ =~= row);
            assert(self@.rows =~= v.rows.push(row));
        }
        self.wrap_row(idx);
        if kind == LineKind::Thinking {
            self.thinking_row = Some(idx);
        }
        assert(self@ =~= v.with_row(kind, row.text, row.collapsible));
    }

    fn push_row_with_detail(&mut self, kind: LineKind, t: String, body: Option<Collapsible>)
        requires
            old(self)@.wf(),
        ensures
            final(self)@ == old(self)@.with_folding_row(kind, t@, body_view(body)),
            final(self)@.wf(),
            final(self)@.rows.len() == old(self)@.rows.len() + 1,
    {
        proof {
            reveal(TranscriptView::with_folding_row);
        }
        self.collapse_open();
        self.append_row(kind, t, body);
    }

    /// Appends a row of the given kind and folds the bodies before it.
    pub fn push_row(&mut self, kind: LineKind, t: &str)
        requires
            old(self)@.wf(),
        ensures
            final(self)@ == old(self)@.with_message(kind, t@),
            final(self)@.wf(),
    {
        proof {
            reveal(TranscriptView::with_message);
        }
        match kind {
            LineKind::ToolResult(_) => {
                let body = Collapsible::new(t.to_owned());
                self.push_row_with_detail(kind, RESULT_LABEL.to_owned(), Some(body));
            },
            LineKind::Thinking => {
                self.push_row_with_detail(kind, THOUGHT_LABEL.to_owned(), None);
            },
            LineKind::ShellResult(_) => {
                self.push_row_with_detail(
                    kind,
                    wrap::tail_lines(t, MAX_SHELL_DISPLAY_LINES),
                    None,
                );
            },
            _ => {
                self.push_row_with_detail(kind, t.to_owned(), None);
            },
        }
    }

    /// Ends the run of tool calls: its row folds.
    fn close_tool_burst(&mut self)
        requires
            old(self)@.wf(),
        ensures
            final(self)@ == old(self)@.with_burst_closed(),
            final(self)@.wf(),
    {
        proof {
            reveal(TranscriptView::with_burst_closed);
        }
        let ghost v = self@;
        self.tool_burst = ToolBurst::new();
        if let Some(row) = self.burst_row {
            self.burst_row = None;
            let _changed = self.rows[row].fold();
            proof {
                let next = TranscriptView {
                    tool_burst: tools::empty_burst(),
                    burst_row: None,
                    rows: v.rows.update(row as int, model::folded_row(v.rows[row as int])),
                    ..v
                };
                assert(self@ =~= next);
            }
            self.rewrap_all();
        }
    }

    /// Appends the user's message and follows it to the bottom.
    pub fn push_user(&mut self, t: &str)
        requires
            old(self)@.wf(),
        ensures
            final(self)@ == old(self)@.with_user(t@),
            final(self)@.wf(),
    {
        proof {
            reveal(TranscriptView::with_user);
        }
        self.close_tool_burst();
        self.push_row(LineKind::User, t);
        self.top = None;
    }

    /// Appends a shell command and follows it to the bottom.
    pub fn push_shell_command(&mut self, command: &str)
        requires
            old(self)@.wf(),
        ensures
            final(self)@ == old(self)@.with_shell(command@),
            final(self)@.wf(),
    {
        proof {
            reveal(TranscriptView::with_shell);
        }
        self.close_tool_burst();
        self.push_row(LineKind::Shell, command);
        self.top = None;
    }

    /// Appends the output of a shell command.
    pub fn push_shell_output(&mut self, output: &str, ok: bool)
        requires
            old(self)@.wf(),
        ensures
            final(self)@ == old(self)@.with_shell_output(output@, ok),
            final(self)@.wf(),
    {
        proof {
            reveal(TranscriptView::with_shell_output);
        }
        self.close_tool_burst();
        let trimmed = wrap::trim_message(output);
        if trimmed.as_str().is_empty() {
            self.push_row(LineKind::ShellResult(ok), NO_OUTPUT);
        } else {
            self.push_row(LineKind::ShellResult(ok), trimmed.as_str());
        }
    }

    fn push_result_row(&mut self, ok: bool, output: &str)
        requires
            old(self)@.wf(),
        ensures
            final(self)@ == old(self)@.with_result(ok, output@),
            final(self)@.wf(),
    {
        proof {
            reveal(TranscriptView::with_result);
        }
        let body = wrap::trim_message(output);
        let empty = body.as_str().is_empty();
        if ok && empty {
            return ;
        }
        if empty {
            self.push_row(LineKind::ToolResult(ok), NO_OUTPUT);
        } else {
            self.push_row(LineKind::ToolResult(ok), body.as_str());
        }
    }

    fn push_thinking(&mut self, title: &str, t: &str)
        requires
            old(self)@.wf(),
        ensures
            final(self)@ == old(self)@.with_thinking(title@, t@),
            final(self)@.wf(),
    {
        proof {
            reveal(TranscriptView::with_thinking);
        }
        let ghost v = self@;
        let n: usize = self.rows.len();
        if n > 0 && self.rows[n - 1].kind == LineKind::Thinking
            && self.rows[n - 1].collapsible.is_some() {
            self.rows[n - 1].text = title.to_owned();
            if let Some(body) = &mut self.rows[n - 1].collapsible {
                body.append(t);
            }
            proof {
                let body = v.rows[n - 1].collapsible->0;
                let next = TranscriptView {
                    rows: v.rows.update(
                        n - 1,
                        RowView {
                            text: title@,
                            collapsible: Some(
                                collapsible::CollapsibleView {
                                    sections: collapsible::appended(body.sections, t@),
                                    ..body
                                },
                            ),
                            ..v.rows[n - 1]
                        },
                    ),
                    ..v
                };
                assert(self@ =~= next);
            }
            self.rewrap_all();
            return ;
        }
        let body = Collapsible::new(t.to_owned());
        self.push_row_with_detail(LineKind::Thinking, title.to_owned(), Some(body));
    }

    fn upsert_tool_summary(&mut self)
        requires
            old(self)@.wf(),
        ensures
            final(self)@ == old(self)@.with_burst_row(),
            final(self)@.wf(),
    {
        proof {
            reveal(TranscriptView::with_burst_row);
        }
        let ghost v = self@;
        let title = self.tool_burst.title();
        let sections = self.tool_burst.sections();
        let ghost made = collapsible::section_views(sections@);
        if let Some(row) = self.burst_row {
            self.rows[row].text = title;
            if let Some(body) = &mut self.rows[row].collapsible {
                body.replace_sections(sections);
            }
            proof {
                let next = TranscriptView {
                    rows: v.rows.update(
                        row as int,
                        RowView {
                            text: tools::title_text(v.tool_burst),
                            collapsible: match v.rows[row as int].collapsible {
                                Some(c) => Some(
                                    collapsible::CollapsibleView { sections: made, ..c },
                                ),
                                None => None,
                            },
                            ..v.rows[row as int]
                        },
                    ),
                    ..v
                };
                assert(self@ =~= next);
            }
        } else {
            let body = Collapsible::from_sections(sections);
            self.push_row_with_detail(LineKind::Tool, title, Some(body));
            let n: usize = self.rows.len();
            assert(n == self@.rows.len());
            self.burst_row = Some(n - 1);
        }
        self.rewrap_all();
    }

    fn note_tool_start(&mut self, call_id: &str, view: &ToolView)
        requires
            old(self)@.wf(),
        ensures
            final(self)@ == old(self)@.with_tool_started(call_id@, *view),
            final(self)@.wf(),
    {
        proof {
            reveal(TranscriptView::with_tool_started);
        }
        if !view.collapse {
            self.close_tool_burst();
            self.detail_ids.insert(call_id.to_owned(), view.detail.is_some());
            match &view.detail {
                Some(t) => {
                    let body = Collapsible::new(t.clone());
                    self.push_row_with_detail(LineKind::Diff, view.summary.clone(), Some(body));
                },
                None => {
                    self.push_row_with_detail(LineKind::Tool, view.summary.clone(), None);
                },
            }
            return ;
        }
        let detail = match &view.detail {
            Some(t) => Some(t.as_str()),
            None => None,
        };
        self.tool_burst.start(call_id.to_owned(), view.summary.as_str(), detail);
        self.upsert_tool_summary();
    }

    fn note_tool_end(&mut self, call_id: &str, ok: bool, output: &str)
        requires
            old(self)@.wf(),
        ensures
            final(self)@ == old(self)@.with_tool_ended(call_id@, ok, output@),
            final(self)@.wf(),
    {
        proof {
            reveal(TranscriptView::with_tool_ended);
        }
        let ghost v = self@;
        let error = if ok {
            None
        } else {
            Some(output)
        };
        if self.tool_burst.finish(call_id, !ok, error) {
            if !ok {
                self.upsert_tool_summary();
            }
            return ;
        }
        assert(self@ =~= v);
        if let Some(has_detail) = self.detail_ids.remove(call_id) {
            if !has_detail || !ok {
                self.push_result_row(ok, output);
            }
            return ;
        }
        assert(self@.detail_ids =~= v.detail_ids);
        if !ok {
            self.push_row(LineKind::System, output);
        }
    }

    fn note_seed_result(&mut self, id: &str, is_error: bool, content: &Vec<ContentBlock>)
        requires
            old(self)@.wf(),
        ensures
            final(self)@ == old(self)@.with_seed_result(id@, is_error, content@),
            final(self)@.wf(),
    {
        proof {
            reveal(TranscriptView::with_seed_result);
        }
        let ghost v = self@;
        let output = result_text(content);
        if let Some(has_detail) = self.detail_ids.remove(id) {
            if !has_detail || is_error {
                self.push_result_row(!is_error, output.as_str());
            }
            return ;
        }
        assert(self@ =~= v);
        let error = if is_error {
            Some(output.as_str())
        } else {
            None
        };
        if self.tool_burst.finish(id, is_error, error) && is_error {
            self.upsert_tool_summary();
        }
    }

    fn clear_stream(&mut self)
        ensures
            final(self)@ == old(self)@.without_stream(),
    {
        self.streaming = String::new();
        self.wrapped_stream = Vec::new();
        assert(self@ =~= old(self)@.without_stream());
    }

    fn flush_streaming(&mut self)
        requires
            old(self)@.wf(),
        ensures
            final(self)@ == old(self)@.with_stream_flushed(),
            final(self)@.wf(),
    {
        proof {
            reveal(TranscriptView::with_stream_flushed);
        }
        let body = wrap::trim_message(self.streaming.as_str());
        self.clear_stream();
        if !body.as_str().is_empty() {
            self.append_row(self.stream_kind, body, None);
        }
    }

    /// Adds streamed text; text of another kind becomes a row first.
    pub fn push_stream(&mut self, kind: LineKind, t: &str)
        requires
            old(self)@.wf(),
        ensures
            final(self)@ == old(self)@.with_streamed(kind, t@),
            final(self)@.wf(),
    {
        proof {
            reveal(TranscriptView::with_streamed);
        }
        if t.is_empty() {
            return ;
        }
        if !self.streaming.as_str().is_empty() && self.stream_kind != kind {
            self.flush_streaming();
        }
        if self.streaming.as_str().is_empty() {
            self.collapse_open();
        }
        self.stream_kind = kind;
        self.streaming.append(t);
    }

    /// Streaming is over for the row, so it collapses: its windowed body stops
    /// here and an expanded row would blank the screen until the next row.
    fn retire_thinking(&mut self, title: String)
        requires
            old(self)@.wf(),
        ensures
            final(self)@ == old(self)@.with_thinking_retired(title@),
            final(self)@.wf(),
    {
        proof {
            reveal(TranscriptView::with_thinking_retired);
        }
        let ghost v = self@;
        let ghost t = title@;
        if let Some(row) = self.thinking_row {
            self.thinking_row = None;
            let _changed = self.rows[row].fold();
            self.rows[row].text = title;
            proof {
                let next = TranscriptView {
                    thinking_row: None,
                    rows: v.rows.update(
                        row as int,
                        RowView { text: t, ..model::folded_row(v.rows[row as int]) },
                    ),
                    ..v
                };
                assert(self@ =~= next);
            }
            self.rewrap_all();
        }
    }

    /// Settles the live thinking row on the label, for reasoning the agent
    /// never reported a span for (a cancelled or interrupted window).
    fn stop_live_thinking(&mut self)
        requires
            old(self)@.wf(),
        ensures
            final(self)@ == old(self)@.with_thinking_stopped(),
            final(self)@.wf(),
    {
        self.retire_thinking(THOUGHT_LABEL.to_owned());
    }

    /// The agent owns the thinking clock; the transcript only renders the
    /// duration it reports. Reporting retires the row so nothing settles it
    /// back onto the bare label.
    fn report_thinking_done(&mut self, duration_ms: u64)
        requires
            old(self)@.wf(),
        ensures
            final(self)@ == old(self)@.with_thinking_retired(
                wrap::thought_text(Some(duration_ms)),
            ),
            final(self)@.wf(),
    {
        self.retire_thinking(wrap::format_thought(Some(duration_ms)));
    }

    /// Empties the transcript.
    pub fn reset(&mut self)
        ensures
            final(self)@ == old(self)@.cleared(),
            final(self)@.wf(),
    {
        self.rows = Vec::new();
        self.wrapped = Vec::new();
        self.streaming = String::new();
        self.wrapped_stream = Vec::new();
        self.top = None;
        self.select_anchor = None;
        self.select_head = None;
        self.dragging = false;
        self.hovered_collapsible = None;
        self.last_collapsible_click = None;
        self.tool_burst = ToolBurst::new();
        self.burst_row = None;
        self.detail_ids.clear();
        self.thinking_row = None;
        assert(self@ =~= old(self)@.cleared());
    }

    fn seed_user_blocks(&mut self, blocks: &Vec<ContentBlock>)
        requires
            old(self)@.wf(),
        ensures
            final(self)@ == old(self)@.with_user_blocks(blocks@),
            final(self)@.wf(),
    {
        let ghost v = self@;
        let mut i: usize = 0;
        assert(blocks@.take(0) =~= Seq::<ContentBlock>::empty());
        while i < blocks.len()
            invariant
                i <= blocks@.len(),
                self@.wf(),
                self@ == v.with_user_blocks(blocks@.take(i as int)),
            decreases blocks.len() - i,
        {
            proof {
                let now = blocks@.take(i + 1);
                assert(now.drop_last() =~= blocks@.take(i as int));
                assert(now.last() == blocks@[i as int]);
            }
            match &blocks[i] {
                ContentBlock::Text { text } => {
                    self.close_tool_burst();
                    self.push_row(LineKind::User, text.as_str());
                },
                ContentBlock::Shell { command, output, ok } => {
                    self.close_tool_burst();
                    self.push_shell_command(command.as_str());
                    self.push_shell_output(output.as_str(), *ok);
                },
                ContentBlock::ToolResult { tool_use_id, content, is_error } => {
                    self.note_seed_result(tool_use_id.as_str(), *is_error, content);
                },
                _ => {},
            }
            i += 1;
        }
        assert(blocks@.take(blocks@.len() as int) =~= blocks@);
    }

    fn seed_tool_blocks(&mut self, blocks: &Vec<ContentBlock>)
        requires
            old(self)@.wf(),
        ensures
            final(self)@ == old(self)@.with_tool_blocks(blocks@),
            final(self)@.wf(),
    {
        let ghost v = self@;
        let mut i: usize = 0;
        assert(blocks@.take(0) =~= Seq::<ContentBlock>::empty());
        while i < blocks.len()
            invariant
                i <= blocks@.len(),
                self@.wf(),
                self@ == v.with_tool_blocks(blocks@.take(i as int)),
            decreases blocks.len() - i,
        {
            proof {
                let now = blocks@.take(i + 1);
                assert(now.drop_last() =~= blocks@.take(i as int));
                assert(now.last() == blocks@[i as int]);
            }
            if let ContentBlock::ToolResult { tool_use_id, content, is_error } = &blocks[i] {
                self.note_seed_result(tool_use_id.as_str(), *is_error, content);
            }
            i += 1;
        }
        assert(blocks@.take(blocks@.len() as int) =~= blocks@);
    }

    fn seed_answer_blocks(
        &mut self,
        blocks: &Vec<ContentBlock>,
        thinking_ms: Option<u64>,
        reasoning: bool,
    )
        requires
            old(self)@.wf(),
        ensures
            final(self)@ == old(self)@.with_answer_blocks(blocks@, thinking_ms, reasoning),
            final(self)@.wf(),
    {
        let ghost v = self@;
        let mut i: usize = 0;
        assert(blocks@.take(0) =~= Seq::<ContentBlock>::empty());
        while i < blocks.len()
            invariant
                i <= blocks@.len(),
                self@.wf(),
                self@ == v.with_answer_blocks(blocks@.take(i as int), thinking_ms, reasoning),
            decreases blocks.len() - i,
        {
            proof {
                let now = blocks@.take(i + 1);
                assert(now.drop_last() =~= blocks@.take(i as int));
                assert(now.last() == blocks@[i as int]);
            }
            match &blocks[i] {
                ContentBlock::Thinking { thinking } => {
                    if reasoning {
                        self.close_tool_burst();
                        let title = wrap::format_thought(thinking_ms);
                        self.push_thinking(title.as_str(), thinking.as_str());
                    }
                },
                ContentBlock::Text { text } => {
                    if !reasoning {
                        let body = wrap::trim_message(text.as_str());
                        if !body.as_str().is_empty() {
                            self.close_tool_burst();
                            self.push_row(LineKind::Text, body.as_str());
                        }
                    }
                },
                ContentBlock::ToolUse { id, view } => {
                    if !reasoning {
                        self.note_tool_start(id.as_str(), view);
                    }
                },
                _ => {},
            }
            i += 1;
        }
        assert(blocks@.take(blocks@.len() as int) =~= blocks@);
    }

    fn seed_messages(&mut self, messages: &Vec<Message>, timed: bool)
        requires
            old(self)@.wf(),
        ensures
            final(self)@ == old(self)@.seeded(
                if timed {
                    messages@
                } else {
                    model::untimed(messages@)
                },
            ),
            final(self)@.wf(),
    {
        let ghost v = self@;
        let ghost told = if timed {
            messages@
        } else {
            model::untimed(messages@)
        };
        let mut i: usize = 0;
        assert(told.take(0) =~= Seq::<Message>::empty());
        while i < messages.len()
            invariant
                i <= messages@.len(),
                told == (if timed {
                    messages@
                } else {
                    model::untimed(messages@)
                }),
                self@.wf(),
                self@ == v.with_messages(told.take(i as int)),
            decreases messages.len() - i,
        {
            proof {
                reveal(TranscriptView::with_history_message);
                let now = told.take(i + 1);
                assert(now.drop_last() =~= told.take(i as int));
                assert(now.last() == told[i as int]);
            }
            let m = &messages[i];
            match m.role {
                Role::User => {
                    self.seed_user_blocks(&m.content);
                },
                Role::Tool => {
                    self.seed_tool_blocks(&m.content);
                },
                Role::Assistant => {
                    let thinking_ms = if timed {
                        m.thinking_ms
                    } else {
                        None
                    };
                    // Providers that open the text block first persist the
                    // reasoning after the answer; live events always put
                    // reasoning first, so the seeded transcript renders the
                    // same order.
                    self.seed_answer_blocks(&m.content, thinking_ms, true);
                    self.seed_answer_blocks(&m.content, thinking_ms, false);
                },
                Role::System => {},
            }
            i += 1;
        }
        proof {
            reveal(TranscriptView::seeded);
            assert(told.take(messages@.len() as int) =~= told);
        }
        self.close_tool_burst();
        // Seeded rows carry their durations already, so none of them is still
        // awaiting the live clock that would keep its body windowed.
        self.thinking_row = None;
        self.collapse_open();
    }

    /// Pre-fills the transcript from a persisted session's messages when
    /// resuming, without saying how long the reasoning took. Renders the same row
    /// kinds the live event stream produces; images are skipped since they cannot
    /// be drawn in a terminal.
    pub fn seed(&mut self, messages: &Vec<Message>)
        requires
            old(self)@.wf(),
        ensures
            final(self)@ == old(self)@.seeded(model::untimed(messages@)),
            final(self)@.wf(),
    {
        self.seed_messages(messages, false);
    }

    /// Pre-fills the transcript as `seed` does, and says how long the reasoning
    /// took where that is known.
    pub fn seed_timed(&mut self, messages: &Vec<Message>)
        requires
            old(self)@.wf(),
        ensures
            final(self)@ == old(self)@.seeded(messages@),
            final(self)@.wf(),
    {
        self.seed_messages(messages, true);
    }

    /// Puts the messages of a history in the place of everything there is.
    pub fn replace_from_timed(&mut self, messages: &Vec<Message>)
        ensures
            final(self)@ == old(self)@.cleared().seeded(messages@),
            final(self)@.wf(),
    {
        self.reset();
        self.seed_timed(messages);
    }

    fn note_cancelled(&mut self)
        requires
            old(self)@.wf(),
        ensures
            final(self)@ == old(self)@.with_cancelled(),
            final(self)@.wf(),
    {
        proof {
            reveal(TranscriptView::with_cancelled);
        }
        self.close_tool_burst();
        self.stop_live_thinking();
        if !self.streaming.as_str().is_empty() {
            let mut partial = wrap::trim_message(self.streaming.as_str());
            self.clear_stream();
            if !partial.as_str().is_empty() {
                partial.append("…");
                self.append_row(self.stream_kind, partial, None);
            }
        }
        self.push_row(LineKind::System, "cancelled");
    }

    fn on_agent_event(&mut self, event: &AgentEvent)
        requires
            old(self)@.wf(),
        ensures
            final(self)@ == old(self)@.after(AppEvent::Agent(*event)),
            final(self)@.wf(),
    {
        match event {
            AgentEvent::ThinkingDelta { text } => {
                self.close_tool_burst();
                self.push_thinking(THINKING_LABEL, text.as_str());
            },
            AgentEvent::ThinkingDone { duration_ms } => {
                self.report_thinking_done(*duration_ms);
            },
            AgentEvent::TextDelta { text } => {
                self.close_tool_burst();
                self.stop_live_thinking();
                self.push_stream(LineKind::Text, text.as_str());
            },
            AgentEvent::ApprovalRequested { view } => {
                self.stop_live_thinking();
                self.flush_streaming();
                let notice = text::concat("approval required: ", view.summary.as_str());
                self.push_row(LineKind::System, notice.as_str());
            },
            AgentEvent::ToolStarted { call_id, view } => {
                self.stop_live_thinking();
                self.flush_streaming();
                let id = text::decimal_of(*call_id);
                self.note_tool_start(id.as_str(), view);
            },
            AgentEvent::ToolFinished { call_id, result } => {
                let (ok, output) = match result {
                    ToolResult::Success { output } => (true, output.as_str()),
                    ToolResult::Failed { error, output } => (
                        false,
                        match output {
                            Some(t) => t.as_str(),
                            None => error.as_str(),
                        },
                    ),
                    ToolResult::Rejected { reason } => (false, reason.as_str()),
                    ToolResult::Cancelled => (false, "cancelled"),
                };
                let id = text::decimal_of(*call_id);
                self.note_tool_end(id.as_str(), ok, output);
            },
            AgentEvent::LoopLimitReached { max_iters } => {
                self.stop_live_thinking();
                self.flush_streaming();
                let mut notice = LOOP_LIMIT_REACHED.to_owned();
                notice.append(" (");
                notice.append(text::decimal_of(*max_iters as u64).as_str());
                notice.append(" iterations)");
                self.push_row(LineKind::System, notice.as_str());
            },
            AgentEvent::Completed { usage: _ } => {
                self.close_tool_burst();
                self.stop_live_thinking();
                self.flush_streaming();
            },
            AgentEvent::Cancelled => {
                self.note_cancelled();
            },
            AgentEvent::Failed { message } => {
                self.close_tool_burst();
                self.stop_live_thinking();
                self.flush_streaming();
                self.push_row(LineKind::Error, message.as_str());
            },
            AgentEvent::ToolOutputDelta
            | AgentEvent::TurnStarted
            | AgentEvent::UsageReported
            | AgentEvent::TodosChanged { .. } => {},
        }
    }

    /// Brings the transcript up to date with an event of the session.
    pub fn on_event(&mut self, ev: &AppEvent)
        requires
            old(self)@.wf(),
        ensures
            final(self)@ == old(self)@.after(*ev),
            final(self)@.wf(),
    {
        match ev {
            AppEvent::Agent(event) => {
                self.on_agent_event(event);
            },
            AppEvent::Shell(event) => match event {
                ShellEvent::Started => {},
                ShellEvent::Finished { output, exit_code } => {
                    self.push_shell_output(output.as_str(), *exit_code == 0);
                },
                ShellEvent::Failed { error, output } => {
                    if output.as_str().is_empty() {
                        self.push_shell_output(error.as_str(), false);
                    } else {
                        self.push_shell_output(output.as_str(), false);
                    }
                },
            },
            AppEvent::CompactionCompleted => {
                self.push_row(LineKind::System, "context compacted");
            },
            AppEvent::Error { message } => {
                self.close_tool_burst();
                self.flush_streaming();
                self.push_row(LineKind::Error, message.as_str());
            },
            AppEvent::CompactionStarted
            | AppEvent::StateChanged(_)
            | AppEvent::Exited
            | AppEvent::Idle
            | AppEvent::Rewound
            | AppEvent::Notification { .. } => {},
        }
    }

    /// The text of the user's last message or command, as it would be typed
    /// again.
    pub fn last_user_text(&self) -> (out: Option<String>)
        ensures
            event::text_view(out) == TranscriptView::last_prompt(self@.rows),
    {
        let mut i: usize = self.rows.len();
        assert(self@.rows.take(i as int) =~= self@.rows);
        while i > 0
            invariant
                i <= self.rows@.len() == self@.rows.len(),
                TranscriptView::last_prompt(self@.rows) == TranscriptView::last_prompt(
                    self@.rows.take(i as int),
                ),
            decreases i,
        {
            i -= 1;
            let row = &self.rows[i];
            proof {
                let now = self@.rows.take(i + 1);
                assert(now.drop_last() =~= self@.rows.take(i as int));
                assert(now.last() == row@);
            }
            match row.kind {
                LineKind::User => {
                    return Some(row.text.clone());
                },
                LineKind::Shell => {
                    return Some(text::concat("! ", row.text.as_str()));
                },
                _ => {},
            }
        }
        None
    }
}

} // verus!
