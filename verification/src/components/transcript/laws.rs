//! What holds of the transcript whatever happens to it.
use vstd::prelude::*;

use super::super::event;
use super::super::event::{
    AgentEvent, AppEvent, ContentBlock, Message, ShellEvent, ToolResult, ToolView,
};
use super::collapsible;
use super::kinds::LineKind;
use super::model;
use super::model::{RowView, TranscriptView};
use super::selection;
use super::selection::SelPos;
use super::tools;
use super::wrap;
use crate::keys::MouseEvent;
use crate::style;
use crate::text;

verus! {

proof fn lemma_rewrapped_keeps_top(v: TranscriptView)
    ensures
        v.rewrapped().top == v.top,
        v.rewrapped().streaming == v.streaming,
        v.rewrapped().rows.len() == v.rows.len(),
{
    reveal(TranscriptView::rewrapped);
}

proof fn lemma_folded_keeps_top(v: TranscriptView)
    ensures
        v.folded().top == v.top,
        v.folded().streaming == v.streaming,
{
    reveal(TranscriptView::folded);
    lemma_rewrapped_keeps_top(TranscriptView { rows: model::folded_rows(v.rows), ..v });
}

proof fn lemma_with_row_keeps_top(
    v: TranscriptView,
    kind: LineKind,
    t: Seq<char>,
    body: Option<collapsible::CollapsibleView>,
)
    ensures
        v.with_row(kind, t, body).top == v.top,
        v.with_folding_row(kind, t, body).top == v.top,
{
    reveal(TranscriptView::with_row);
    reveal(TranscriptView::with_folding_row);
    lemma_folded_keeps_top(v);
}

proof fn lemma_with_message_keeps_top(v: TranscriptView, kind: LineKind, t: Seq<char>)
    ensures
        v.with_message(kind, t).top == v.top,
{
    reveal(TranscriptView::with_message);
    lemma_with_row_keeps_top(v, kind, wrap::RESULT_LABEL@, Some(model::text_body(t)));
    lemma_with_row_keeps_top(v, kind, wrap::THOUGHT_LABEL@, None);
    lemma_with_row_keeps_top(
        v,
        kind,
        wrap::tail_text(t, wrap::MAX_SHELL_DISPLAY_LINES as nat),
        None,
    );
    lemma_with_row_keeps_top(v, kind, t, None);
}

proof fn lemma_burst_closed_keeps_top(v: TranscriptView)
    ensures
        v.with_burst_closed().top == v.top,
{
    reveal(TranscriptView::with_burst_closed);
    if let Some(r) = v.burst_row {
        lemma_rewrapped_keeps_top(
            TranscriptView {
                tool_burst: tools::empty_burst(),
                burst_row: None,
                rows: v.rows.update(r as int, model::folded_row(v.rows[r as int])),
                ..v
            },
        );
    }
}

proof fn lemma_thinking_keeps_top(v: TranscriptView, title: Seq<char>, t: Seq<char>)
    ensures
        v.with_thinking(title, t).top == v.top,
        v.with_thinking_retired(title).top == v.top,
        v.with_thinking_stopped().top == v.top,
{
    reveal(TranscriptView::with_thinking);
    reveal(TranscriptView::with_thinking_retired);
    reveal(TranscriptView::rewrapped);
    lemma_with_row_keeps_top(v, LineKind::Thinking, title, Some(model::text_body(t)));
}

proof fn lemma_stream_keeps_top(v: TranscriptView, kind: LineKind, t: Seq<char>)
    ensures
        v.with_stream_flushed().top == v.top,
        v.with_streamed(kind, t).top == v.top,
{
    reveal(TranscriptView::with_stream_flushed);
    reveal(TranscriptView::with_streamed);
    lemma_with_row_keeps_top(
        v.without_stream(),
        v.stream_kind,
        wrap::message_text(v.streaming),
        None,
    );
    lemma_folded_keeps_top(v);
    lemma_folded_keeps_top(v.with_stream_flushed());
}

proof fn lemma_burst_row_keeps_top(v: TranscriptView)
    ensures
        v.with_burst_row().top == v.top,
{
    reveal(TranscriptView::with_burst_row);
    reveal(TranscriptView::rewrapped);
    let title = tools::title_text(v.tool_burst);
    let sections = tools::burst_sections(v.tool_burst.calls);
    lemma_with_row_keeps_top(
        v,
        LineKind::Tool,
        title,
        Some(collapsible::CollapsibleView { sections, expanded: true, pinned: false }),
    );
}

proof fn lemma_tools_keep_top(
    v: TranscriptView,
    id: Seq<char>,
    view: ToolView,
    ok: bool,
    output: Seq<char>,
)
    ensures
        v.with_tool_started(id, view).top == v.top,
        v.with_tool_ended(id, ok, output).top == v.top,
{
    reveal(TranscriptView::with_tool_started);
    reveal(TranscriptView::with_tool_ended);
    reveal(TranscriptView::with_result);
    let started = TranscriptView {
        tool_burst: tools::after_start(
            v.tool_burst,
            id,
            view.summary@,
            event::text_view(view.detail),
        ),
        ..v
    };
    lemma_burst_row_keeps_top(started);
    lemma_burst_closed_keeps_top(v);
    let closed = v.with_burst_closed();
    let noted = TranscriptView {
        detail_ids: closed.detail_ids.insert(id, view.detail is Some),
        ..closed
    };
    lemma_with_row_keeps_top(noted, LineKind::Tool, view.summary@, None);
    if let Some(t) = view.detail {
        lemma_with_row_keeps_top(
            noted,
            LineKind::Diff,
            view.summary@,
            Some(model::text_body(t@)),
        );
    }
    let ended = TranscriptView {
        tool_burst: tools::after_finish(
            v.tool_burst,
            id,
            !ok,
            if ok {
                None
            } else {
                Some(output)
            },
        ),
        ..v
    };
    lemma_burst_row_keeps_top(ended);
    let taken = TranscriptView { detail_ids: v.detail_ids.remove(id), ..v };
    let body = wrap::message_text(output);
    lemma_with_message_keeps_top(taken, LineKind::ToolResult(ok), body);
    lemma_with_message_keeps_top(taken, LineKind::ToolResult(ok), "(no output)"@);
    lemma_with_message_keeps_top(v, LineKind::System, output);
}

proof fn lemma_shell_output_keeps_top(v: TranscriptView, output: Seq<char>, ok: bool)
    ensures
        v.with_shell_output(output, ok).top == v.top,
{
    reveal(TranscriptView::with_shell_output);
    lemma_burst_closed_keeps_top(v);
    let closed = v.with_burst_closed();
    lemma_with_message_keeps_top(closed, LineKind::ShellResult(ok), "(no output)"@);
    lemma_with_message_keeps_top(
        closed,
        LineKind::ShellResult(ok),
        wrap::message_text(output),
    );
}

proof fn lemma_cancelled_keeps_top(v: TranscriptView)
    ensures
        v.with_cancelled().top == v.top,
{
    reveal(TranscriptView::with_cancelled);
    lemma_burst_closed_keeps_top(v);
    let closed = v.with_burst_closed();
    lemma_thinking_keeps_top(closed, Seq::empty(), Seq::empty());
    let stopped = closed.with_thinking_stopped();
    let partial = wrap::message_text(stopped.streaming);
    lemma_with_row_keeps_top(
        stopped.without_stream(),
        stopped.stream_kind,
        partial + "…"@,
        None,
    );
    let flushed = if stopped.streaming.len() == 0 {
        stopped
    } else if partial.len() == 0 {
        stopped.without_stream()
    } else {
        stopped.without_stream().with_row(stopped.stream_kind, partial + "…"@, None)
    };
    lemma_with_message_keeps_top(flushed, LineKind::System, "cancelled"@);
}

/// No event of the session moves the view: a reader who scrolled up stays
/// where they are, and a view that follows the newest content keeps following.
pub proof fn events_keep_the_reading_position(v: TranscriptView, ev: AppEvent)
    ensures
        v.after(ev).top == v.top,
{
    lemma_burst_closed_keeps_top(v);
    let closed = v.with_burst_closed();
    match ev {
        AppEvent::Agent(event) => match event {
            AgentEvent::ThinkingDelta { text } => {
                lemma_thinking_keeps_top(closed, wrap::THINKING_LABEL@, text@);
            },
            AgentEvent::ThinkingDone { duration_ms } => {
                lemma_thinking_keeps_top(v, wrap::thought_text(Some(duration_ms)), Seq::empty());
            },
            AgentEvent::TextDelta { text } => {
                lemma_thinking_keeps_top(closed, Seq::empty(), Seq::empty());
                lemma_stream_keeps_top(closed.with_thinking_stopped(), LineKind::Text, text@);
            },
            AgentEvent::ApprovalRequested { view } => {
                lemma_thinking_keeps_top(v, Seq::empty(), Seq::empty());
                let stopped = v.with_thinking_stopped();
                lemma_stream_keeps_top(stopped, LineKind::Text, Seq::empty());
                lemma_with_message_keeps_top(
                    stopped.with_stream_flushed(),
                    LineKind::System,
                    "approval required: "@ + view.summary@,
                );
            },
            AgentEvent::ToolStarted { call_id, view } => {
                lemma_thinking_keeps_top(v, Seq::empty(), Seq::empty());
                let stopped = v.with_thinking_stopped();
                lemma_stream_keeps_top(stopped, LineKind::Text, Seq::empty());
                lemma_tools_keep_top(
                    stopped.with_stream_flushed(),
                    crate::text::decimal(call_id as nat),
                    view,
                    true,
                    Seq::empty(),
                );
            },
            AgentEvent::ToolFinished { call_id, result } => {
                let (ok, output) = TranscriptView::outcome(result);
                lemma_tool_ended_keeps_top(
                    v,
                    crate::text::decimal(call_id as nat),
                    ok,
                    output,
                );
            },
            AgentEvent::LoopLimitReached { max_iters } => {
                lemma_thinking_keeps_top(v, Seq::empty(), Seq::empty());
                let stopped = v.with_thinking_stopped();
                lemma_stream_keeps_top(stopped, LineKind::Text, Seq::empty());
                lemma_with_message_keeps_top(
                    stopped.with_stream_flushed(),
                    LineKind::System,
                    "agent loop limit reached"@ + " ("@ + crate::text::decimal(max_iters as nat)
                        + " iterations)"@,
                );
            },
            AgentEvent::Completed { usage } => {
                lemma_thinking_keeps_top(closed, Seq::empty(), Seq::empty());
                lemma_stream_keeps_top(
                    closed.with_thinking_stopped(),
                    LineKind::Text,
                    Seq::empty(),
                );
            },
            AgentEvent::Cancelled => {
                lemma_cancelled_keeps_top(v);
            },
            AgentEvent::Failed { message } => {
                lemma_thinking_keeps_top(closed, Seq::empty(), Seq::empty());
                let stopped = closed.with_thinking_stopped();
                lemma_stream_keeps_top(stopped, LineKind::Text, Seq::empty());
                lemma_with_message_keeps_top(
                    stopped.with_stream_flushed(),
                    LineKind::Error,
                    message@,
                );
            },
            _ => {},
        },
        AppEvent::Shell(event) => match event {
            ShellEvent::Started => {},
            ShellEvent::Finished { output, exit_code } => {
                lemma_shell_output_keeps_top(v, output@, exit_code == 0);
            },
            ShellEvent::Failed { error, output } => {
                lemma_shell_output_keeps_top(
                    v,
                    if output@.len() == 0 {
                        error@
                    } else {
                        output@
                    },
                    false,
                );
            },
        },
        AppEvent::CompactionCompleted => {
            lemma_with_message_keeps_top(v, LineKind::System, "context compacted"@);
        },
        AppEvent::Error { message } => {
            lemma_stream_keeps_top(closed, LineKind::Text, Seq::empty());
            lemma_with_message_keeps_top(
                closed.with_stream_flushed(),
                LineKind::Error,
                message@,
            );
        },
        _ => {},
    }
}

proof fn lemma_tool_ended_keeps_top(
    v: TranscriptView,
    id: Seq<char>,
    ok: bool,
    output: Seq<char>,
)
    ensures
        v.with_tool_ended(id, ok, output).top == v.top,
{
    let view = arbitrary();
    lemma_tools_keep_top(v, id, view, ok, output);
}

/// The user's own message brings the view back to the bottom.
pub proof fn own_messages_are_followed(v: TranscriptView, t: Seq<char>)
    ensures
        v.with_user(t).top is None,
        v.with_shell(t).top is None,
{
    reveal(TranscriptView::with_user);
    reveal(TranscriptView::with_shell);
}

/// A selection drawn from its end to its start selects the same text.
pub proof fn reversed_selection_is_the_same(v: TranscriptView)
    ensures
        ({
            let back = TranscriptView {
                select_anchor: v.select_head,
                select_head: v.select_anchor,
                ..v
            };
            &&& back.selection() == v.selection()
            &&& back.selected() == v.selected()
        }),
{
    let back = TranscriptView {
        select_anchor: v.select_head,
        select_head: v.select_anchor,
        ..v
    };
    if let Some((start, end)) = v.selection() {
        lemma_same_text(v, back, start, end, end.line as nat + 1);
    }
}

pub proof fn lemma_same_text(
    a: TranscriptView,
    b: TranscriptView,
    start: SelPos,
    end: SelPos,
    idx: nat,
)
    requires
        a.lines() == b.lines(),
    ensures
        a.text_between(start, end, idx) == b.text_between(start, end, idx),
    decreases idx,
{
    if idx > start.line {
        lemma_same_text(a, b, start, end, (idx - 1) as nat);
    }
}

/// A selection is copied when the mouse lets go of it: where the clipboard takes
/// the text the copy is reported, and the text stays selected.
pub proof fn selections_are_copied(v: TranscriptView, mouse: MouseEvent, now: u64)
    requires
        v.releases(mouse),
        v.at_release(mouse.column, mouse.row).selected() is Some,
    ensures
        v.mouse_answer(mouse, true) == (true, true),
        v.after_mouse(mouse, now, true).selected() == v.at_release(
            mouse.column,
            mouse.row,
        ).selected(),
        !v.after_mouse(mouse, now, true).dragging,
{
    let at = v.at_release(mouse.column, mouse.row);
    let ended = TranscriptView { dragging: false, ..at };
    let next = v.after_mouse(mouse, now, true);
    let (start, end) = at.selection()->0;
    lemma_same_text(at, ended, start, end, end.line as nat + 1);
    lemma_same_text(at, next, start, end, end.line as nat + 1);
}

/// Scrolling up from the bottom and down again by as much brings the view back
/// to following the newest content.
pub proof fn scrolling_back_follows_again(v: TranscriptView, n: u16)
    requires
        v.top is None,
    ensures
        v.scrolled_up(n).scrolled_down(n).top is None,
{
}

/// The view never shows more lines than it has rows.
pub proof fn screen_fits_the_view(v: TranscriptView, frame: u64, shades: Seq<u8>)
    ensures
        v.screen(frame, shades).len() <= v.height(),
{
}

/// Marking the selection changes no text on the screen.
pub proof fn selection_keeps_the_text(v: TranscriptView, idx: nat, frame: u64, shades: Seq<u8>)
    ensures
        style::line_text(v.screen_line(idx, frame, shades)) == style::line_text(
            v.painted(idx, frame, shades),
        ),
{
    let line = v.painted(idx, frame, shades);
    if let Some((start, end)) = v.selection() {
        if start.line <= idx <= end.line {
            selection::highlighting_keeps_the_text(
                line,
                if idx == start.line {
                    start.col as nat
                } else {
                    0
                },
                if idx == end.line {
                    end.col as nat
                } else {
                    wrap::line_cols(line)
                },
            );
        }
    }
}

proof fn lemma_folded_row_settles(row: RowView)
    ensures
        !model::would_fold(model::folded_row(row).collapsible),
{
}

/// After the bodies were folded, those that are open were opened by hand.
pub proof fn folding_leaves_only_pinned_open(v: TranscriptView, i: int)
    requires
        0 <= i < v.folded().rows.len(),
    ensures
        v.folded().rows[i].collapsible matches Some(c) ==> c.expanded ==> c.pinned,
{
    reveal(TranscriptView::folded);
    reveal(TranscriptView::rewrapped);
    lemma_folded_row_settles(v.rows[i]);
    assert(model::folded_rows(v.rows)[i] == model::folded_row(v.rows[i]));
}

/// A body that was opened by hand stays open when the others fold.
pub proof fn opened_by_hand_stays_open(v: TranscriptView, i: int)
    requires
        0 <= i < v.rows.len(),
        v.rows[i].collapsible matches Some(c) && c.expanded && c.pinned,
    ensures
        v.folded().rows[i].collapsible == v.rows[i].collapsible,
{
    reveal(TranscriptView::folded);
    reveal(TranscriptView::rewrapped);
    assert(model::folded_rows(v.rows)[i] == model::folded_row(v.rows[i]));
}

/// A restored history shows its bodies folded, but for those opened by hand.
pub proof fn history_is_restored_folded(v: TranscriptView, messages: Seq<Message>, i: int)
    requires
        0 <= i < v.seeded(messages).rows.len(),
    ensures
        v.seeded(messages).rows[i].collapsible matches Some(c) ==> c.expanded ==> c.pinned,
{
    reveal(TranscriptView::seeded);
    let before = TranscriptView {
        thinking_row: None,
        ..v.with_messages(messages).with_burst_closed()
    };
    folding_leaves_only_pinned_open(before, i);
}

/// An empty history restores an empty transcript.
pub proof fn empty_history_restores_nothing(v: TranscriptView)
    ensures
        v.cleared().seeded(Seq::empty()).rows.len() == 0,
        v.cleared().seeded(Seq::empty()).lines().len() == 0,
{
    reveal(TranscriptView::seeded);
    reveal(TranscriptView::with_burst_closed);
    reveal(TranscriptView::folded);
}

/// A header that is clicked stays where it is on the screen: its body grows
/// downward.
pub proof fn toggling_keeps_the_header_in_place(v: TranscriptView, row: nat, path: Seq<usize>)
    requires
        v.current_top() <= usize::MAX,
    ensures
        v.with_toggled(row, path).current_top() == v.current_top(),
{
    reveal(TranscriptView::with_toggled);
}

/// Drawing everything anew keeps a drag that is under way, as long as there is
/// a line to select.
pub proof fn rewrapping_keeps_the_drag(v: TranscriptView)
    requires
        v.rewrapped().total() > 0,
    ensures
        v.rewrapped().dragging == v.dragging,
        (v.rewrapped().select_anchor is Some) == (v.select_anchor is Some),
        (v.rewrapped().select_head is Some) == (v.select_head is Some),
{
    reveal(TranscriptView::rewrapped);
}

/// A call that the history holds is shown as it was when it began, with nothing
/// under way before it.
pub proof fn restored_calls_match_live_ones(
    v: TranscriptView,
    call_id: u64,
    id: String,
    view: ToolView,
)
    requires
        id@ == text::decimal(call_id as nat),
        v.thinking_row is None,
        v.streaming.len() == 0,
        v.wrapped_stream.len() == 0,
    ensures
        v.with_answer_blocks(seq![ContentBlock::ToolUse { id, view }], None, false) == v.after(
            AppEvent::Agent(AgentEvent::ToolStarted { call_id, view }),
        ),
{
    reveal(TranscriptView::with_thinking_retired);
    reveal(TranscriptView::with_stream_flushed);
    reveal_with_fuel(TranscriptView::with_answer_blocks, 2);
    let call = seq![ContentBlock::ToolUse { id, view }];
    assert(call.drop_last() =~= Seq::<ContentBlock>::empty());
    assert(wrap::message_text(v.streaming) =~= Seq::<char>::empty());
    assert(v.without_stream() =~= v);
}

/// A result that the history holds is shown as it was when it came, where the
/// call it answers is known to be in a burst or in a row of its own.
pub proof fn restored_results_match_live_ones(
    v: TranscriptView,
    call_id: u64,
    id: String,
    result: ToolResult,
    content: Vec<ContentBlock>,
    is_error: bool,
)
    requires
        id@ == text::decimal(call_id as nat),
        v.tool_burst.pending.dom().contains(id@) != v.detail_ids.dom().contains(id@),
        TranscriptView::outcome(result) == (
            !is_error,
            text::joined(model::result_texts(content@), "\n"@),
        ),
    ensures
        v.with_tool_blocks(
            seq![ContentBlock::ToolResult { tool_use_id: id, content, is_error }],
        ) == v.after(AppEvent::Agent(AgentEvent::ToolFinished { call_id, result })),
{
    reveal(TranscriptView::with_tool_ended);
    reveal(TranscriptView::with_seed_result);
    reveal_with_fuel(TranscriptView::with_tool_blocks, 2);
    let answer = seq![ContentBlock::ToolResult { tool_use_id: id, content, is_error }];
    assert(answer.drop_last() =~= Seq::<ContentBlock>::empty());
}

/// A row of reasoning never shows the reasoning itself in its title line.
pub proof fn reasoning_stays_hidden(t: Seq<char>)
    requires
        t != wrap::THINKING_LABEL@,
        !("Thought for"@).is_prefix_of(t),
    ensures
        wrap::formatted(LineKind::Thinking, t) == seq![
            style::pair_line(
                wrap::prefix_text(LineKind::Thinking),
                LineKind::Thinking.style(),
                wrap::THOUGHT_LABEL@,
                LineKind::Thinking.style(),
            ),
        ],
{
}

} // verus!
