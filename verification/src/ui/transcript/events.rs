//! What the rows of the transcript hold after something happened.
use vstd::prelude::*;

use super::kinds::LineKind;
use super::model::{RowView, TranscriptView};
use super::wrap;
use crate::components::event::{Role, Usage};
use crate::components::transcript::wrap as framed;
use crate::text;
use crate::ui::event;
use crate::ui::event::{AgentEvent, AppEvent, ContentBlock, Message};

verus! {

/// The row that streamed text becomes, where there is more than line ends.
pub open spec fn said(v: TranscriptView) -> Seq<RowView> {
    let t = framed::message_text(v.streaming);
    if t.len() > 0 {
        seq![
            RowView {
                kind: v.stream_kind,
                text: if v.stream_kind == LineKind::Thinking {
                    wrap::collapsed_thinking(t)
                } else if v.stream_kind is ToolResult {
                    wrap::truncated_result(t)
                } else {
                    t
                },
            },
        ]
    } else {
        Seq::empty()
    }
}

/// The row of a text, where there is more than line ends.
pub open spec fn answer_row(t: Seq<char>) -> Seq<RowView> {
    let body = framed::message_text(t);
    if body.len() > 0 {
        seq![RowView { kind: LineKind::Text, text: body }]
    } else {
        Seq::empty()
    }
}

/// Messages of the user as rows.
pub open spec fn own_rows(texts: Seq<Seq<char>>) -> Seq<RowView> {
    Seq::new(texts.len(), |i: int| RowView { kind: LineKind::User, text: texts[i] })
}

proof fn lemma_row(v: TranscriptView, kind: LineKind, t: Seq<char>)
    ensures
        v.with_row(kind, t).rows == v.rows.push(RowView { kind, text: wrap::kept_text(kind, t) }),
        v.with_row(kind, t).streaming == v.streaming,
        v.with_row(kind, t).stream_kind == v.stream_kind,
        v.with_row(kind, t).pending_user == v.pending_user,
{
    reveal(TranscriptView::with_row);
}

proof fn lemma_flushed(v: TranscriptView)
    ensures
        v.flushed().rows == v.rows + said(v),
        v.flushed().streaming.len() == 0,
        v.flushed().stream_kind == v.stream_kind,
        v.flushed().pending_user == v.pending_user,
{
    reveal(TranscriptView::flushed);
    lemma_row(v.unstreamed(), v.stream_kind, framed::message_text(v.streaming));
    assert(v.flushed().rows =~= v.rows + said(v));
}

proof fn lemma_users(v: TranscriptView, texts: Seq<Seq<char>>)
    ensures
        v.with_users(texts).rows == v.rows + own_rows(texts),
        v.with_users(texts).streaming == v.streaming,
        v.with_users(texts).stream_kind == v.stream_kind,
        v.with_users(texts).pending_user == v.pending_user,
    decreases texts.len(),
{
    if texts.len() == 0 {
        assert(v.rows + own_rows(texts) =~= v.rows);
    } else {
        lemma_users(v, texts.drop_last());
        lemma_row(v.with_users(texts.drop_last()), LineKind::User, texts.last());
        assert(v.with_users(texts).rows =~= v.rows + own_rows(texts));
    }
}

proof fn lemma_queued(v: TranscriptView)
    ensures
        v.with_queued().rows == v.rows + own_rows(v.pending_user),
        v.with_queued().pending_user.len() == 0,
        v.with_queued().streaming == v.streaming,
        v.with_queued().stream_kind == v.stream_kind,
{
    reveal(TranscriptView::with_queued);
    lemma_users(TranscriptView { pending_user: Seq::empty(), ..v }, v.pending_user);
}

proof fn lemma_answer(v: TranscriptView, t: Seq<char>)
    ensures
        v.with_answer(t).rows == v.rows + answer_row(t),
        v.with_answer(t).streaming == v.streaming,
        v.with_answer(t).pending_user == v.pending_user,
{
    reveal(TranscriptView::with_answer);
    lemma_row(v, LineKind::Text, framed::message_text(t));
    assert(v.with_answer(t).rows =~= v.rows + answer_row(t));
}

/// Text that arrives goes behind what was streamed before it, where that is of the
/// same kind; text of another kind makes a row of that first. Text in two pieces is
/// the text in one.
pub proof fn streamed_text_grows(v: TranscriptView, text: String)
    requires
        text@.len() > 0,
    ensures
        ({
            let next = v.after(AppEvent::Agent { event: AgentEvent::TextDelta { text } });
            &&& next.stream_kind == LineKind::Text
            &&& v.streaming.len() == 0 || v.stream_kind == LineKind::Text ==> next.streaming
                == v.streaming + text@ && next.rows == v.rows
            &&& v.streaming.len() > 0 && v.stream_kind != LineKind::Text ==> next.streaming == text@
                && next.rows == v.rows + said(v)
        }),
        ({
            let next = v.after(AppEvent::Agent { event: AgentEvent::ThinkingDelta { text } });
            &&& next.stream_kind == LineKind::Thinking
            &&& v.streaming.len() == 0 || v.stream_kind == LineKind::Thinking ==> next.streaming
                == v.streaming + text@ && next.rows == v.rows
            &&& v.streaming.len() > 0 && v.stream_kind != LineKind::Thinking ==> next.streaming
                == text@ && next.rows == v.rows + said(v)
        }),
{
    reveal(TranscriptView::streamed);
    lemma_flushed(v);
    assert(v.flushed().streaming =~= Seq::<char>::empty());
    assert(Seq::<char>::empty() + text@ =~= text@);
}

/// A tool call stands behind what was streamed before it, which is kept as a row:
/// by the command that a shell runs, and else by the tool's name.
pub proof fn calls_stand_behind_what_was_said(
    v: TranscriptView,
    name: String,
    input: serde_json::Value,
)
    ensures
        ({
            let next = v.after(AppEvent::Agent { event: AgentEvent::ToolStart { name, input } });
            let members = event::text_members(input);
            let call = next.rows.last();
            &&& next.rows == (v.rows + said(v)).push(call)
            &&& next.streaming.len() == 0
            &&& next.pending_user == v.pending_user
            &&& call.kind == LineKind::Tool
            &&& name@ != "bash"@ || !members.contains_key("command"@) ==> call.text == name@
            &&& name@ == "bash"@ && members.contains_key("command"@) ==> call.text == (
            if text::trimmed(members["command"@]).len() > 0 {
                text::trimmed(members["command"@])
            } else {
                name@
            })
        }),
{
    lemma_flushed(v);
    lemma_row(v.flushed(), LineKind::Tool, event::call_text(name@, event::command_of(input)));
}

/// The output of a call stands in a row of its own, its first lines where there are
/// many; none where the call ended well without any. What the user queued follows
/// it in order, and waits no longer.
pub proof fn results_are_shown(v: TranscriptView, ok: bool, output: String)
    ensures
        ({
            let next = v.after(AppEvent::Agent { event: AgentEvent::ToolEnd { ok, output } });
            let t = framed::message_text(output@);
            let result = if t.len() > 0 {
                seq![
                    RowView { kind: LineKind::ToolResult(ok), text: wrap::truncated_result(t) },
                ]
            } else if ok {
                Seq::empty()
            } else {
                seq![
                    RowView {
                        kind: LineKind::ToolResult(ok),
                        text: wrap::truncated_result("(no output)"@),
                    },
                ]
            };
            &&& next.rows == v.rows + result + own_rows(v.pending_user)
            &&& next.pending_user.len() == 0
            &&& next.streaming == v.streaming
        }),
{
    reveal(TranscriptView::with_output);
    let t = framed::message_text(output@);
    let shown = if t.len() == 0 {
        "(no output)"@
    } else {
        t
    };
    lemma_row(v, LineKind::ToolResult(ok), shown);
    let mid = v.with_output(ok, !ok, output@);
    lemma_queued(mid);
    let none = Seq::<RowView>::empty();
    assert(v.rows + none =~= v.rows);
}

/// Once a turn is done its answer stands in a row, in place of what was streamed of
/// it; reasoning that was streamed is kept before it.
pub proof fn answers_are_shown(v: TranscriptView, text: String, usage: Usage)
    ensures
        ({
            let next = v.after(AppEvent::Agent { event: AgentEvent::Done { text, usage } });
            &&& v.stream_kind == LineKind::Text ==> next.rows == v.rows + answer_row(text@)
            &&& v.stream_kind != LineKind::Text ==> next.rows == v.rows + said(v) + answer_row(
                text@,
            )
            &&& next.streaming.len() == 0
            &&& next.pending_user == v.pending_user
        }),
{
    reveal(TranscriptView::finished);
    lemma_flushed(v);
    lemma_answer(v.unstreamed(), text@);
    lemma_answer(v.flushed(), text@);
}

/// A turn that was cancelled keeps what was streamed, marked as unfinished, and
/// says that it was cancelled.
pub proof fn cancelled_turns_keep_what_was_said(v: TranscriptView)
    requires
        v.stream_kind == LineKind::Text,
    ensures
        ({
            let next = v.after(AppEvent::Agent { event: AgentEvent::Cancelled });
            let t = framed::message_text(v.streaming);
            let partial = if t.len() > 0 {
                seq![RowView { kind: LineKind::Text, text: t + "…"@ }]
            } else {
                Seq::empty()
            };
            &&& next.rows == (v.rows + partial).push(
                RowView { kind: LineKind::System, text: "cancelled"@ },
            )
            &&& next.streaming.len() == 0
        }),
{
    reveal(TranscriptView::cancelled);
    let t = framed::message_text(v.streaming);
    lemma_row(v.unstreamed(), v.stream_kind, t + "…"@);
    let next = if v.streaming.len() == 0 {
        v
    } else if t.len() == 0 {
        v.unstreamed()
    } else {
        v.unstreamed().with_row(v.stream_kind, t + "…"@)
    };
    lemma_row(next, LineKind::System, "cancelled"@);
    if v.streaming.len() == 0 {
        assert(t =~= Seq::<char>::empty());
    }
    let partial = if t.len() > 0 {
        seq![RowView { kind: LineKind::Text, text: t + "…"@ }]
    } else {
        Seq::empty()
    };
    assert(next.rows =~= v.rows + partial);
}

/// Once the session is idle what was streamed is a row, and what the user queued
/// follows it in order. An error is told behind what was streamed. A history that
/// is cleared leaves nothing.
pub proof fn the_rest_is_told(v: TranscriptView, message: String)
    ensures
        v.after(AppEvent::Idle).rows == v.rows + said(v) + own_rows(v.pending_user),
        v.after(AppEvent::Idle).streaming.len() == 0,
        v.after(AppEvent::Idle).pending_user.len() == 0,
        v.after(AppEvent::Error { message }).rows == (v.rows + said(v)).push(
            RowView { kind: LineKind::Error, text: message@ },
        ),
        v.after(AppEvent::Error { message }).streaming.len() == 0,
        v.after(AppEvent::Agent { event: AgentEvent::HistoryCleared }).rows.len() == 0,
        v.after(AppEvent::Agent { event: AgentEvent::HistoryCleared }).streaming.len() == 0,
        v.after(AppEvent::Agent { event: AgentEvent::HistoryCleared }).pending_user.len() == 0,
        v.after(AppEvent::Exit) == v,
{
    reveal(TranscriptView::emptied);
    lemma_flushed(v);
    lemma_queued(v.flushed());
    lemma_row(v.flushed(), LineKind::Error, message@);
}

/// Until a turn is done or the history cleared, text that was streamed is kept: it
/// is streamed still, or the row behind those that were there holds it, whole or
/// marked as unfinished.
pub proof fn no_streamed_text_is_lost(v: TranscriptView, event: AgentEvent)
    requires
        v.stream_kind == LineKind::Text,
        framed::message_text(v.streaming).len() > 0,
        !(event is Done),
        !(event is HistoryCleared),
    ensures
        ({
            let next = v.after(AppEvent::Agent { event });
            let n = v.rows.len() as int;
            let t = framed::message_text(v.streaming);
            ||| v.streaming.is_prefix_of(next.streaming)
            ||| next.rows.len() > n && next.rows[n].kind == LineKind::Text && (next.rows[n].text == t
                || next.rows[n].text == t + "…"@)
        }),
{
    let next = v.after(AppEvent::Agent { event });
    assert(v.streaming =~= v.streaming.subrange(0, v.streaming.len() as int));
    match event {
        AgentEvent::TextDelta { text } => {
            if text@.len() > 0 {
                streamed_text_grows(v, text);
                assert(v.streaming =~= next.streaming.subrange(0, v.streaming.len() as int));
            } else {
                reveal(TranscriptView::streamed);
            }
        },
        AgentEvent::ThinkingDelta { text } => {
            if text@.len() > 0 {
                streamed_text_grows(v, text);
                if v.streaming.len() == 0 {
                    assert(framed::message_text(v.streaming).len() == 0);
                }
            } else {
                reveal(TranscriptView::streamed);
            }
        },
        AgentEvent::ToolStart { name, input } => {
            calls_stand_behind_what_was_said(v, name, input);
        },
        AgentEvent::ToolEnd { ok, output } => {
            results_are_shown(v, ok, output);
        },
        AgentEvent::Cancelled => {
            cancelled_turns_keep_what_was_said(v);
        },
        _ => {},
    }
}

/// Output of up to six lines is kept whole; of more lines the first six are kept,
/// and how many there are behind them is told.
pub proof fn long_output_is_cut(t: Seq<char>)
    ensures
        text::lines_of(t).len() <= 6 ==> wrap::truncated_result(t) == t,
        text::lines_of(t).len() > 6 ==> wrap::truncated_result(t) == text::joined(
            text::lines_of(t).take(6),
            "\n"@,
        ) + "\n… "@ + text::decimal((text::lines_of(t).len() - 6) as nat) + " more"@,
{
}

/// Of reasoning the first line is kept, without the blanks behind it, and an
/// ellipsis where there were more.
pub proof fn reasoning_keeps_its_first_line(t: Seq<char>)
    ensures
        ({
            let lines = text::lines_of(framed::message_text(t));
            &&& lines.len() == 1 ==> wrap::collapsed_thinking(t) == text::trimmed_end(lines[0])
            &&& lines.len() > 1 ==> wrap::collapsed_thinking(t) == text::trimmed_end(
                lines[0],
            ).push('…')
        }),
{
}

/// A piece of the history is a row: what the user said, an answer with more than
/// line ends, reasoning, a call, or the output of a call. The pieces of a message,
/// and the messages, follow each other.
pub proof fn restored_pieces_are_rows(v: TranscriptView, role: Role, block: ContentBlock)
    ensures
        ({
            let rows = v.with_block(role, block).rows;
            &&& (block matches ContentBlock::Text { text } ==> role is User ==> rows == v.rows.push(
                RowView { kind: LineKind::User, text: text@ },
            ))
            &&& (block matches ContentBlock::Text { text } ==> role is Assistant ==> rows == v.rows
                + answer_row(text@))
            &&& (block matches ContentBlock::Thinking { thinking } ==> role is Assistant ==> rows
                == v.rows.push(
                RowView {
                    kind: LineKind::Thinking,
                    text: wrap::collapsed_thinking(thinking@),
                },
            ))
            &&& (block matches ContentBlock::ToolUse { name, input } ==> role is Assistant ==> rows
                == v.rows.push(
                RowView {
                    kind: LineKind::Tool,
                    text: event::call_text(name@, event::command_of(input)),
                },
            ))
            &&& block is Image ==> rows == v.rows
            &&& v.with_block(role, block).streaming == v.streaming
        }),
{
    reveal(TranscriptView::with_block);
    reveal(TranscriptView::with_output);
    match block {
        ContentBlock::Text { text } => {
            lemma_row(v, LineKind::User, text@);
            lemma_answer(v, text@);
        },
        ContentBlock::Thinking { thinking } => {
            lemma_row(v, LineKind::Thinking, thinking@);
        },
        ContentBlock::ToolUse { name, input } => {
            lemma_row(v, LineKind::Tool, event::call_text(name@, event::command_of(input)));
        },
        ContentBlock::ToolResult { content, is_error } => {
            let body = framed::message_text(
                text::joined(super::model::result_texts(content@), "\n"@),
            );
            let shown = if body.len() == 0 {
                super::model::NO_OUTPUT@
            } else {
                body
            };
            lemma_row(v, LineKind::ToolResult(is_error), shown);
        },
        ContentBlock::Image => {},
    }
}

/// The messages of a history are told one behind the other, and the pieces of each.
pub proof fn restored_messages_follow_each_other(
    v: TranscriptView,
    messages: Seq<Message>,
    m: Message,
)
    ensures
        v.seeded(messages.push(m)) == v.seeded(messages).with_blocks(m.role, m.content@),
        v.seeded(Seq::empty()) == v,
{
    assert(messages.push(m).drop_last() =~= messages);
}

} // verus!
