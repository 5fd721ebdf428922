//! What holds of the transcript, whatever is done to it.
use vstd::prelude::*;

use super::kinds::LineKind;
use super::model;
use super::model::{RowView, TranscriptView};
use super::wrap;
use crate::components::component;
use crate::components::event::Role;
use crate::components::transcript::selection::SelPos;
use crate::components::transcript::wrap as framed;
use crate::keys::MouseEvent;
use crate::style::Rect;
use crate::style;
use crate::text;
use crate::ui::event;
use crate::ui::event::{AgentEvent, AppEvent, ContentBlock, Message};

verus! {

/// Whether a step left the view where it was: it follows as before, a place that
/// was scrolled to is kept, and lines that were up to date still are.
pub open spec fn keeps_the_view(a: TranscriptView, b: TranscriptView) -> bool {
    &&& b.pinned == a.pinned
    &&& !a.pinned ==> b.top == a.top
    &&& b.width == a.width
    &&& a.is_current() ==> b.is_current()
}

proof fn lemma_row(v: TranscriptView, kind: LineKind, t: Seq<char>)
    ensures
        keeps_the_view(v, v.with_row(kind, t)),
        v.with_row(kind, t).rows == v.rows.push(RowView { kind, text: wrap::kept_text(kind, t) }),
        v.with_row(kind, t).pending_user == v.pending_user,
        v.pinned ==> v.with_row(kind, t).top == v.with_row(kind, t).bottom(),
{
    reveal(TranscriptView::with_row);
    let next = v.with_row(kind, t);
    assert(next.rows.drop_last() =~= v.rows);
    assert(v.width == 0 && v.is_current() ==> next.wrapped
        =~= Seq::<Seq<style::SpanView>>::empty());
}

proof fn lemma_flushed(v: TranscriptView)
    ensures
        keeps_the_view(v, v.flushed()),
        v.flushed().pending_user == v.pending_user,
{
    reveal(TranscriptView::flushed);
    let body = framed::message_text(v.streaming);
    lemma_row(v.unstreamed(), v.stream_kind, body);
}

proof fn lemma_users(v: TranscriptView, texts: Seq<Seq<char>>)
    ensures
        keeps_the_view(v, v.with_users(texts)),
        v.with_users(texts).pending_user == v.pending_user,
        v.with_users(texts).rows == v.rows + user_rows(texts),
    decreases texts.len(),
{
    if texts.len() == 0 {
        assert(v.rows + user_rows(texts) =~= v.rows);
    } else {
        lemma_users(v, texts.drop_last());
        lemma_row(v.with_users(texts.drop_last()), LineKind::User, texts.last());
        assert(v.rows + user_rows(texts) =~= (v.rows + user_rows(texts.drop_last())).push(
            RowView { kind: LineKind::User, text: texts.last() },
        ));
    }
}

/// Rows that the user wrote.
pub open spec fn user_rows(texts: Seq<Seq<char>>) -> Seq<RowView> {
    Seq::new(texts.len(), |i: int| RowView { kind: LineKind::User, text: texts[i] })
}

/// Queued messages appear behind everything else, in the order in which they
/// were queued, and each of them once.
pub proof fn queued_messages_follow_in_order(v: TranscriptView)
    ensures
        v.with_queued().rows == v.rows + user_rows(v.pending_user),
        v.with_queued().pending_user == Seq::<Seq<char>>::empty(),
        keeps_the_view(v, v.with_queued()),
{
    reveal(TranscriptView::with_queued);
    lemma_users(TranscriptView { pending_user: Seq::empty(), ..v }, v.pending_user);
}

proof fn lemma_output(v: TranscriptView, mark: bool, shown: bool, output: Seq<char>)
    ensures
        keeps_the_view(v, v.with_output(mark, shown, output)),
{
    reveal(TranscriptView::with_output);
    let body = framed::message_text(output);
    lemma_row(
        v,
        LineKind::ToolResult(mark),
        if body.len() == 0 {
            model::NO_OUTPUT@
        } else {
            body
        },
    );
}

proof fn lemma_answer(v: TranscriptView, t: Seq<char>)
    ensures
        keeps_the_view(v, v.with_answer(t)),
{
    reveal(TranscriptView::with_answer);
    lemma_row(v, LineKind::Text, framed::message_text(t));
}

proof fn lemma_streamed(v: TranscriptView, kind: LineKind, t: Seq<char>)
    ensures
        keeps_the_view(v, v.streamed(kind, t)),
{
    reveal(TranscriptView::streamed);
    lemma_flushed(v);
}

proof fn lemma_cancelled(v: TranscriptView)
    ensures
        keeps_the_view(v, v.cancelled()),
{
    reveal(TranscriptView::cancelled);
    let partial = framed::message_text(v.streaming);
    lemma_row(v.unstreamed(), v.stream_kind, partial + "…"@);
    lemma_row(v, LineKind::System, "cancelled"@);
    lemma_row(v.unstreamed(), LineKind::System, "cancelled"@);
    lemma_row(
        v.unstreamed().with_row(v.stream_kind, partial + "…"@),
        LineKind::System,
        "cancelled"@,
    );
}

proof fn lemma_finished(v: TranscriptView, t: Seq<char>)
    ensures
        keeps_the_view(v, v.finished(t)),
{
    reveal(TranscriptView::finished);
    lemma_flushed(v);
    lemma_answer(v.unstreamed(), t);
    lemma_answer(v.flushed(), t);
}

/// Whether an event starts the transcript anew.
pub open spec fn starts_anew(ev: AppEvent) -> bool {
    ev is Rewound || ev matches AppEvent::Agent { event: AgentEvent::HistoryCleared }
}

/// Whatever arrives, a place that was scrolled to stays, and a view that follows
/// keeps following, unless the transcript starts anew.
pub proof fn new_content_keeps_the_view(v: TranscriptView, ev: AppEvent)
    requires
        !starts_anew(ev),
    ensures
        keeps_the_view(v, v.after(ev)),
{
    match ev {
        AppEvent::Agent { event } => match event {
            AgentEvent::ThinkingDelta { text } => {
                lemma_streamed(v, LineKind::Thinking, text@);
            },
            AgentEvent::TextDelta { text } => {
                lemma_streamed(v, LineKind::Text, text@);
            },
            AgentEvent::ToolStart { name, input } => {
                lemma_flushed(v);
                lemma_row(
                    v.flushed(),
                    LineKind::Tool,
                    event::call_text(name@, event::command_of(input)),
                );
            },
            AgentEvent::ToolEnd { ok, output } => {
                lemma_output(v, ok, !ok, output@);
                queued_messages_follow_in_order(v.with_output(ok, !ok, output@));
            },
            AgentEvent::Done { text, .. } => {
                lemma_finished(v, text@);
            },
            AgentEvent::Cancelled => {
                lemma_cancelled(v);
            },
            _ => {},
        },
        AppEvent::Idle => {
            lemma_flushed(v);
            queued_messages_follow_in_order(v.flushed());
        },
        AppEvent::Error { message } => {
            lemma_flushed(v);
            lemma_row(v.flushed(), LineKind::Error, message@);
        },
        _ => {},
    }
}

proof fn lemma_block(v: TranscriptView, role: Role, block: ContentBlock)
    ensures
        keeps_the_view(v, v.with_block(role, block)),
        v.with_block(role, block).pending_user == v.pending_user,
{
    reveal(TranscriptView::with_block);
    match block {
        ContentBlock::Text { text } => {
            lemma_row(v, LineKind::User, text@);
            lemma_answer(v, text@);
            reveal(TranscriptView::with_answer);
            lemma_row(v, LineKind::Text, framed::message_text(text@));
        },
        ContentBlock::Thinking { thinking } => {
            lemma_row(v, LineKind::Thinking, thinking@);
        },
        ContentBlock::ToolUse { name, input } => {
            lemma_row(
                v,
                LineKind::Tool,
                event::call_text(name@, event::command_of(input)),
            );
        },
        ContentBlock::ToolResult { content, is_error } => {
            let t = text::joined(model::result_texts(content@), "\n"@);
            lemma_output(v, is_error, is_error, t);
            reveal(TranscriptView::with_output);
            let body = framed::message_text(t);
            lemma_row(
                v,
                LineKind::ToolResult(is_error),
                if body.len() == 0 {
                    model::NO_OUTPUT@
                } else {
                    body
                },
            );
        },
        ContentBlock::Image => {},
    }
}

proof fn lemma_blocks(v: TranscriptView, role: Role, blocks: Seq<ContentBlock>)
    ensures
        keeps_the_view(v, v.with_blocks(role, blocks)),
        v.with_blocks(role, blocks).pending_user == v.pending_user,
    decreases blocks.len(),
{
    if blocks.len() > 0 {
        lemma_blocks(v, role, blocks.drop_last());
        lemma_block(v.with_blocks(role, blocks.drop_last()), role, blocks.last());
    }
}

proof fn lemma_seeded(v: TranscriptView, messages: Seq<Message>)
    ensures
        keeps_the_view(v, v.seeded(messages)),
        v.seeded(messages).pending_user == v.pending_user,
    decreases messages.len(),
{
    if messages.len() > 0 {
        lemma_seeded(v, messages.drop_last());
        lemma_blocks(
            v.seeded(messages.drop_last()),
            messages.last().role,
            messages.last().content@,
        );
    }
}

/// A transcript that is rebuilt keeps its queued messages, follows the newest
/// content and has nothing selected or streaming from before.
pub proof fn rebuilding_keeps_queued_messages(v: TranscriptView, messages: Seq<Message>)
    ensures
        v.replaced(messages).pending_user == v.pending_user,
        v.replaced(messages).pinned,
        v.emptied().select_anchor is None && !v.emptied().dragging,
        v.emptied().streaming.len() == 0,
{
    reveal(TranscriptView::emptied);
    lemma_seeded(v.emptied(), messages);
}

/// The wrapped lines are always those of the rows: an event of the session keeps
/// lines that are up to date so.
pub proof fn lines_stay_current(v: TranscriptView, ev: AppEvent)
    requires
        v.is_current(),
    ensures
        v.after(ev).is_current(),
{
    if starts_anew(ev) {
        reveal(TranscriptView::emptied);
        let empty = v.emptied();
        assert(empty.wrapped =~= Seq::<Seq<style::SpanView>>::empty());
        if let AppEvent::Rewound { messages, .. } = ev {
            lemma_seeded(empty, messages@);
        }
    } else {
        new_content_keeps_the_view(v, ev);
    }
}

/// A layout brings the wrapped lines up to date with the rows where the width
/// changed, and leaves them so where it did not.
pub proof fn layout_keeps_lines_current(v: TranscriptView, area: Rect)
    ensures
        v.is_current() || area.width as usize != v.width ==> v.laid_out(area).is_current(),
        v.laid_out(area).rows == v.rows,
{
    reveal(TranscriptView::laid_out);
    reveal(TranscriptView::rewrapped);
}

pub proof fn lemma_same_text(
    a: TranscriptView,
    b: TranscriptView,
    start: SelPos,
    end: SelPos,
    idx: nat,
)
    requires
        a.lines() == b.lines(),
    ensures
        a.text_between(start, end, idx) == b.text_between(start, end, idx),
    decreases idx,
{
    if idx > start.line {
        lemma_same_text(a, b, start, end, (idx - 1) as nat);
    }
}

/// A selection is copied when the mouse lets go of it: where the clipboard takes
/// the text the copy is reported, and the text stays selected.
pub proof fn selections_are_copied(v: TranscriptView, mouse: MouseEvent)
    requires
        v.releases(mouse),
        v.with_selection_at(mouse.column, mouse.row).selected() is Some,
    ensures
        v.mouse_answer(mouse, true) == component::KeyResultView::Action(
            component::ActionView::Notify("Copied!"@),
        ),
        v.after_mouse(mouse, true).selected() == v.with_selection_at(
            mouse.column,
            mouse.row,
        ).selected(),
        !v.after_mouse(mouse, true).dragging,
{
    let at = v.with_selection_at(mouse.column, mouse.row);
    let (start, end) = at.selection()->0;
    lemma_same_text(at, v.after_mouse(mouse, true), start, end, end.line as nat + 1);
}

/// Scrolling down as far as the view was scrolled up returns to the newest
/// content.
pub proof fn scrolling_back_follows_again(v: TranscriptView, n: u16)
    requires
        v.pinned,
    ensures
        v.scrolled_up(n).scrolled_down(n).pinned,
{
}

/// Clearing the history leaves no row, no streamed text, no queued message and no
/// selection.
pub proof fn clearing_leaves_nothing(v: TranscriptView)
    ensures
        ({
            let next = v.after_agent(AgentEvent::HistoryCleared);
            &&& next.rows.len() == 0 && next.lines().len() == 0
            &&& next.streaming.len() == 0
            &&& next.pending_user.len() == 0
            &&& next.select_anchor is None && next.select_head is None && !next.dragging
            &&& next.pinned
        }),
{
    reveal(TranscriptView::emptied);
}

/// The user's last message is the one that was written last.
pub proof fn last_message_is_found(v: TranscriptView, t: Seq<char>, kind: LineKind, later: Seq<char>)
    requires
        kind != LineKind::User,
    ensures
        model::last_prompt(v.with_row(LineKind::User, t).rows) == Some(t),
        model::last_prompt(v.with_row(LineKind::User, t).with_row(kind, later).rows) == Some(t),
{
    lemma_row(v, LineKind::User, t);
    let next = v.with_row(LineKind::User, t);
    lemma_row(next, kind, later);
    assert(next.with_row(kind, later).rows.drop_last() =~= next.rows);
}

} // verus!
