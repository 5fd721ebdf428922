//! What holds of tool calls that a history is restored from.
use vstd::prelude::*;

use super::super::event;
use super::super::event::{AgentEvent, AppEvent, ContentBlock, Message, Role, ToolView};
use super::collapsible;
use super::kinds::LineKind;
use super::model;
use super::model::{RowView, TranscriptView};
use super::tools;
use super::wrap;
use crate::text;

verus! {

/// Something that happened to a tool call: it began, or its result came.
pub enum ToolStep {
    Call { id: Seq<char>, view: ToolView },
    Result { id: Seq<char>, ok: bool, output: Seq<char> },
}

/// What an event says of a tool call.
pub open spec fn live_step(ev: AppEvent) -> Option<ToolStep> {
    match ev {
        AppEvent::Agent(AgentEvent::ToolStarted { call_id, view }) => Some(
            ToolStep::Call { id: text::decimal(call_id as nat), view },
        ),
        AppEvent::Agent(AgentEvent::ToolFinished { call_id, result }) => Some(
            ToolStep::Result {
                id: text::decimal(call_id as nat),
                ok: TranscriptView::outcome(result).0,
                output: TranscriptView::outcome(result).1,
            },
        ),
        _ => None,
    }
}

/// Whether events are all of tool calls, and what they say.
pub open spec fn tells(evs: Seq<AppEvent>, steps: Seq<ToolStep>) -> bool {
    evs.len() == steps.len() && forall|i: int|
        0 <= i < evs.len() ==> live_step(#[trigger] evs[i]) == Some(steps[i])
}

/// The transcript after some events.
pub open spec fn after_events(v: TranscriptView, evs: Seq<AppEvent>) -> TranscriptView
    decreases evs.len(),
{
    if evs.len() == 0 {
        v
    } else {
        after_events(v, evs.drop_last()).after(evs.last())
    }
}

/// What a piece of a message says of a tool call.
pub open spec fn block_step(role: Role, block: ContentBlock) -> Option<ToolStep> {
    match (role, block) {
        (Role::Assistant, ContentBlock::ToolUse { id, view }) => Some(
            ToolStep::Call { id: id@, view },
        ),
        (Role::Tool, ContentBlock::ToolResult { tool_use_id, content, is_error }) => Some(
            ToolStep::Result {
                id: tool_use_id@,
                ok: !is_error,
                output: text::joined(model::result_texts(content@), "\n"@),
            },
        ),
        _ => None,
    }
}

/// Whether pieces of a message are all of tool calls.
pub open spec fn all_tools(role: Role, blocks: Seq<ContentBlock>) -> bool {
    forall|i: int| 0 <= i < blocks.len() ==> block_step(role, #[trigger] blocks[i]) is Some
}

/// What the pieces of a message say of tool calls.
pub open spec fn block_steps(role: Role, blocks: Seq<ContentBlock>) -> Seq<ToolStep> {
    Seq::new(blocks.len(), |i: int| block_step(role, blocks[i])->0)
}

/// Whether a history is all of tool calls.
pub open spec fn tools_only(messages: Seq<Message>) -> bool {
    forall|i: int|
        0 <= i < messages.len() ==> all_tools(
            (#[trigger] messages[i]).role,
            messages[i].content@,
        )
}

/// What a history says of tool calls.
pub open spec fn history_steps(messages: Seq<Message>) -> Seq<ToolStep>
    decreases messages.len(),
{
    if messages.len() == 0 {
        Seq::empty()
    } else {
        history_steps(messages.drop_last()) + block_steps(
            messages.last().role,
            messages.last().content@,
        )
    }
}

/// The calls of the open burst that wait for their result.
pub open spec fn burst_ids(steps: Seq<ToolStep>) -> Set<Seq<char>>
    decreases steps.len(),
{
    if steps.len() == 0 {
        Set::empty()
    } else {
        let before = burst_ids(steps.drop_last());
        match steps.last() {
            ToolStep::Call { id, view } => if view.collapse {
                before.insert(id)
            } else {
                Set::empty()
            },
            ToolStep::Result { id, ok, output } => before.remove(id),
        }
    }
}

/// The calls with a row of their own that wait for their result.
pub open spec fn row_ids(steps: Seq<ToolStep>) -> Set<Seq<char>>
    decreases steps.len(),
{
    if steps.len() == 0 {
        Set::empty()
    } else {
        let before = row_ids(steps.drop_last());
        match steps.last() {
            ToolStep::Call { id, view } => if view.collapse {
                before
            } else {
                before.insert(id)
            },
            ToolStep::Result { id, ok, output } => if burst_ids(steps.drop_last()).contains(id) {
                before
            } else {
                before.remove(id)
            },
        }
    }
}

/// Whether each result is of one call only, and each failure of a call that is in
/// the open burst or has a row of its own.
pub open spec fn answerable(steps: Seq<ToolStep>) -> bool
    decreases steps.len(),
{
    steps.len() > 0 ==> {
        let before = steps.drop_last();
        &&& answerable(before)
        &&& steps.last() matches ToolStep::Result { id, ok, output } ==> {
            &&& !(burst_ids(before).contains(id) && row_ids(before).contains(id))
            &&& ok || burst_ids(before).contains(id) || row_ids(before).contains(id)
        }
    }
}

/// The kinds and titles of rows.
pub open spec fn titles(rows: Seq<RowView>) -> Seq<(LineKind, Seq<char>)> {
    Seq::new(rows.len(), |i: int| (rows[i].kind, rows[i].text))
}

/// Whether nothing is under way in a transcript.
pub open spec fn is_idle(v: TranscriptView) -> bool {
    &&& v.thinking_row is None
    &&& v.streaming.len() == 0
    &&& v.wrapped_stream.len() == 0
    &&& v.tool_burst == tools::empty_burst()
    &&& v.burst_row is None
    &&& v.detail_ids == Map::<Seq<char>, bool>::empty()
}

/// A history of tool calls and results shows the rows that they had while they
/// were live, in the same order, whether or not it is timed.
pub proof fn restored_tools_match_live_ones(
    v: TranscriptView,
    evs: Seq<AppEvent>,
    messages: Seq<Message>,
)
    requires
        is_idle(v),
        tools_only(messages),
        tells(evs, history_steps(messages)),
        answerable(history_steps(messages)),
        v.rows.len() + evs.len() <= usize::MAX,
    ensures
        titles(v.seeded(messages).rows) == titles(after_events(v, evs).rows),
        titles(v.seeded(model::untimed(messages)).rows) == titles(after_events(v, evs).rows),
{
    lemma_restored(v, evs, messages);
    lemma_untimed(messages);
    lemma_restored(v, evs, model::untimed(messages));
}

proof fn lemma_restored(v: TranscriptView, evs: Seq<AppEvent>, messages: Seq<Message>)
    requires
        is_idle(v),
        tools_only(messages),
        tells(evs, history_steps(messages)),
        answerable(history_steps(messages)),
        v.rows.len() + evs.len() <= usize::MAX,
    ensures
        titles(v.seeded(messages).rows) == titles(after_events(v, evs).rows),
{
    let steps = history_steps(messages);
    lemma_live(v, evs, steps);
    lemma_history(v, messages);
    lemma_taken(v, steps);
    lemma_seeded(v, messages);
}

/// A burst of calls has one row whose title tells the calls in the order in
/// which they began and how many failed, whichever order the results came in: a
/// history that holds the calls before their results shows the row that the
/// calls had while they were live.
pub proof fn restored_bursts_match_live_ones(
    v: TranscriptView,
    evs: Seq<AppEvent>,
    steps: Seq<ToolStep>,
    messages: Seq<Message>,
)
    requires
        is_idle(v),
        tools_only(messages),
        tells(evs, steps),
        all_in_burst(steps),
        all_in_burst(history_steps(messages)),
        summaries(steps) == summaries(history_steps(messages)),
        failures(steps) == failures(history_steps(messages)),
        v.rows.len() + evs.len() <= usize::MAX,
        v.rows.len() + history_steps(messages).len() <= usize::MAX,
    ensures
        titles(v.seeded(messages).rows) == titles(after_events(v, evs).rows),
        titles(v.seeded(model::untimed(messages)).rows) == titles(after_events(v, evs).rows),
{
    lemma_restored_burst(v, evs, steps, messages);
    lemma_untimed(messages);
    lemma_restored_burst(v, evs, steps, model::untimed(messages));
}

proof fn lemma_restored_burst(
    v: TranscriptView,
    evs: Seq<AppEvent>,
    steps: Seq<ToolStep>,
    messages: Seq<Message>,
)
    requires
        is_idle(v),
        tools_only(messages),
        tells(evs, steps),
        all_in_burst(steps),
        all_in_burst(history_steps(messages)),
        summaries(steps) == summaries(history_steps(messages)),
        failures(steps) == failures(history_steps(messages)),
        v.rows.len() + evs.len() <= usize::MAX,
        v.rows.len() + history_steps(messages).len() <= usize::MAX,
    ensures
        titles(v.seeded(messages).rows) == titles(after_events(v, evs).rows),
{
    let stored = history_steps(messages);
    lemma_burst_answerable(steps);
    lemma_burst_answerable(stored);
    lemma_live(v, evs, steps);
    lemma_history(v, messages);
    lemma_taken(v, stored);
    lemma_seeded(v, messages);
    lemma_burst(v, steps);
    lemma_burst(v, stored);
}

/// Whether all calls join the burst, and each result is of one of them that
/// waits for it.
pub open spec fn all_in_burst(steps: Seq<ToolStep>) -> bool
    decreases steps.len(),
{
    steps.len() > 0 ==> {
        &&& all_in_burst(steps.drop_last())
        &&& match steps.last() {
            ToolStep::Call { id, view } => view.collapse,
            ToolStep::Result { id, ok, output } => burst_ids(steps.drop_last()).contains(id),
        }
    }
}

/// What the calls are told as, in the order in which they began.
pub open spec fn summaries(steps: Seq<ToolStep>) -> Seq<Seq<char>>
    decreases steps.len(),
{
    if steps.len() == 0 {
        Seq::empty()
    } else {
        match steps.last() {
            ToolStep::Call { id, view } => summaries(steps.drop_last()).push(view.summary@),
            ToolStep::Result { id, ok, output } => summaries(steps.drop_last()),
        }
    }
}

/// How many calls failed.
pub open spec fn failures(steps: Seq<ToolStep>) -> nat
    decreases steps.len(),
{
    if steps.len() == 0 {
        0
    } else {
        match steps.last() {
            ToolStep::Call { id, view } => failures(steps.drop_last()),
            ToolStep::Result { id, ok, output } => failures(steps.drop_last()) + if ok {
                0nat
            } else {
                1nat
            },
        }
    }
}

/// The groups that calls are counted in.
spec fn grouped(told: Seq<Seq<char>>) -> Seq<tools::ToolGroupView>
    decreases told.len(),
{
    if told.len() == 0 {
        Seq::empty()
    } else {
        tools::counted_in(
            grouped(told.drop_last()),
            tools::kind_named(tools::action_in(tools::normalized(told.last()))),
        )
    }
}

/// The transcript after something happened to a tool call.
spec fn taken_step(v: TranscriptView, step: ToolStep) -> TranscriptView {
    match step {
        ToolStep::Call { id, view } => v.with_tool_started(id, view),
        ToolStep::Result { id, ok, output } => v.with_tool_ended(id, ok, output),
    }
}

/// The transcript after all of it.
spec fn taken(v: TranscriptView, steps: Seq<ToolStep>) -> TranscriptView
    decreases steps.len(),
{
    if steps.len() == 0 {
        v
    } else {
        taken_step(taken(v, steps.drop_last()), steps.last())
    }
}

/// Whether no text or reasoning is under way.
spec fn is_quiet(v: TranscriptView) -> bool {
    v.thinking_row is None && v.streaming.len() == 0 && v.wrapped_stream.len() == 0
}

/// Whether the row of the burst is there.
spec fn has_burst_row(v: TranscriptView) -> bool {
    v.burst_row matches Some(r) ==> r < v.rows.len()
}

/// Whether the calls under way are the same.
spec fn same_calls(a: TranscriptView, b: TranscriptView) -> bool {
    a.tool_burst == b.tool_burst && a.burst_row == b.burst_row && a.detail_ids == b.detail_ids
}

proof fn lemma_rewrapped(v: TranscriptView)
    ensures
        same_calls(v.rewrapped(), v),
        v.rewrapped().rows.len() == v.rows.len(),
        titles(v.rewrapped().rows) == titles(v.rows),
        is_quiet(v) ==> is_quiet(v.rewrapped()),
{
    reveal(TranscriptView::rewrapped);
    assert(titles(v.rewrapped().rows) =~= titles(v.rows));
}

proof fn lemma_folded(v: TranscriptView)
    ensures
        same_calls(v.folded(), v),
        v.folded().rows.len() == v.rows.len(),
        titles(v.folded().rows) == titles(v.rows),
        is_quiet(v) ==> is_quiet(v.folded()),
{
    reveal(TranscriptView::folded);
    let next = TranscriptView { rows: model::folded_rows(v.rows), ..v };
    lemma_rewrapped(next);
    assert(titles(next.rows) =~= titles(v.rows));
}

proof fn lemma_folding_row(
    v: TranscriptView,
    kind: LineKind,
    t: Seq<char>,
    body: Option<collapsible::CollapsibleView>,
)
    requires
        kind != LineKind::Thinking,
    ensures
        same_calls(v.with_folding_row(kind, t, body), v),
        v.with_folding_row(kind, t, body).rows.len() == v.rows.len() + 1,
        titles(v.with_folding_row(kind, t, body).rows) == titles(v.rows).push((kind, t)),
        is_quiet(v) ==> is_quiet(v.with_folding_row(kind, t, body)),
{
    reveal(TranscriptView::with_folding_row);
    reveal(TranscriptView::with_row);
    lemma_folded(v);
    let next = v.with_folding_row(kind, t, body);
    assert forall|i: int| 0 <= i < v.rows.len() implies titles(next.rows)[i] == titles(v.rows)[i] by {
        assert(titles(v.folded().rows)[i] == titles(v.rows)[i]);
    }
    assert(titles(next.rows) =~= titles(v.rows).push((kind, t)));
}

proof fn lemma_burst_closed(v: TranscriptView)
    requires
        has_burst_row(v),
    ensures
        v.with_burst_closed().tool_burst == tools::empty_burst(),
        v.with_burst_closed().burst_row is None,
        v.with_burst_closed().detail_ids == v.detail_ids,
        v.with_burst_closed().rows.len() == v.rows.len(),
        titles(v.with_burst_closed().rows) == titles(v.rows),
        is_quiet(v) ==> is_quiet(v.with_burst_closed()),
{
    reveal(TranscriptView::with_burst_closed);
    if let Some(r) = v.burst_row {
        let next = TranscriptView {
            tool_burst: tools::empty_burst(),
            burst_row: None,
            rows: v.rows.update(r as int, model::folded_row(v.rows[r as int])),
            ..v
        };
        lemma_rewrapped(next);
        assert(titles(next.rows) =~= titles(v.rows));
    }
}

proof fn lemma_burst_row(v: TranscriptView)
    requires
        has_burst_row(v),
        v.rows.len() < usize::MAX,
    ensures
        ({
            let next = v.with_burst_row();
            let title = (LineKind::Tool, tools::title_text(v.tool_burst));
            &&& next.tool_burst == v.tool_burst
            &&& next.detail_ids == v.detail_ids
            &&& is_quiet(v) ==> is_quiet(next)
            &&& match v.burst_row {
                Some(r) => {
                    &&& next.burst_row == Some(r)
                    &&& titles(next.rows) == titles(v.rows).update(
                        r as int,
                        (v.rows[r as int].kind, title.1),
                    )
                },
                None => {
                    &&& next.burst_row == Some(v.rows.len() as usize)
                    &&& titles(next.rows) == titles(v.rows).push(title)
                },
            }
        }),
{
    reveal(TranscriptView::with_burst_row);
    let title = tools::title_text(v.tool_burst);
    let sections = tools::burst_sections(v.tool_burst.calls);
    match v.burst_row {
        Some(r) => {
            let next = TranscriptView {
                rows: v.rows.update(
                    r as int,
                    RowView {
                        text: title,
                        collapsible: match v.rows[r as int].collapsible {
                            Some(c) => Some(collapsible::CollapsibleView { sections, ..c }),
                            None => None,
                        },
                        ..v.rows[r as int]
                    },
                ),
                ..v
            };
            lemma_rewrapped(next);
            assert(titles(next.rows) =~= titles(v.rows).update(
                r as int,
                (v.rows[r as int].kind, title),
            ));
        },
        None => {
            let body = Some(
                collapsible::CollapsibleView { sections, expanded: true, pinned: false },
            );
            lemma_folding_row(v, LineKind::Tool, title, body);
            let row = v.with_folding_row(LineKind::Tool, title, body);
            lemma_rewrapped(
                TranscriptView { burst_row: Some((row.rows.len() - 1) as usize), ..row },
            );
        },
    }
}

proof fn lemma_result(v: TranscriptView, ok: bool, output: Seq<char>)
    ensures
        same_calls(v.with_result(ok, output), v),
        v.rows.len() <= v.with_result(ok, output).rows.len() <= v.rows.len() + 1,
        is_quiet(v) ==> is_quiet(v.with_result(ok, output)),
{
    reveal(TranscriptView::with_result);
    reveal(TranscriptView::with_message);
    let body = wrap::message_text(output);
    let shown = if body.len() == 0 {
        "(no output)"@
    } else {
        body
    };
    lemma_folding_row(
        v,
        LineKind::ToolResult(ok),
        wrap::RESULT_LABEL@,
        Some(model::text_body(shown)),
    );
}

/// One step keeps the transcript quiet and says which calls wait.
proof fn lemma_step(v: TranscriptView, step: ToolStep)
    requires
        is_quiet(v),
        has_burst_row(v),
        v.rows.len() < usize::MAX,
    ensures
        ({
            let next = taken_step(v, step);
            &&& is_quiet(next)
            &&& has_burst_row(next)
            &&& next.rows.len() <= v.rows.len() + 1
            &&& match step {
                ToolStep::Call { id, view } => if view.collapse {
                    &&& next.tool_burst.pending.dom() == v.tool_burst.pending.dom().insert(id)
                    &&& next.detail_ids == v.detail_ids
                } else {
                    &&& next.tool_burst.pending.dom() == Set::<Seq<char>>::empty()
                    &&& next.detail_ids.dom() == v.detail_ids.dom().insert(id)
                },
                ToolStep::Result { id, ok, output } => {
                    &&& next.tool_burst.pending.dom() == v.tool_burst.pending.dom().remove(id)
                    &&& next.detail_ids.dom() == if v.tool_burst.pending.dom().contains(id) {
                        v.detail_ids.dom()
                    } else {
                        v.detail_ids.dom().remove(id)
                    }
                },
            }
        }),
{
    match step {
        ToolStep::Call { id, view } => {
            reveal(TranscriptView::with_tool_started);
            if view.collapse {
                let counted = TranscriptView {
                    tool_burst: tools::after_start(
                        v.tool_burst,
                        id,
                        view.summary@,
                        event::text_view(view.detail),
                    ),
                    ..v
                };
                lemma_burst_row(counted);
                lemma_titles_len(v.rows, counted.with_burst_row().rows);
                assert(counted.tool_burst.pending.dom() =~= v.tool_burst.pending.dom().insert(id));
            } else {
                lemma_burst_closed(v);
                let closed = v.with_burst_closed();
                let noted = TranscriptView {
                    detail_ids: closed.detail_ids.insert(id, view.detail is Some),
                    ..closed
                };
                let kind = if view.detail is Some {
                    LineKind::Diff
                } else {
                    LineKind::Tool
                };
                let body = match view.detail {
                    Some(t) => Some(model::text_body(t@)),
                    None => None,
                };
                lemma_folding_row(noted, kind, view.summary@, body);
                assert(noted.detail_ids.dom() =~= v.detail_ids.dom().insert(id));
                assert(tools::empty_burst().pending.dom() =~= Set::<Seq<char>>::empty());
            }
        },
        ToolStep::Result { id, ok, output } => {
            reveal(TranscriptView::with_tool_ended);
            if v.tool_burst.pending.dom().contains(id) {
                let counted = TranscriptView {
                    tool_burst: tools::after_finish(
                        v.tool_burst,
                        id,
                        !ok,
                        if ok {
                            None
                        } else {
                            Some(output)
                        },
                    ),
                    ..v
                };
                lemma_burst_row(counted);
                lemma_titles_len(v.rows, counted.with_burst_row().rows);
                assert(counted.tool_burst.pending.dom() =~= v.tool_burst.pending.dom().remove(id));
            } else {
                assert(v.tool_burst.pending.dom().remove(id) =~= v.tool_burst.pending.dom());
                if v.detail_ids.dom().contains(id) {
                    let noted = TranscriptView { detail_ids: v.detail_ids.remove(id), ..v };
                    lemma_result(noted, ok, output);
                    assert(noted.detail_ids.dom() =~= v.detail_ids.dom().remove(id));
                } else {
                    assert(v.detail_ids.dom().remove(id) =~= v.detail_ids.dom());
                    reveal(TranscriptView::with_message);
                    lemma_folding_row(v, LineKind::System, output, None);
                }
            }
        },
    }
}

proof fn lemma_titles_len(a: Seq<RowView>, b: Seq<RowView>)
    ensures
        titles(a).len() == a.len(),
        titles(b).len() == b.len(),
{
}

/// What the calls under way are, after all steps.
proof fn lemma_taken(v: TranscriptView, steps: Seq<ToolStep>)
    requires
        is_idle(v),
        v.rows.len() + steps.len() <= usize::MAX,
    ensures
        ({
            let next = taken(v, steps);
            &&& is_quiet(next)
            &&& has_burst_row(next)
            &&& next.rows.len() <= v.rows.len() + steps.len()
            &&& next.tool_burst.pending.dom() == burst_ids(steps)
            &&& next.detail_ids.dom() == row_ids(steps)
        }),
    decreases steps.len(),
{
    if steps.len() == 0 {
        assert(v.tool_burst.pending.dom() =~= burst_ids(steps));
        assert(v.detail_ids.dom() =~= row_ids(steps));
    } else {
        lemma_taken(v, steps.drop_last());
        lemma_step(taken(v, steps.drop_last()), steps.last());
    }
}

/// Live events are the steps they tell.
proof fn lemma_live(v: TranscriptView, evs: Seq<AppEvent>, steps: Seq<ToolStep>)
    requires
        is_idle(v),
        tells(evs, steps),
        v.rows.len() + steps.len() <= usize::MAX,
    ensures
        after_events(v, evs) == taken(v, steps),
    decreases evs.len(),
{
    if evs.len() > 0 {
        let before = steps.drop_last();
        assert forall|i: int| 0 <= i < evs.drop_last().len() implies live_step(
            #[trigger] evs.drop_last()[i],
        ) == Some(before[i]) by {
            assert(evs.drop_last()[i] == evs[i]);
        }
        lemma_live(v, evs.drop_last(), before);
        lemma_taken(v, before);
        let now = taken(v, before);
        assert(live_step(evs[evs.len() - 1]) == Some(steps.last()));
        reveal(TranscriptView::with_thinking_retired);
        reveal(TranscriptView::with_stream_flushed);
        assert(wrap::message_text(now.streaming) =~= Seq::<char>::empty());
        assert(now.without_stream() =~= now);
    }
}

/// The pieces of a message are the steps they hold.
proof fn lemma_blocks(
    v: TranscriptView,
    before: Seq<ToolStep>,
    m: Message,
    n: nat,
)
    requires
        is_idle(v),
        n <= m.content@.len(),
        all_tools(m.role, m.content@),
        answerable(before + block_steps(m.role, m.content@).take(n as int)),
        v.rows.len() + before.len() + n <= usize::MAX,
    ensures
        ({
            let now = taken(v, before);
            let next = taken(v, before + block_steps(m.role, m.content@).take(n as int));
            let part = m.content@.take(n as int);
            &&& m.role is Assistant ==> now.with_answer_blocks(part, m.thinking_ms, true) == now
                && now.with_answer_blocks(part, m.thinking_ms, false) == next
            &&& m.role is Tool ==> now.with_tool_blocks(part) == next
        }),
    decreases n,
{
    let all = block_steps(m.role, m.content@);
    let now = taken(v, before);
    let part = m.content@.take(n as int);
    let steps = before + all.take(n as int);
    if n == 0 {
        assert(steps =~= before);
    } else {
        let k = (n - 1) as nat;
        let earlier = before + all.take(k as int);
        assert(steps.drop_last() =~= earlier);
        assert(steps.last() == all[k as int]);
        lemma_blocks(v, before, m, k);
        assert(part.drop_last() =~= m.content@.take(k as int));
        assert(part.last() == m.content@[k as int]);
        assert(block_step(m.role, m.content@[k as int]) is Some);
        lemma_taken(v, earlier);
        let was = taken(v, earlier);
        if m.role is Tool {
            reveal(TranscriptView::with_tool_ended);
            reveal(TranscriptView::with_seed_result);
            if !was.tool_burst.pending.dom().contains(steps.last()->Result_id) {
                assert(was =~= TranscriptView { tool_burst: was.tool_burst, ..was });
            }
        }
    }
}

/// A history is the steps it holds.
proof fn lemma_history(v: TranscriptView, messages: Seq<Message>)
    requires
        is_idle(v),
        tools_only(messages),
        answerable(history_steps(messages)),
        v.rows.len() + history_steps(messages).len() <= usize::MAX,
    ensures
        v.with_messages(messages) == taken(v, history_steps(messages)),
    decreases messages.len(),
{
    if messages.len() > 0 {
        let m = messages.last();
        let before = history_steps(messages.drop_last());
        let all = block_steps(m.role, m.content@);
        assert forall|i: int| 0 <= i < messages.drop_last().len() implies all_tools(
            (#[trigger] messages.drop_last()[i]).role,
            messages.drop_last()[i].content@,
        ) by {
            assert(messages.drop_last()[i] == messages[i]);
        }
        lemma_prefix_answerable(before, all);
        lemma_history(v, messages.drop_last());
        assert(messages[messages.len() - 1] == m);
        assert(all.take(m.content@.len() as int) =~= all);
        assert(m.content@.take(m.content@.len() as int) =~= m.content@);
        lemma_blocks(v, before, m, m.content@.len());
        reveal(TranscriptView::with_history_message);
        if !(m.role is Assistant) && !(m.role is Tool) {
            if m.content@.len() > 0 {
                assert(block_step(m.role, m.content@[0]) is Some);
            }
            assert(before + all =~= before);
        }
    }
}

proof fn lemma_prefix_answerable(before: Seq<ToolStep>, more: Seq<ToolStep>)
    requires
        answerable(before + more),
    ensures
        answerable(before),
    decreases more.len(),
{
    if more.len() == 0 {
        assert(before + more =~= before);
    } else {
        assert((before + more).drop_last() =~= before + more.drop_last());
        lemma_prefix_answerable(before, more.drop_last());
    }
}

/// What closes a history keeps the titles.
proof fn lemma_seeded(v: TranscriptView, messages: Seq<Message>)
    requires
        has_burst_row(v.with_messages(messages)),
    ensures
        titles(v.seeded(messages).rows) == titles(v.with_messages(messages).rows),
{
    reveal(TranscriptView::seeded);
    let all = v.with_messages(messages);
    lemma_burst_closed(all);
    lemma_folded(TranscriptView { thinking_row: None, ..all.with_burst_closed() });
}

proof fn lemma_burst_answerable(steps: Seq<ToolStep>)
    requires
        all_in_burst(steps),
    ensures
        answerable(steps),
        row_ids(steps) == Set::<Seq<char>>::empty(),
    decreases steps.len(),
{
    if steps.len() > 0 {
        lemma_burst_answerable(steps.drop_last());
    }
}

/// The row of a burst.
proof fn lemma_burst(v: TranscriptView, steps: Seq<ToolStep>)
    requires
        is_idle(v),
        all_in_burst(steps),
        v.rows.len() + steps.len() <= usize::MAX,
    ensures
        ({
            let next = taken(v, steps);
            &&& next.tool_burst.groups == grouped(summaries(steps))
            &&& next.tool_burst.failed == failures(steps)
            &&& failures(steps) <= steps.len()
            &&& summaries(steps).len() == 0 ==> next.burst_row is None && titles(next.rows)
                == titles(v.rows)
            &&& summaries(steps).len() > 0 ==> next.burst_row == Some(v.rows.len() as usize)
                && titles(next.rows) == titles(v.rows).push(
                (LineKind::Tool, tools::title_text(next.tool_burst)),
            )
        }),
    decreases steps.len(),
{
    if steps.len() > 0 {
        let earlier = steps.drop_last();
        lemma_burst(v, earlier);
        lemma_taken(v, earlier);
        let was = taken(v, earlier);
        lemma_titles_len(v.rows, was.rows);
        match steps.last() {
            ToolStep::Call { id, view } => {
                reveal(TranscriptView::with_tool_started);
                let counted = TranscriptView {
                    tool_burst: tools::after_start(
                        was.tool_burst,
                        id,
                        view.summary@,
                        event::text_view(view.detail),
                    ),
                    ..was
                };
                lemma_burst_row(counted);
                assert(summaries(steps).drop_last() =~= summaries(earlier));
                if summaries(earlier).len() > 0 {
                    assert(titles(was.rows)[v.rows.len() as int].0 == LineKind::Tool);
                    assert(titles(counted.with_burst_row().rows) =~= titles(v.rows).push(
                        (LineKind::Tool, tools::title_text(counted.tool_burst)),
                    ));
                }
            },
            ToolStep::Result { id, ok, output } => {
                reveal(TranscriptView::with_tool_ended);
                lemma_called(earlier, id);
                let counted = TranscriptView {
                    tool_burst: tools::after_finish(
                        was.tool_burst,
                        id,
                        !ok,
                        if ok {
                            None
                        } else {
                            Some(output)
                        },
                    ),
                    ..was
                };
                lemma_burst_row(counted);
                assert(titles(was.rows)[v.rows.len() as int].0 == LineKind::Tool);
                if !ok {
                    assert(titles(counted.with_burst_row().rows) =~= titles(v.rows).push(
                        (LineKind::Tool, tools::title_text(counted.tool_burst)),
                    ));
                }
            },
        }
    }
}

/// A call that waits for its result was told.
proof fn lemma_called(steps: Seq<ToolStep>, id: Seq<char>)
    requires
        burst_ids(steps).contains(id),
    ensures
        summaries(steps).len() > 0,
    decreases steps.len(),
{
    if steps.len() > 0 {
        match steps.last() {
            ToolStep::Call { .. } => {},
            ToolStep::Result { .. } => {
                lemma_called(steps.drop_last(), id);
            },
        }
    }
}

/// A history without times says the same of tool calls.
proof fn lemma_untimed(messages: Seq<Message>)
    ensures
        history_steps(model::untimed(messages)) == history_steps(messages),
        tools_only(messages) ==> tools_only(model::untimed(messages)),
    decreases messages.len(),
{
    let other = model::untimed(messages);
    if messages.len() > 0 {
        lemma_untimed(messages.drop_last());
        assert(other.drop_last() =~= model::untimed(messages.drop_last()));
    }
    if tools_only(messages) {
        assert forall|i: int| 0 <= i < other.len() implies all_tools(
            (#[trigger] other[i]).role,
            other[i].content@,
        ) by {
            assert(all_tools(messages[i].role, messages[i].content@));
        }
    }
}

/// Whether an event says that a call began.
pub open spec fn begins(ev: AppEvent, call_id: u64, view: ToolView) -> bool {
    ev == AppEvent::Agent(AgentEvent::ToolStarted { call_id, view })
}

/// Whether an event says that a call ended, well or not.
pub open spec fn ends(ev: AppEvent, call_id: u64, ok: bool) -> bool {
    match ev {
        AppEvent::Agent(AgentEvent::ToolFinished { call_id: id, result }) => id == call_id
            && TranscriptView::outcome(result).0 == ok,
        _ => false,
    }
}

/// Whether events tell some calls one by one: each ends before the next begins.
pub open spec fn one_by_one(
    evs: Seq<AppEvent>,
    call_ids: Seq<u64>,
    views: Seq<ToolView>,
    oks: Seq<bool>,
) -> bool {
    &&& evs.len() == 2 * views.len()
    &&& forall|i: int|
        #![trigger views[i]]
        0 <= i < views.len() ==> begins(evs[2 * i], call_ids[i], views[i]) && ends(
            evs[2 * i + 1],
            call_ids[i],
            oks[i],
        )
}

/// Whether events tell some calls side by side: all begin before one ends.
pub open spec fn side_by_side(
    evs: Seq<AppEvent>,
    call_ids: Seq<u64>,
    views: Seq<ToolView>,
    oks: Seq<bool>,
) -> bool {
    &&& evs.len() == 2 * views.len()
    &&& forall|i: int|
        #![trigger views[i]]
        0 <= i < views.len() ==> begins(evs[i], call_ids[i], views[i]) && ends(
            evs[views.len() + i],
            call_ids[i],
            oks[i],
        )
}

/// Whether a history holds one answer that makes some calls, and then the result
/// of each.
pub open spec fn holds_calls(
    messages: Seq<Message>,
    ids: Seq<Seq<char>>,
    views: Seq<ToolView>,
    oks: Seq<bool>,
) -> bool {
    &&& messages.len() == views.len() + 1
    &&& messages[0].role is Assistant
    &&& messages[0].content@.len() == views.len()
    &&& forall|i: int|
        #![trigger views[i]]
        #![trigger messages[0].content@[i]]
        0 <= i < views.len() ==> {
            let answer = messages[i + 1];
            &&& messages[0].content@[i] matches ContentBlock::ToolUse { id, view } && id@ == ids[i]
                && view == views[i]
            &&& answer.role is Tool
            &&& answer.content@.len() == 1
            &&& answer.content@[0] matches ContentBlock::ToolResult {
                tool_use_id,
                content,
                is_error,
            } && tool_use_id@ == ids[i] && is_error == !oks[i]
        }
}

/// A restored session shows the row that its calls had while they were live,
/// whether they ran one by one or side by side: a burst of calls with ids of
/// their own, restored from the answer that made them and their results.
pub proof fn restored_sessions_show_the_live_rows(
    v: TranscriptView,
    evs: Seq<AppEvent>,
    messages: Seq<Message>,
    call_ids: Seq<u64>,
    ids: Seq<Seq<char>>,
    views: Seq<ToolView>,
    oks: Seq<bool>,
)
    requires
        is_idle(v),
        call_ids.len() == views.len(),
        ids.len() == views.len(),
        oks.len() == views.len(),
        call_ids.no_duplicates(),
        ids.no_duplicates(),
        forall|i: int| 0 <= i < views.len() ==> (#[trigger] views[i]).collapse,
        one_by_one(evs, call_ids, views, oks) || side_by_side(evs, call_ids, views, oks),
        holds_calls(messages, ids, views, oks),
        v.rows.len() + evs.len() <= usize::MAX,
    ensures
        titles(v.seeded(messages).rows) == titles(after_events(v, evs).rows),
        titles(v.seeded(model::untimed(messages)).rows) == titles(after_events(v, evs).rows),
{
    let n = views.len();
    let stored = history_steps(messages);
    lemma_held(messages, ids, views, oks, n);
    assert(messages.take(n as int + 1) =~= messages);
    lemma_side_by_side(stored, ids, views, oks, n);
    assert(stored.take(2 * n as int) =~= stored);
    assert(oks.take(n as int) =~= oks);
    let steps = Seq::new(evs.len(), |i: int| live_step(evs[i])->0);
    let live_ids = Seq::new(n, |i: int| text::decimal(call_ids[i] as nat));
    assert forall|i: int, j: int| 0 <= i < n && 0 <= j < n && i != j implies live_ids[i]
        != live_ids[j] by {
        if live_ids[i] == live_ids[j] {
            text::decimals_differ(call_ids[i] as nat, call_ids[j] as nat);
        }
    }
    if one_by_one(evs, call_ids, views, oks) {
        assert forall|i: int| #![trigger views[i]] 0 <= i < n implies runs(
            steps[2 * i],
            steps[2 * i + 1],
            live_ids[i],
            views[i],
            oks[i],
        ) by {
            assert(begins(evs[2 * i], call_ids[i], views[i]));
        }
        assert forall|j: int| 0 <= j < evs.len() implies live_step(#[trigger] evs[j]) == Some(
            steps[j],
        ) by {
            let i = j / 2;
            assert(begins(evs[2 * i], call_ids[i], views[i]));
            assert(j == 2 * i || j == 2 * i + 1);
        }
        lemma_one_by_one(steps, live_ids, views, oks, n);
    } else {
        assert forall|i: int| #![trigger views[i]] 0 <= i < n implies runs(
            steps[i],
            steps[n + i],
            live_ids[i],
            views[i],
            oks[i],
        ) by {
            assert(begins(evs[i], call_ids[i], views[i]));
        }
        assert forall|j: int| 0 <= j < evs.len() implies live_step(#[trigger] evs[j]) == Some(
            steps[j],
        ) by {
            let i = if j < n {
                j
            } else {
                j - n
            };
            assert(begins(evs[i], call_ids[i], views[i]));
        }
        lemma_side_by_side(steps, live_ids, views, oks, n);
    }
    assert(steps.take(2 * n as int) =~= steps);
    restored_bursts_match_live_ones(v, evs, steps, messages);
}

/// Whether two steps are those of a call.
spec fn runs(first: ToolStep, last: ToolStep, id: Seq<char>, view: ToolView, ok: bool) -> bool {
    &&& first == ToolStep::Call { id, view }
    &&& match last {
        ToolStep::Result { id: of, ok: how, output } => of == id && how == ok,
        _ => false,
    }
}

/// What some calls are told as.
spec fn told(views: Seq<ToolView>) -> Seq<Seq<char>> {
    Seq::new(views.len(), |i: int| views[i].summary@)
}

/// How many of some calls failed.
spec fn failed(oks: Seq<bool>) -> nat
    decreases oks.len(),
{
    if oks.len() == 0 {
        0
    } else {
        failed(oks.drop_last()) + if oks.last() {
            0nat
        } else {
            1nat
        }
    }
}

proof fn lemma_one_by_one(
    steps: Seq<ToolStep>,
    ids: Seq<Seq<char>>,
    views: Seq<ToolView>,
    oks: Seq<bool>,
    k: nat,
)
    requires
        k <= views.len(),
        steps.len() == 2 * views.len(),
        oks.len() == views.len(),
        forall|i: int| 0 <= i < views.len() ==> (#[trigger] views[i]).collapse,
        forall|i: int|
            #![trigger views[i]]
            0 <= i < views.len() ==> runs(
                steps[2 * i],
                steps[2 * i + 1],
                ids[i],
                views[i],
                oks[i],
            ),
    ensures
        ({
            let part = steps.take(2 * k as int);
            &&& all_in_burst(part)
            &&& summaries(part) == told(views.take(k as int))
            &&& failures(part) == failed(oks.take(k as int))
        }),
        k == views.len() ==> told(views.take(k as int)) == told(views),
        k == oks.len() ==> oks.take(k as int) == oks,
    decreases k,
{
    assert(k == views.len() ==> views.take(k as int) =~= views);
    assert(k == oks.len() ==> oks.take(k as int) =~= oks);
    let part = steps.take(2 * k as int);
    if k == 0 {
        assert(told(views.take(0)) =~= Seq::<Seq<char>>::empty());
    } else {
        let i = k - 1;
        lemma_one_by_one(steps, ids, views, oks, i as nat);
        assert(views[i].collapse);
        let half = part.drop_last();
        assert(half.drop_last() =~= steps.take(2 * i));
        assert(half.last() == steps[2 * i]);
        assert(part.last() == steps[2 * i + 1]);
        assert(oks.take(k as int).drop_last() =~= oks.take(i));
        assert(told(views.take(k as int)) =~= told(views.take(i)).push(views[i].summary@));
        assert(all_in_burst(half));
        assert(burst_ids(half).contains(ids[i]));
        assert(summaries(half) == summaries(half.drop_last()).push(views[i].summary@));
        assert(failures(half) == failures(half.drop_last()));
        assert(oks.take(k as int).last() == oks[i]);
    }
}

proof fn lemma_side_by_side(
    steps: Seq<ToolStep>,
    ids: Seq<Seq<char>>,
    views: Seq<ToolView>,
    oks: Seq<bool>,
    k: nat,
)
    requires
        k <= views.len(),
        steps.len() == 2 * views.len(),
        ids.len() == views.len(),
        oks.len() == views.len(),
        ids.no_duplicates(),
        forall|i: int| 0 <= i < views.len() ==> (#[trigger] views[i]).collapse,
        forall|i: int|
            #![trigger views[i]]
            0 <= i < views.len() ==> runs(
                steps[i],
                steps[views.len() + i],
                ids[i],
                views[i],
                oks[i],
            ),
    ensures
        ({
            let part = steps.take(views.len() as int + k);
            &&& all_in_burst(part)
            &&& forall|i: int|
                k <= i < views.len() ==> #[trigger] burst_ids(part).contains(ids[i])
            &&& summaries(part) == told(views)
            &&& failures(part) == failed(oks.take(k as int))
        }),
        k == views.len() ==> steps.take(views.len() as int + k) == steps,
        k == oks.len() ==> oks.take(k as int) == oks,
    decreases k,
{
    let n = views.len();
    let part = steps.take(n as int + k);
    assert(k == oks.len() ==> oks.take(k as int) =~= oks);
    assert(k == views.len() ==> part =~= steps);
    if k == 0 {
        lemma_calls(steps, ids, views, oks, n);
        assert(views.take(n as int) =~= views);
    } else {
        let i = k - 1;
        lemma_side_by_side(steps, ids, views, oks, i as nat);
        let before = steps.take(n + i);
        assert(part.drop_last() =~= before);
        assert(views[i].collapse);
        assert(part.last() == steps[n + i]);
        assert(oks.take(k as int).drop_last() =~= oks.take(i));
        assert(burst_ids(before).contains(ids[i]));
        assert forall|j: int| k <= j < n implies #[trigger] burst_ids(part).contains(ids[j]) by {
            assert(burst_ids(before).contains(ids[j]));
            assert(ids[j] != ids[i]);
        }
    }
}

proof fn lemma_calls(
    steps: Seq<ToolStep>,
    ids: Seq<Seq<char>>,
    views: Seq<ToolView>,
    oks: Seq<bool>,
    k: nat,
)
    requires
        k <= views.len(),
        steps.len() == 2 * views.len(),
        forall|i: int| 0 <= i < views.len() ==> (#[trigger] views[i]).collapse,
        forall|i: int|
            #![trigger views[i]]
            0 <= i < views.len() ==> runs(
                steps[i],
                steps[views.len() + i],
                ids[i],
                views[i],
                oks[i],
            ),
    ensures
        ({
            let part = steps.take(k as int);
            &&& all_in_burst(part)
            &&& forall|i: int| 0 <= i < k ==> #[trigger] burst_ids(part).contains(ids[i])
            &&& summaries(part) == told(views.take(k as int))
            &&& failures(part) == 0
        }),
    decreases k,
{
    let part = steps.take(k as int);
    if k == 0 {
        assert(told(views.take(0)) =~= Seq::<Seq<char>>::empty());
    } else {
        let i = k - 1;
        lemma_calls(steps, ids, views, oks, i as nat);
        assert(part.drop_last() =~= steps.take(i));
        assert(views[i].collapse);
        assert(part.last() == steps[i]);
        assert(told(views.take(k as int)) =~= told(views.take(i)).push(views[i].summary@));
        assert forall|j: int| 0 <= j < k implies #[trigger] burst_ids(part).contains(ids[j]) by {
            if j < i {
                assert(burst_ids(steps.take(i)).contains(ids[j]));
            }
        }
    }
}

/// The steps of an answer that makes some calls and of the first results.
proof fn lemma_held(
    messages: Seq<Message>,
    ids: Seq<Seq<char>>,
    views: Seq<ToolView>,
    oks: Seq<bool>,
    k: nat,
)
    requires
        holds_calls(messages, ids, views, oks),
        k <= views.len(),
    ensures
        ({
            let n = views.len();
            let part = messages.take(k as int + 1);
            let steps = history_steps(part);
            &&& tools_only(part)
            &&& steps.len() == n + k
            &&& forall|i: int|
                #![trigger views[i]]
                0 <= i < n ==> steps[i] == (ToolStep::Call { id: ids[i], view: views[i] })
            &&& forall|i: int|
                #![trigger views[i]]
                0 <= i < k ==> runs(steps[i], steps[n + i], ids[i], views[i], oks[i])
        }),
    decreases k,
{
    let n = views.len();
    let part = messages.take(k as int + 1);
    let steps = history_steps(part);
    let m = part.last();
    if k == 0 {
        assert(part.drop_last() =~= Seq::<Message>::empty());
        assert(history_steps(part.drop_last()).len() == 0);
        assert(m == messages[0]);
        assert(steps =~= block_steps(m.role, m.content@));
        assert forall|i: int| 0 <= i < n implies block_step(m.role, #[trigger] m.content@[i]) is Some
            && block_step(m.role, m.content@[i])->0 == (ToolStep::Call {
            id: ids[i],
            view: views[i],
        }) by {
            assert(m.content@[i] == messages[0].content@[i]);
        }
        assert forall|i: int| #![trigger views[i]] 0 <= i < n implies steps[i] == (ToolStep::Call {
            id: ids[i],
            view: views[i],
        }) by {
            assert(block_step(m.role, m.content@[i]) is Some);
        }
    } else {
        let i = k - 1;
        let before = messages.take(k as int);
        lemma_held(messages, ids, views, oks, i as nat);
        assert(part.drop_last() =~= before);
        assert(m == messages[i + 1]);
        assert(messages[0].content@[i] matches ContentBlock::ToolUse { .. });
        assert(block_step(m.role, m.content@[0]) is Some);
        assert(steps.last() == block_step(m.role, m.content@[0])->0);
        assert forall|j: int| 0 <= j < part.len() implies all_tools(
            (#[trigger] part[j]).role,
            part[j].content@,
        ) by {
            if j < before.len() {
                assert(part[j] == before[j]);
            }
        }
    }
}

} // verus!
