//! What the rows of the transcript hold after something happened.
use vstd::prelude::*;

use super::super::event;
use super::super::event::{
    AgentEvent, AppEvent, ContentBlock, Message, ShellEvent, ToolResult, ToolView,
};
use super::collapsible;
use super::kinds::LineKind;
use super::model;
use super::model::{RowView, TranscriptView};
use super::tools;
use super::wrap;
use crate::text;

verus! {

/// What a row holds, folded or not: its kind, its title, and the texts of its
/// body in order, the titles of nested bodies among them.
#[verifier::ext_equal]
pub struct Held {
    pub kind: LineKind,
    pub title: Seq<char>,
    pub body: Option<Seq<Seq<char>>>,
}

/// The texts of a body in order, the titles of nested bodies among them.
pub open spec fn texts_in(sections: Seq<collapsible::SectionView>) -> Seq<Seq<char>>
    decreases sections,
{
    if sections.len() == 0 {
        Seq::empty()
    } else {
        texts_in(sections.drop_last()) + texts_of(sections.last())
    }
}

/// The texts of a section of a body.
pub open spec fn texts_of(section: collapsible::SectionView) -> Seq<Seq<char>>
    decreases section,
{
    match section {
        collapsible::SectionView::Text(t) => seq![t],
        collapsible::SectionView::Item { kind, title, detail } => seq![title] + texts_in(
            detail.sections,
        ),
    }
}

/// What a row holds.
pub open spec fn held(row: RowView) -> Held {
    Held {
        kind: row.kind,
        title: row.text,
        body: match row.collapsible {
            Some(c) => Some(texts_in(c.sections)),
            None => None,
        },
    }
}

/// What some rows hold.
pub open spec fn all_held(rows: Seq<RowView>) -> Seq<Held> {
    Seq::new(rows.len(), |i: int| held(rows[i]))
}

/// A row without a body.
pub open spec fn plain(kind: LineKind, title: Seq<char>) -> Held {
    Held { kind, title, body: None }
}

/// A row with a body of one text.
pub open spec fn with_body(kind: LineKind, title: Seq<char>, body: Seq<char>) -> Held {
    Held { kind, title, body: Some(seq![body]) }
}

/// What the rows hold once the reasoning under way, if there is any, is over and
/// nobody said how long it took.
pub open spec fn stopped(v: TranscriptView) -> Seq<Held> {
    let rows = all_held(v.rows);
    match v.thinking_row {
        Some(r) => rows.update(r as int, Held { title: "Thought"@, ..rows[r as int] }),
        None => rows,
    }
}

/// The row that streamed text becomes, where there is more than line ends.
pub open spec fn said(v: TranscriptView) -> Seq<Held> {
    let t = wrap::message_text(v.streaming);
    if t.len() > 0 {
        seq![plain(v.stream_kind, t)]
    } else {
        Seq::empty()
    }
}

/// Whether all bodies above the last row are folded, but for those opened by
/// hand.
pub open spec fn folded_above(rows: Seq<RowView>) -> bool {
    forall|i: int|
        0 <= i < rows.len() - 1 ==> ((#[trigger] rows[i]).collapsible matches Some(c) ==> c.expanded
            ==> c.pinned)
}

/// The event of an agent.
pub open spec fn agent(event: AgentEvent) -> AppEvent {
    AppEvent::Agent(event)
}

proof fn lemma_folded_texts(s: Seq<collapsible::SectionView>)
    ensures
        texts_in(collapsible::folded_sections(s)) == texts_in(s),
    decreases s,
{
    if s.len() > 0 {
        lemma_folded_texts(s.drop_last());
        collapsible::lemma_folded_sections(s);
        let f = collapsible::folded_sections(s);
        assert(f.drop_last() =~= collapsible::folded_sections(s.drop_last()));
        assert(f.last() == collapsible::folded_section(s.last()));
        lemma_folded_section_texts(s.last());
    }
}

proof fn lemma_folded_section_texts(s: collapsible::SectionView)
    ensures
        texts_of(collapsible::folded_section(s)) == texts_of(s),
    decreases s,
{
    if let collapsible::SectionView::Item { kind, title, detail } = s {
        lemma_folded_texts(detail.sections);
    }
}

proof fn lemma_one_text(t: Seq<char>)
    ensures
        texts_in(seq![collapsible::SectionView::Text(t)]) == seq![t],
{
    let s = seq![collapsible::SectionView::Text(t)];
    assert(s.drop_last() =~= Seq::<collapsible::SectionView>::empty());
    reveal_with_fuel(texts_in, 2);
    reveal_with_fuel(texts_of, 2);
    assert(texts_in(s) =~= seq![t]);
}

proof fn lemma_folded_row(row: RowView)
    ensures
        held(model::folded_row(row)) == held(row),
        model::folded_row(row).collapsible matches Some(c) ==> c.expanded ==> c.pinned,
{
    if let Some(c) = row.collapsible {
        lemma_folded_texts(c.sections);
    }
}

/// Whether two transcripts differ at most in how their rows are drawn and folded,
/// and in what is selected.
pub open spec fn alike(a: TranscriptView, b: TranscriptView) -> bool {
    &&& all_held(a.rows) == all_held(b.rows)
    &&& a.streaming == b.streaming
    &&& a.stream_kind == b.stream_kind
    &&& a.thinking_row == b.thinking_row
    &&& a.tool_burst == b.tool_burst
    &&& a.burst_row == b.burst_row
    &&& a.detail_ids == b.detail_ids
    &&& a.area == b.area
    &&& a.top == b.top
}

proof fn lemma_held_len(rows: Seq<RowView>)
    ensures
        all_held(rows).len() == rows.len(),
{
}

pub proof fn lemma_rewrapped(v: TranscriptView)
    ensures
        alike(v.rewrapped(), v),
        v.rewrapped().rows.len() == v.rows.len(),
        forall|i: int|
            0 <= i < v.rows.len() ==> (#[trigger] v.rewrapped().rows[i]).collapsible
                == v.rows[i].collapsible,
{
    reveal(TranscriptView::rewrapped);
    assert(all_held(v.rewrapped().rows) =~= all_held(v.rows));
}

pub proof fn lemma_folded(v: TranscriptView)
    ensures
        alike(v.folded(), v),
        v.folded().rows.len() == v.rows.len(),
        forall|i: int|
            0 <= i < v.rows.len() ==> ((#[trigger] v.folded().rows[i]).collapsible matches Some(c)
                ==> c.expanded ==> c.pinned),
{
    reveal(TranscriptView::folded);
    let next = TranscriptView { rows: model::folded_rows(v.rows), ..v };
    lemma_rewrapped(next);
    assert forall|i: int| 0 <= i < v.rows.len() implies held(next.rows[i]) == held(v.rows[i])
        && ((#[trigger] next.rows[i]).collapsible matches Some(c) ==> c.expanded ==> c.pinned) by {
        lemma_folded_row(v.rows[i]);
    }
    assert(all_held(next.rows) =~= all_held(v.rows));
    assert forall|i: int| 0 <= i < v.rows.len() implies ((
    #[trigger] v.folded().rows[i]).collapsible matches Some(c) ==> c.expanded ==> c.pinned) by {
        assert(next.rows[i].collapsible matches Some(c) ==> c.expanded ==> c.pinned);
        assert(v.folded().rows[i].collapsible == next.rows[i].collapsible);
    }
}

proof fn lemma_row(
    v: TranscriptView,
    kind: LineKind,
    t: Seq<char>,
    body: Option<collapsible::CollapsibleView>,
)
    ensures
        ({
            let next = v.with_row(kind, t, body);
            let row = RowView { kind, text: t, collapsible: body, headers: Seq::empty() };
            &&& all_held(next.rows) == all_held(v.rows).push(held(row))
            &&& next.rows.len() == v.rows.len() + 1
            &&& next.rows.last().collapsible == body
            &&& forall|i: int|
                0 <= i < v.rows.len() ==> (#[trigger] next.rows[i]).collapsible
                    == v.rows[i].collapsible
            &&& next.streaming == v.streaming
            &&& next.stream_kind == v.stream_kind
            &&& kind != LineKind::Thinking ==> next.thinking_row == v.thinking_row
            &&& kind == LineKind::Thinking ==> next.thinking_row == Some(v.rows.len() as usize)
            &&& next.tool_burst == v.tool_burst
            &&& next.burst_row == v.burst_row
            &&& next.detail_ids == v.detail_ids
        }),
{
    reveal(TranscriptView::with_row);
    let row = RowView { kind, text: t, collapsible: body, headers: Seq::empty() };
    assert(all_held(v.with_row(kind, t, body).rows) =~= all_held(v.rows).push(held(row)));
}

proof fn lemma_folding_row(
    v: TranscriptView,
    kind: LineKind,
    t: Seq<char>,
    body: Option<collapsible::CollapsibleView>,
)
    ensures
        ({
            let next = v.with_folding_row(kind, t, body);
            let row = RowView { kind, text: t, collapsible: body, headers: Seq::empty() };
            &&& all_held(next.rows) == all_held(v.rows).push(held(row))
            &&& next.rows.len() == v.rows.len() + 1
            &&& next.rows.last().collapsible == body
            &&& folded_above(next.rows)
            &&& next.streaming == v.streaming
            &&& next.stream_kind == v.stream_kind
            &&& kind != LineKind::Thinking ==> next.thinking_row == v.thinking_row
            &&& kind == LineKind::Thinking ==> next.thinking_row == Some(v.rows.len() as usize)
            &&& next.tool_burst == v.tool_burst
            &&& next.burst_row == v.burst_row
            &&& next.detail_ids == v.detail_ids
        }),
{
    reveal(TranscriptView::with_folding_row);
    lemma_folded(v);
    lemma_held_len(v.rows);
    lemma_held_len(v.folded().rows);
    lemma_row(v.folded(), kind, t, body);
}

/// A message of one of the kinds that show their text as it is.
proof fn lemma_message(v: TranscriptView, kind: LineKind, t: Seq<char>)
    requires
        kind == LineKind::System || kind == LineKind::Error || kind == LineKind::Text || kind
            == LineKind::User || kind == LineKind::Shell,
    ensures
        ({
            let next = v.with_message(kind, t);
            &&& all_held(next.rows) == all_held(v.rows).push(plain(kind, t))
            &&& folded_above(next.rows)
            &&& next.streaming == v.streaming
            &&& next.stream_kind == v.stream_kind
            &&& next.thinking_row == v.thinking_row
            &&& next.tool_burst == v.tool_burst
            &&& next.burst_row == v.burst_row
            &&& next.detail_ids == v.detail_ids
        }),
{
    reveal(TranscriptView::with_message);
    lemma_folding_row(v, kind, t, None);
}

proof fn lemma_closed(v: TranscriptView)
    requires
        v.wf(),
    ensures
        ({
            let next = v.with_burst_closed();
            &&& all_held(next.rows) == all_held(v.rows)
            &&& next.rows.len() == v.rows.len()
            &&& next.streaming == v.streaming
            &&& next.stream_kind == v.stream_kind
            &&& next.thinking_row == v.thinking_row
            &&& next.tool_burst == tools::empty_burst()
            &&& next.burst_row is None
            &&& next.detail_ids == v.detail_ids
            &&& next.wf()
        }),
{
    reveal(TranscriptView::with_burst_closed);
    if let Some(r) = v.burst_row {
        let next = TranscriptView {
            tool_burst: tools::empty_burst(),
            burst_row: None,
            rows: v.rows.update(r as int, model::folded_row(v.rows[r as int])),
            ..v
        };
        lemma_folded_row(v.rows[r as int]);
        assert(all_held(next.rows) =~= all_held(v.rows));
        lemma_rewrapped(next);
    }
}

proof fn lemma_retired(v: TranscriptView, title: Seq<char>)
    requires
        v.wf(),
    ensures
        ({
            let next = v.with_thinking_retired(title);
            let rows = all_held(v.rows);
            &&& all_held(next.rows) == match v.thinking_row {
                Some(r) => rows.update(r as int, Held { title, ..rows[r as int] }),
                None => rows,
            }
            &&& next.rows.len() == v.rows.len()
            &&& v.thinking_row matches Some(r) ==> (next.rows[r as int].collapsible matches Some(
                c,
            ) ==> c.expanded ==> c.pinned)
            &&& next.streaming == v.streaming
            &&& next.stream_kind == v.stream_kind
            &&& next.thinking_row is None
            &&& next.tool_burst == v.tool_burst
            &&& next.burst_row == v.burst_row
            &&& next.detail_ids == v.detail_ids
            &&& next.wf()
        }),
{
    reveal(TranscriptView::with_thinking_retired);
    if let Some(r) = v.thinking_row {
        let row = v.rows[r as int];
        let next = TranscriptView {
            thinking_row: None,
            rows: v.rows.update(r as int, RowView { text: title, ..model::folded_row(row) }),
            ..v
        };
        lemma_folded_row(row);
        let rows = all_held(v.rows);
        assert(all_held(next.rows) =~= rows.update(r as int, Held { title, ..rows[r as int] }));
        lemma_rewrapped(next);
        assert(v.with_thinking_retired(title).rows[r as int].collapsible
            == next.rows[r as int].collapsible);
    }
}

proof fn lemma_flushed(v: TranscriptView)
    requires
        v.wf(),
        v.thinking_row is None,
        v.stream_kind != LineKind::Thinking,
    ensures
        ({
            let next = v.with_stream_flushed();
            &&& all_held(next.rows) == all_held(v.rows) + said(v)
            &&& next.streaming.len() == 0
            &&& next.thinking_row is None
            &&& next.tool_burst == v.tool_burst
            &&& next.burst_row == v.burst_row
            &&& next.detail_ids == v.detail_ids
            &&& next.wf()
        }),
{
    reveal(TranscriptView::with_stream_flushed);
    let t = wrap::message_text(v.streaming);
    lemma_row(v.without_stream(), v.stream_kind, t, None);
    assert(all_held(v.with_stream_flushed().rows) =~= all_held(v.rows) + said(v));
}

proof fn lemma_settled(v: TranscriptView)
    requires
        v.wf(),
        v.stream_kind != LineKind::Thinking,
    ensures
        ({
            let next = v.with_thinking_stopped().with_stream_flushed();
            &&& all_held(next.rows) == stopped(v) + said(v)
            &&& next.streaming.len() == 0
            &&& next.thinking_row is None
            &&& next.tool_burst == v.tool_burst
            &&& next.burst_row == v.burst_row
            &&& next.detail_ids == v.detail_ids
            &&& next.wf()
        }),
{
    lemma_retired(v, wrap::THOUGHT_LABEL@);
    lemma_flushed(v.with_thinking_stopped());
}

/// Rows that stood there before stay there before the others.
proof fn lemma_settled_len(v: TranscriptView)
    requires
        v.wf(),
    ensures
        stopped(v).len() == v.rows.len(),
        forall|i: int|
            0 <= i < v.rows.len() ==> (#[trigger] stopped(v)[i]).kind == v.rows[i].kind
                && stopped(v)[i].body == held(v.rows[i]).body,
        forall|i: int|
            0 <= i < v.rows.len() && v.thinking_row != Some(i as usize) ==> #[trigger] stopped(v)[i]
                == held(v.rows[i]),
{
}

/// Streamed text goes behind what was streamed before, and no row changes but
/// that reasoning under way is over. Text in two pieces is the text in one.
pub proof fn streamed_text_grows(v: TranscriptView, text: String)
    requires
        v.wf(),
        v.stream_kind == LineKind::Text,
    ensures
        v.after(agent(AgentEvent::TextDelta { text })).streaming == v.streaming + text@,
        v.after(agent(AgentEvent::TextDelta { text })).stream_kind == LineKind::Text,
        all_held(v.after(agent(AgentEvent::TextDelta { text })).rows) == stopped(v),
{
    reveal(TranscriptView::with_streamed);
    lemma_closed(v);
    let closed = v.with_burst_closed();
    lemma_retired(closed, wrap::THOUGHT_LABEL@);
    let quiet = closed.with_thinking_stopped();
    lemma_folded(quiet);
    assert(v.streaming + Seq::<char>::empty() =~= v.streaming);
    if text@.len() == 0 {
        assert(text@ =~= Seq::<char>::empty());
    }
}

/// A tool call with a row of its own stands behind what was streamed before it,
/// which is kept as a row. Its row shows the summary, and the detail as its body.
pub proof fn calls_stand_behind_what_was_said(v: TranscriptView, call_id: u64, view: ToolView)
    requires
        v.wf(),
        v.stream_kind != LineKind::Thinking,
        !view.collapse,
    ensures
        ({
            let next = v.after(agent(AgentEvent::ToolStarted { call_id, view }));
            let call = match view.detail {
                Some(detail) => with_body(LineKind::Diff, view.summary@, detail@),
                None => plain(LineKind::Tool, view.summary@),
            };
            &&& all_held(next.rows) == (stopped(v) + said(v)).push(call)
            &&& next.streaming.len() == 0
            &&& folded_above(next.rows)
            &&& next.rows.last().collapsible matches Some(c) ==> c.expanded
            &&& next.detail_ids == v.detail_ids.insert(
                text::decimal(call_id as nat),
                view.detail is Some,
            )
            &&& next.burst_row is None
        }),
{
    reveal(TranscriptView::with_tool_started);
    lemma_settled(v);
    let settled = v.with_thinking_stopped().with_stream_flushed();
    lemma_closed(settled);
    let closed = settled.with_burst_closed();
    let noted = TranscriptView {
        detail_ids: closed.detail_ids.insert(text::decimal(call_id as nat), view.detail is Some),
        ..closed
    };
    match view.detail {
        Some(t) => {
            lemma_one_text(t@);
            lemma_folding_row(noted, LineKind::Diff, view.summary@, Some(model::text_body(t@)));
        },
        None => {
            lemma_folding_row(noted, LineKind::Tool, view.summary@, None);
        },
    }
}

/// A tool call that joins a burst: where none is open, the burst gets a row
/// behind what was streamed before; else the burst's row is brought up to date
/// and what was streamed goes behind the others. The title tells the calls of the
/// burst, and the body their labels and diffs.
pub proof fn joining_calls_stand_behind_what_was_said(
    v: TranscriptView,
    call_id: u64,
    view: ToolView,
)
    requires
        v.wf(),
        v.stream_kind != LineKind::Thinking,
        view.collapse,
        v.rows.len() + 1 < usize::MAX,
        v.burst_row matches Some(r) ==> v.rows[r as int].collapsible is Some
            && v.thinking_row != Some(r),
    ensures
        ({
            let next = v.after(agent(AgentEvent::ToolStarted { call_id, view }));
            let before = stopped(v) + said(v);
            let title = tools::title_text(next.tool_burst);
            let body = texts_in(tools::burst_sections(next.tool_burst.calls));
            &&& all_held(next.rows) == match v.burst_row {
                Some(r) => before.update(
                    r as int,
                    Held { kind: v.rows[r as int].kind, title, body: Some(body) },
                ),
                None => before.push(Held { kind: LineKind::Tool, title, body: Some(body) }),
            }
            &&& next.burst_row == match v.burst_row {
                Some(r) => Some(r),
                None => Some(before.len() as usize),
            }
            &&& next.streaming.len() == 0
            &&& next.tool_burst.calls.len() == v.tool_burst.calls.len() + 1
            &&& next.tool_burst.calls.drop_last() == v.tool_burst.calls
            &&& next.tool_burst.calls.last().diff == event::text_view(view.detail)
            &&& next.tool_burst.calls.last().error is None
            &&& next.tool_burst.failed == v.tool_burst.failed
            &&& next.tool_burst.pending == v.tool_burst.pending.insert(
                text::decimal(call_id as nat),
                v.tool_burst.calls.len() as usize,
            )
            &&& next.detail_ids == v.detail_ids
        }),
{
    reveal(TranscriptView::with_tool_started);
    lemma_settled(v);
    lemma_settled_len(v);
    let settled = v.with_thinking_stopped().with_stream_flushed();
    let counted = TranscriptView {
        tool_burst: tools::after_start(
            settled.tool_burst,
            text::decimal(call_id as nat),
            view.summary@,
            event::text_view(view.detail),
        ),
        ..settled
    };
    lemma_held_len(settled.rows);
    assert(counted.tool_burst.calls.drop_last() =~= v.tool_burst.calls);
    if let Some(r) = v.burst_row {
        let before = stopped(v) + said(v);
        assert(before[r as int] == held(v.rows[r as int]));
        assert(held(settled.rows[r as int]) == all_held(settled.rows)[r as int]);
    }
    lemma_burst_row(counted);
}

proof fn lemma_burst_row(v: TranscriptView)
    requires
        v.wf(),
        v.rows.len() < usize::MAX,
    ensures
        ({
            let next = v.with_burst_row();
            let title = tools::title_text(v.tool_burst);
            let body = texts_in(tools::burst_sections(v.tool_burst.calls));
            let rows = all_held(v.rows);
            &&& all_held(next.rows) == match v.burst_row {
                Some(r) => rows.update(
                    r as int,
                    Held {
                        title,
                        body: match rows[r as int].body {
                            Some(_) => Some(body),
                            None => None,
                        },
                        ..rows[r as int]
                    },
                ),
                None => rows.push(Held { kind: LineKind::Tool, title, body: Some(body) }),
            }
            &&& next.burst_row == match v.burst_row {
                Some(r) => Some(r),
                None => Some(v.rows.len() as usize),
            }
            &&& next.streaming == v.streaming
            &&& next.stream_kind == v.stream_kind
            &&& next.thinking_row == v.thinking_row
            &&& next.tool_burst == v.tool_burst
            &&& next.detail_ids == v.detail_ids
        }),
{
    reveal(TranscriptView::with_burst_row);
    let title = tools::title_text(v.tool_burst);
    let sections = tools::burst_sections(v.tool_burst.calls);
    let rows = all_held(v.rows);
    match v.burst_row {
        Some(r) => {
            let row = v.rows[r as int];
            let next = TranscriptView {
                rows: v.rows.update(
                    r as int,
                    RowView {
                        text: title,
                        collapsible: match row.collapsible {
                            Some(c) => Some(collapsible::CollapsibleView { sections, ..c }),
                            None => None,
                        },
                        ..row
                    },
                ),
                ..v
            };
            assert(all_held(next.rows) =~= rows.update(r as int, held(next.rows[r as int])));
            lemma_rewrapped(next);
        },
        None => {
            let body = Some(
                collapsible::CollapsibleView { sections, expanded: true, pinned: false },
            );
            lemma_folding_row(v, LineKind::Tool, title, body);
            let row = v.with_folding_row(LineKind::Tool, title, body);
            lemma_rewrapped(
                TranscriptView { burst_row: Some((row.rows.len() - 1) as usize), ..row },
            );
        },
    }
}

/// Reasoning goes behind the reasoning in the last row, or into a row of its own
/// that is titled as reasoning under way; no other row changes.
pub proof fn reasoning_grows(v: TranscriptView, text: String)
    requires
        v.wf(),
    ensures
        ({
            let next = v.after(agent(AgentEvent::ThinkingDelta { text }));
            let rows = all_held(v.rows);
            let n = rows.len() - 1;
            &&& next.streaming == v.streaming
            &&& if n >= 0 && rows[n].kind == LineKind::Thinking && rows[n].body is Some {
                let grown = all_held(next.rows)[n];
                &&& all_held(next.rows) == rows.update(n, grown)
                &&& grown.kind == LineKind::Thinking
                &&& grown.title == "Thinking..."@
                &&& grown.body is Some
                &&& wrap::concatenated(grown.body->0) == wrap::concatenated(rows[n].body->0)
                    + text@
            } else {
                &&& all_held(next.rows) == rows.push(
                    with_body(LineKind::Thinking, "Thinking..."@, text@),
                )
                &&& folded_above(next.rows)
                &&& next.thinking_row == Some(rows.len() as usize)
            }
        }),
{
    reveal(TranscriptView::with_thinking);
    lemma_closed(v);
    let closed = v.with_burst_closed();
    lemma_held_len(closed.rows);
    let rows = all_held(v.rows);
    let n = rows.len() - 1;
    if n >= 0 {
        assert(held(closed.rows[n]) == all_held(closed.rows)[n]);
    }
    if n >= 0 && rows[n].kind == LineKind::Thinking && rows[n].body is Some {
        let row = closed.rows[n];
        let c = row.collapsible->0;
        let sections = collapsible::appended(c.sections, text@);
        let next = TranscriptView {
            rows: closed.rows.update(
                n,
                RowView {
                    text: wrap::THINKING_LABEL@,
                    collapsible: Some(collapsible::CollapsibleView { sections, ..c }),
                    ..row
                },
            ),
            ..closed
        };
        assert(all_held(next.rows) =~= rows.update(n, held(next.rows[n])));
        lemma_rewrapped(next);
        lemma_appended(c.sections, text@);
    } else {
        lemma_one_text(text@);
        lemma_folding_row(
            closed,
            LineKind::Thinking,
            wrap::THINKING_LABEL@,
            Some(model::text_body(text@)),
        );
    }
}

proof fn lemma_appended(s: Seq<collapsible::SectionView>, t: Seq<char>)
    ensures
        wrap::concatenated(texts_in(collapsible::appended(s, t))) == wrap::concatenated(texts_in(s))
            + t,
{
    let a = collapsible::appended(s, t);
    reveal_with_fuel(texts_in, 2);
    reveal_with_fuel(texts_of, 2);
    if s.len() > 0 && s.last() is Text {
        let last = s.last()->Text_0;
        assert(a.drop_last() =~= s.drop_last());
        let before = texts_in(s.drop_last());
        assert(texts_in(s) =~= before.push(last));
        assert(texts_in(a) =~= before.push(last + t));
        wrap::lemma_concatenated_push(before, last);
        wrap::lemma_concatenated_push(before, last + t);
        assert(wrap::concatenated(before) + (last + t) =~= wrap::concatenated(before) + last + t);
    } else {
        assert(a.drop_last() =~= s);
        assert(texts_in(a) =~= texts_in(s).push(t));
        wrap::lemma_concatenated_push(texts_in(s), t);
    }
}

/// The end of reasoning titles its row by how long it took, and folds it.
pub proof fn finished_reasoning_is_titled(v: TranscriptView, duration_ms: u64)
    requires
        v.wf(),
    ensures
        ({
            let next = v.after(agent(AgentEvent::ThinkingDone { duration_ms }));
            let rows = all_held(v.rows);
            let title = "Thought for "@ + wrap::duration_text(duration_ms as nat);
            &&& all_held(next.rows) == match v.thinking_row {
                Some(r) => rows.update(r as int, Held { title, ..rows[r as int] }),
                None => rows,
            }
            &&& v.thinking_row matches Some(r) ==> (next.rows[r as int].collapsible matches Some(
                c,
            ) ==> c.expanded ==> c.pinned)
            &&& next.thinking_row is None
            &&& next.streaming == v.streaming
        }),
{
    lemma_retired(v, wrap::thought_text(Some(duration_ms)));
}

/// What a turn ends with: what was streamed becomes a row, and a failure tells
/// its message in a row behind it.
pub proof fn ended_turns_keep_what_was_said(v: TranscriptView, usage: event::Usage, message: String)
    requires
        v.wf(),
        v.stream_kind != LineKind::Thinking,
    ensures
        ({
            let next = v.after(agent(AgentEvent::Completed { usage }));
            &&& all_held(next.rows) == stopped(v) + said(v)
            &&& next.streaming.len() == 0
            &&& next.thinking_row is None
            &&& next.burst_row is None
        }),
        ({
            let next = v.after(agent(AgentEvent::Failed { message }));
            &&& all_held(next.rows) == (stopped(v) + said(v)).push(
                plain(LineKind::Error, message@),
            )
            &&& next.streaming.len() == 0
            &&& next.thinking_row is None
            &&& next.burst_row is None
        }),
{
    lemma_closed(v);
    let closed = v.with_burst_closed();
    lemma_settled(closed);
    let settled = closed.with_thinking_stopped().with_stream_flushed();
    lemma_message(settled, LineKind::Error, message@);
}

/// A turn that was cancelled keeps what was streamed, marked as unfinished, and
/// says that it was cancelled.
pub proof fn cancelled_turns_keep_what_was_said(v: TranscriptView)
    requires
        v.wf(),
        v.stream_kind == LineKind::Text,
    ensures
        ({
            let next = v.after(agent(AgentEvent::Cancelled));
            let t = wrap::message_text(v.streaming);
            let partial = if t.len() > 0 {
                seq![plain(LineKind::Text, t + "…"@)]
            } else {
                Seq::empty()
            };
            &&& all_held(next.rows) == (stopped(v) + partial).push(
                plain(LineKind::System, "cancelled"@),
            )
            &&& next.streaming.len() == 0
            &&& next.thinking_row is None
            &&& next.burst_row is None
        }),
{
    reveal(TranscriptView::with_cancelled);
    lemma_closed(v);
    let closed = v.with_burst_closed();
    lemma_retired(closed, wrap::THOUGHT_LABEL@);
    let quiet = closed.with_thinking_stopped();
    let t = wrap::message_text(quiet.streaming);
    let flushed = if quiet.streaming.len() == 0 {
        quiet
    } else if t.len() == 0 {
        quiet.without_stream()
    } else {
        quiet.without_stream().with_row(quiet.stream_kind, t + "…"@, None)
    };
    lemma_row(quiet.without_stream(), quiet.stream_kind, t + "…"@, None);
    lemma_message(flushed, LineKind::System, "cancelled"@);
    let partial = if t.len() > 0 {
        seq![plain(LineKind::Text, t + "…"@)]
    } else {
        Seq::empty()
    };
    if quiet.streaming.len() == 0 {
        assert(t =~= Seq::<char>::empty());
    }
    assert(all_held(flushed.rows) =~= stopped(v) + partial);
}

/// What the agent asks or tells in between stands behind what was streamed
/// before it, which is kept as a row.
pub proof fn notices_stand_behind_what_was_said(v: TranscriptView, view: ToolView, max_iters: usize)
    requires
        v.wf(),
        v.stream_kind != LineKind::Thinking,
    ensures
        ({
            let next = v.after(agent(AgentEvent::ApprovalRequested { view }));
            &&& all_held(next.rows) == (stopped(v) + said(v)).push(
                plain(LineKind::System, "approval required: "@ + view.summary@),
            )
            &&& next.streaming.len() == 0
        }),
        ({
            let next = v.after(agent(AgentEvent::LoopLimitReached { max_iters }));
            let notice = "agent loop limit reached"@ + " ("@ + text::decimal(max_iters as nat)
                + " iterations)"@;
            &&& all_held(next.rows) == (stopped(v) + said(v)).push(plain(LineKind::System, notice))
            &&& next.streaming.len() == 0
        }),
{
    lemma_settled(v);
    let settled = v.with_thinking_stopped().with_stream_flushed();
    lemma_message(settled, LineKind::System, "approval required: "@ + view.summary@);
    lemma_message(
        settled,
        LineKind::System,
        "agent loop limit reached"@ + " ("@ + text::decimal(max_iters as nat) + " iterations)"@,
    );
}

/// How a call ended, in the words of its result.
pub open spec fn ended(result: ToolResult, ok: bool, output: Seq<char>) -> bool {
    match result {
        ToolResult::Success { output: t } => ok && output == t@,
        ToolResult::Failed { error, output: Some(t) } => !ok && output == t@,
        ToolResult::Failed { error, output: None } => !ok && output == error@,
        ToolResult::Rejected { reason } => !ok && output == reason@,
        ToolResult::Cancelled => !ok && output == "cancelled"@,
    }
}

/// The row of a result: nothing where a call ended well without output.
pub open spec fn result_row(ok: bool, output: Seq<char>) -> Seq<Held> {
    let t = wrap::message_text(output);
    if t.len() > 0 {
        seq![with_body(LineKind::ToolResult(ok), "Result"@, t)]
    } else if ok {
        Seq::empty()
    } else {
        seq![with_body(LineKind::ToolResult(ok), "Result"@, "(no output)"@)]
    }
}

proof fn lemma_result(v: TranscriptView, ok: bool, output: Seq<char>)
    ensures
        ({
            let next = v.with_result(ok, output);
            &&& all_held(next.rows) == all_held(v.rows) + result_row(ok, output)
            &&& next.streaming == v.streaming
            &&& next.stream_kind == v.stream_kind
            &&& next.thinking_row == v.thinking_row
            &&& next.tool_burst == v.tool_burst
            &&& next.burst_row == v.burst_row
            &&& next.detail_ids == v.detail_ids
        }),
{
    reveal(TranscriptView::with_result);
    reveal(TranscriptView::with_message);
    let t = wrap::message_text(output);
    let shown = if t.len() == 0 {
        "(no output)"@
    } else {
        t
    };
    lemma_one_text(shown);
    lemma_folding_row(
        v,
        LineKind::ToolResult(ok),
        wrap::RESULT_LABEL@,
        Some(model::text_body(shown)),
    );
    assert(all_held(v.with_result(ok, output).rows) =~= all_held(v.rows) + result_row(ok, output));
}

/// The end of a call with a row of its own: its output stands in a row behind,
/// but where the call had a detail and ended well. The end of a call that nothing
/// is known of is told where it failed.
pub proof fn results_of_own_rows_are_shown(
    v: TranscriptView,
    call_id: u64,
    result: ToolResult,
    ok: bool,
    output: Seq<char>,
)
    requires
        v.wf(),
        ended(result, ok, output),
        !v.tool_burst.pending.dom().contains(text::decimal(call_id as nat)),
    ensures
        ({
            let id = text::decimal(call_id as nat);
            let next = v.after(agent(AgentEvent::ToolFinished { call_id, result }));
            &&& next.streaming == v.streaming
            &&& next.tool_burst == v.tool_burst
            &&& if v.detail_ids.dom().contains(id) {
                &&& all_held(next.rows) == all_held(v.rows) + (if ok && v.detail_ids[id] {
                    Seq::empty()
                } else {
                    result_row(ok, output)
                })
                &&& next.detail_ids == v.detail_ids.remove(id)
            } else {
                &&& all_held(next.rows) == all_held(v.rows) + (if ok {
                    Seq::empty()
                } else {
                    seq![plain(LineKind::System, output)]
                })
                &&& next.detail_ids == v.detail_ids
            }
        }),
{
    reveal(TranscriptView::with_tool_ended);
    let id = text::decimal(call_id as nat);
    let none = Seq::<Held>::empty();
    assert(all_held(v.rows) + none =~= all_held(v.rows));
    assert(TranscriptView::outcome(result) == (ok, output));
    if v.detail_ids.dom().contains(id) {
        let noted = TranscriptView { detail_ids: v.detail_ids.remove(id), ..v };
        lemma_result(noted, ok, output);
    } else {
        lemma_message(v, LineKind::System, output);
        assert(all_held(v.rows).push(plain(LineKind::System, output)) =~= all_held(v.rows)
            + seq![plain(LineKind::System, output)]);
    }
}

/// The end of a call in a burst: the call waits no longer, and a failure is
/// counted in the title of the burst's row and kept beside the call's diff; no
/// other row changes.
pub proof fn results_of_bursts_are_counted(
    v: TranscriptView,
    call_id: u64,
    result: ToolResult,
    ok: bool,
    output: Seq<char>,
)
    requires
        v.wf(),
        v.rows.len() < usize::MAX,
        v.tool_burst.failed < usize::MAX,
        ended(result, ok, output),
        v.tool_burst.pending.dom().contains(text::decimal(call_id as nat)),
        v.burst_row matches Some(r) && v.rows[r as int].collapsible is Some,
    ensures
        ({
            let id = text::decimal(call_id as nat);
            let next = v.after(agent(AgentEvent::ToolFinished { call_id, result }));
            let r = v.burst_row->0 as int;
            let at = v.tool_burst.pending[id] as int;
            let rows = all_held(v.rows);
            &&& next.streaming == v.streaming
            &&& next.detail_ids == v.detail_ids
            &&& next.burst_row == v.burst_row
            &&& next.tool_burst.pending == v.tool_burst.pending.remove(id)
            &&& next.tool_burst.groups == v.tool_burst.groups
            &&& next.tool_burst.calls.len() == v.tool_burst.calls.len()
            &&& next.tool_burst.failed == v.tool_burst.failed + if ok {
                0nat
            } else {
                1nat
            }
            &&& forall|i: int|
                0 <= i < v.tool_burst.calls.len() && (ok || i != at
                    || v.tool_burst.calls[i].diff is None) ==> #[trigger] next.tool_burst.calls[i]
                    == v.tool_burst.calls[i]
            &&& !ok && 0 <= at < v.tool_burst.calls.len() && v.tool_burst.calls[at].diff is Some
                ==> {
                &&& next.tool_burst.calls[at].label == v.tool_burst.calls[at].label
                &&& next.tool_burst.calls[at].diff == v.tool_burst.calls[at].diff
                &&& output.len() > 0 ==> next.tool_burst.calls[at].error == Some(output)
                &&& output.len() == 0 ==> next.tool_burst.calls[at].error is None
            }
            &&& all_held(next.rows) == if ok {
                rows
            } else {
                rows.update(
                    r,
                    Held {
                        kind: rows[r].kind,
                        title: tools::title_text(next.tool_burst),
                        body: Some(texts_in(tools::burst_sections(next.tool_burst.calls))),
                    },
                )
            }
        }),
{
    reveal(TranscriptView::with_tool_ended);
    let id = text::decimal(call_id as nat);
    assert(TranscriptView::outcome(result) == (ok, output));
    let counted = TranscriptView {
        tool_burst: tools::after_finish(
            v.tool_burst,
            id,
            !ok,
            if ok {
                None
            } else {
                Some(output)
            },
        ),
        ..v
    };
    lemma_burst_row(counted);
}

/// The output of a shell command: the last lines of it in a row that tells
/// whether the command ended well.
pub proof fn shell_output_is_shown(v: TranscriptView, output: String, error: String, exit_code: i32)
    requires
        v.wf(),
    ensures
        ({
            let next = v.after(AppEvent::Shell(ShellEvent::Finished { output, exit_code }));
            &&& all_held(next.rows) == all_held(v.rows).push(shell_row(output@, exit_code == 0))
            &&& next.streaming == v.streaming
        }),
        ({
            let next = v.after(AppEvent::Shell(ShellEvent::Failed { error, output }));
            &&& output@.len() > 0 ==> all_held(next.rows) == all_held(v.rows).push(
                shell_row(output@, false),
            )
            &&& output@.len() == 0 ==> all_held(next.rows) == all_held(v.rows).push(
                shell_row(error@, false),
            )
            &&& next.streaming == v.streaming
        }),
        all_held(v.after(AppEvent::Shell(ShellEvent::Started)).rows) == all_held(v.rows),
{
    lemma_shell_output(v, output@, exit_code == 0);
    lemma_shell_output(v, output@, false);
    lemma_shell_output(v, error@, false);
}

/// The row of a shell command's output.
pub open spec fn shell_row(output: Seq<char>, ok: bool) -> Held {
    let t = wrap::message_text(output);
    plain(
        LineKind::ShellResult(ok),
        if t.len() == 0 {
            "(no output)"@
        } else {
            wrap::tail_text(t, 100)
        },
    )
}

proof fn lemma_shell_output(v: TranscriptView, output: Seq<char>, ok: bool)
    requires
        v.wf(),
    ensures
        ({
            let next = v.with_shell_output(output, ok);
            &&& all_held(next.rows) == all_held(v.rows).push(shell_row(output, ok))
            &&& next.streaming == v.streaming
            &&& next.burst_row is None
        }),
{
    reveal(TranscriptView::with_shell_output);
    reveal(TranscriptView::with_message);
    lemma_closed(v);
    let t = wrap::message_text(output);
    let shown = if t.len() == 0 {
        "(no output)"@
    } else {
        t
    };
    lemma_folding_row(
        v.with_burst_closed(),
        LineKind::ShellResult(ok),
        wrap::tail_text(shown, 100),
        None,
    );
    if t.len() == 0 {
        lemma_short_tail("(no output)"@);
    }
}

proof fn lemma_few_lines(t: Seq<char>)
    ensures
        0 < text::split_on(t, '\n').len() <= t.len() + 1,
        text::lines_of(t).len() <= t.len() + 1,
    decreases t.len(),
{
    if t.len() > 0 {
        lemma_few_lines(t.drop_last());
    }
}

proof fn lemma_short_tail(t: Seq<char>)
    requires
        t == "(no output)"@,
    ensures
        wrap::tail_text(t, 100) == t,
{
    reveal_strlit("(no output)");
    lemma_few_lines(t);
}

/// Errors and the end of a compaction are told in a row behind the others, and
/// the rest changes no row. What was streamed before an error becomes a row.
pub proof fn other_events_are_told(v: TranscriptView, message: String)
    requires
        v.wf(),
        v.stream_kind != LineKind::Thinking,
    ensures
        ({
            let next = v.after(AppEvent::Error { message });
            v.thinking_row is None ==> all_held(next.rows) == (all_held(v.rows) + said(v)).push(
                plain(LineKind::Error, message@),
            ) && next.streaming.len() == 0
        }),
        ({
            let next = v.after(AppEvent::CompactionCompleted);
            &&& all_held(next.rows) == all_held(v.rows).push(
                plain(LineKind::System, "context compacted"@),
            )
            &&& next.streaming == v.streaming
        }),
        v.after(AppEvent::CompactionStarted) == v,
        v.after(AppEvent::Exited) == v,
        v.after(AppEvent::Idle) == v,
        v.after(AppEvent::Rewound) == v,
        v.after(agent(AgentEvent::ToolOutputDelta)) == v,
        v.after(agent(AgentEvent::TurnStarted)) == v,
        v.after(agent(AgentEvent::UsageReported)) == v,
{
    lemma_closed(v);
    let closed = v.with_burst_closed();
    if v.thinking_row is None {
        lemma_flushed(closed);
        lemma_message(closed.with_stream_flushed(), LineKind::Error, message@);
    }
    lemma_message(v, LineKind::System, "context compacted"@);
}

/// The user's message and command stand in a row behind the others, as they were
/// typed, and the view follows them.
pub proof fn own_messages_are_shown(v: TranscriptView, t: Seq<char>)
    requires
        v.wf(),
    ensures
        all_held(v.with_user(t).rows) == all_held(v.rows).push(plain(LineKind::User, t)),
        all_held(v.with_shell(t).rows) == all_held(v.rows).push(plain(LineKind::Shell, t)),
        v.with_user(t).streaming == v.streaming,
        v.with_shell(t).streaming == v.streaming,
        TranscriptView::last_prompt(v.with_user(t).rows) == Some(t),
        v.with_user(t).top is None,
        v.with_shell(t).top is None,
{
    reveal(TranscriptView::with_user);
    reveal(TranscriptView::with_shell);
    lemma_closed(v);
    lemma_message(v.with_burst_closed(), LineKind::User, t);
    lemma_message(v.with_burst_closed(), LineKind::Shell, t);
    let rows = v.with_user(t).rows;
    assert(held(rows.last()) == all_held(rows).last());
}

pub proof fn lemma_user_wf(v: TranscriptView, t: Seq<char>)
    requires
        v.wf(),
    ensures
        v.with_user(t).wf(),
{
    reveal(TranscriptView::with_user);
    lemma_closed(v);
    let closed = v.with_burst_closed();
    lemma_message(closed, LineKind::User, t);
    lemma_held_len(closed.rows);
    lemma_held_len(v.with_user(t).rows);
}

/// Whatever the agent tells, text that was streamed is kept: it is streamed still,
/// or the row behind those that were there holds it, whole or marked as
/// unfinished.
pub proof fn no_streamed_text_is_lost(v: TranscriptView, event: AgentEvent)
    requires
        v.wf(),
        v.stream_kind == LineKind::Text,
        wrap::message_text(v.streaming).len() > 0,
        v.rows.len() + 1 < usize::MAX,
        v.burst_row matches Some(r) ==> v.rows[r as int].collapsible is Some
            && v.thinking_row != Some(r),
    ensures
        ({
            let next = v.after(agent(event));
            let n = v.rows.len() as int;
            let t = wrap::message_text(v.streaming);
            ||| v.streaming.is_prefix_of(next.streaming) && next.stream_kind == LineKind::Text
            ||| next.rows.len() > n && next.rows[n].kind == LineKind::Text && (next.rows[n].text == t
                || next.rows[n].text == t + "…"@)
        }),
{
    let next = v.after(agent(event));
    let n = v.rows.len() as int;
    let t = wrap::message_text(v.streaming);
    lemma_settled_len(v);
    lemma_held_len(next.rows);
    assert(v.streaming.is_prefix_of(v.streaming)) by {
        assert(v.streaming =~= v.streaming.subrange(0, v.streaming.len() as int));
    }
    match event {
        AgentEvent::TextDelta { text } => {
            streamed_text_grows(v, text);
            assert(v.streaming =~= next.streaming.subrange(0, v.streaming.len() as int));
        },
        AgentEvent::ThinkingDelta { text } => {
            reasoning_grows(v, text);
            lemma_stream_kind(v, event);
        },
        AgentEvent::ThinkingDone { duration_ms } => {
            finished_reasoning_is_titled(v, duration_ms);
            lemma_stream_kind(v, event);
        },
        AgentEvent::ApprovalRequested { view } => {
            notices_stand_behind_what_was_said(v, view, 0);
            assert(held(next.rows[n]) == all_held(next.rows)[n]);
        },
        AgentEvent::LoopLimitReached { max_iters } => {
            notices_stand_behind_what_was_said(v, arbitrary(), max_iters);
            assert(held(next.rows[n]) == all_held(next.rows)[n]);
        },
        AgentEvent::ToolStarted { call_id, view } => {
            if view.collapse {
                joining_calls_stand_behind_what_was_said(v, call_id, view);
            } else {
                calls_stand_behind_what_was_said(v, call_id, view);
            }
            assert(held(next.rows[n]) == all_held(next.rows)[n]);
        },
        AgentEvent::ToolFinished { call_id, result } => {
            lemma_stream_kind(v, event);
        },
        AgentEvent::Completed { usage } => {
            ended_turns_keep_what_was_said(v, usage, arbitrary());
            assert(held(next.rows[n]) == all_held(next.rows)[n]);
        },
        AgentEvent::Failed { message } => {
            ended_turns_keep_what_was_said(v, arbitrary(), message);
            assert(held(next.rows[n]) == all_held(next.rows)[n]);
        },
        AgentEvent::Cancelled => {
            cancelled_turns_keep_what_was_said(v);
            assert(held(next.rows[n]) == all_held(next.rows)[n]);
        },
        _ => {},
    }
}

/// Reasoning and results leave what is streamed alone.
proof fn lemma_stream_kind(v: TranscriptView, event: AgentEvent)
    requires
        v.wf(),
        event is ThinkingDelta || event is ThinkingDone || event is ToolFinished,
    ensures
        v.after(agent(event)).stream_kind == v.stream_kind,
        v.after(agent(event)).streaming == v.streaming,
{
    match event {
        AgentEvent::ThinkingDelta { text } => {
            lemma_thinking_stream(v, text);
        },
        AgentEvent::ThinkingDone { duration_ms } => {
            lemma_retired(v, wrap::thought_text(Some(duration_ms)));
        },
        AgentEvent::ToolFinished { call_id, result } => {
            let (ok, output) = TranscriptView::outcome(result);
            lemma_ended_stream(v, text::decimal(call_id as nat), ok, output);
        },
        _ => {},
    }
}

proof fn lemma_thinking_stream(v: TranscriptView, text: String)
    requires
        v.wf(),
    ensures
        v.after(agent(AgentEvent::ThinkingDelta { text })).stream_kind == v.stream_kind,
        v.after(agent(AgentEvent::ThinkingDelta { text })).streaming == v.streaming,
{
    reveal(TranscriptView::with_thinking);
    reveal(TranscriptView::rewrapped);
    lemma_closed(v);
    lemma_folding_row(
        v.with_burst_closed(),
        LineKind::Thinking,
        wrap::THINKING_LABEL@,
        Some(model::text_body(text@)),
    );
}

proof fn lemma_ended_stream(v: TranscriptView, id: Seq<char>, ok: bool, output: Seq<char>)
    requires
        v.wf(),
    ensures
        v.with_tool_ended(id, ok, output).stream_kind == v.stream_kind,
        v.with_tool_ended(id, ok, output).streaming == v.streaming,
{
    reveal(TranscriptView::with_tool_ended);
    if v.tool_burst.pending.dom().contains(id) {
        let counted = TranscriptView {
            tool_burst: tools::after_finish(
                v.tool_burst,
                id,
                !ok,
                if ok {
                    None
                } else {
                    Some(output)
                },
            ),
            ..v
        };
        lemma_burst_row_stream(counted);
    } else if v.detail_ids.dom().contains(id) {
        lemma_result(TranscriptView { detail_ids: v.detail_ids.remove(id), ..v }, ok, output);
    } else {
        lemma_message(v, LineKind::System, output);
    }
}

proof fn lemma_burst_row_stream(v: TranscriptView)
    ensures
        v.with_burst_row().stream_kind == v.stream_kind,
        v.with_burst_row().streaming == v.streaming,
{
    reveal(TranscriptView::with_burst_row);
    reveal(TranscriptView::rewrapped);
    let title = tools::title_text(v.tool_burst);
    let sections = tools::burst_sections(v.tool_burst.calls);
    lemma_folding_row(
        v,
        LineKind::Tool,
        title,
        Some(collapsible::CollapsibleView { sections, expanded: true, pinned: false }),
    );
}

/// An unfolded burst shows its calls in the order they were made: each by its
/// label, and one with a diff with the diff below, and its error under that.
pub proof fn bursts_show_their_calls(calls: Seq<tools::CallView>, call: tools::CallView)
    ensures
        texts_in(tools::burst_sections(calls.push(call))) == texts_in(tools::burst_sections(calls))
            + match call.diff {
            None => seq![call.label],
            Some(diff) => seq![
                call.label,
                match call.error {
                    Some(error) => diff + ("\n"@ + error),
                    None => diff,
                },
            ],
        },
{
    let sections = tools::burst_sections(calls.push(call));
    assert(sections.drop_last() =~= tools::burst_sections(calls));
    assert(sections.last() == tools::call_section(call));
    reveal_with_fuel(texts_in, 2);
    reveal_with_fuel(texts_of, 2);
    assert(texts_in(sections) == texts_in(tools::burst_sections(calls)) + texts_of(
        tools::call_section(call),
    ));
    if let Some(diff) = call.diff {
        let shown = match call.error {
            Some(error) => diff + ("\n"@ + error),
            None => diff,
        };
        lemma_one_text(shown);
        assert(texts_of(tools::call_section(call)) =~= seq![call.label, shown]);
    }
}

/// Of a message of the user in the history each text stands in a row of its own,
/// and each command in one with its output in one behind it, in their order.
pub proof fn restored_user_pieces_are_rows(
    v: TranscriptView,
    blocks: Seq<ContentBlock>,
    block: ContentBlock,
)
    requires
        v.with_user_blocks(blocks).wf(),
    ensures
        ({
            let before = all_held(v.with_user_blocks(blocks).rows);
            let after = all_held(v.with_user_blocks(blocks.push(block)).rows);
            &&& (block matches ContentBlock::Text { text } ==> after == before.push(
                plain(LineKind::User, text@),
            ))
            &&& (block matches ContentBlock::Shell { command, output, ok } ==> after == before.push(
                plain(LineKind::Shell, command@),
            ).push(shell_row(output@, ok)))
        }),
{
    let all = blocks.push(block);
    assert(all.drop_last() =~= blocks);
    let before = v.with_user_blocks(blocks);
    lemma_closed(before);
    let closed = before.with_burst_closed();
    match block {
        ContentBlock::Text { text } => {
            lemma_message(closed, LineKind::User, text@);
        },
        ContentBlock::Shell { command, output, ok } => {
            own_messages_are_shown(closed, command@);
            lemma_shell_wf(closed, command@);
            lemma_shell_output(closed.with_shell(command@), output@, ok);
        },
        _ => {},
    }
}

proof fn lemma_shell_wf(v: TranscriptView, t: Seq<char>)
    requires
        v.wf(),
    ensures
        v.with_shell(t).wf(),
{
    reveal(TranscriptView::with_shell);
    lemma_closed(v);
    let closed = v.with_burst_closed();
    lemma_message(closed, LineKind::Shell, t);
    lemma_held_len(closed.rows);
    lemma_held_len(v.with_shell(t).rows);
}

/// Of an answer in the history each text with more than line ends stands in a row
/// of its own, and each call with a row of its own too, in their order; its
/// reasoning stands before them, under how long it took.
pub proof fn restored_answer_pieces_are_rows(
    v: TranscriptView,
    blocks: Seq<ContentBlock>,
    block: ContentBlock,
    ms: Option<u64>,
)
    requires
        v.with_answer_blocks(blocks, ms, false).wf(),
        v.with_answer_blocks(blocks, ms, true).wf(),
    ensures
        ({
            let before = all_held(v.with_answer_blocks(blocks, ms, false).rows);
            let after = all_held(v.with_answer_blocks(blocks.push(block), ms, false).rows);
            let thought = all_held(v.with_answer_blocks(blocks, ms, true).rows);
            let title = match ms {
                Some(n) => "Thought for "@ + wrap::duration_text(n as nat),
                None => "Thought"@,
            };
            &&& (block matches ContentBlock::Text { text } ==> after == (if wrap::message_text(
                text@,
            ).len() > 0 {
                before.push(plain(LineKind::Text, wrap::message_text(text@)))
            } else {
                before
            }))
            &&& (block matches ContentBlock::Thinking { thinking } ==> after == before)
            &&& (block matches ContentBlock::ToolUse { id, view } ==> !view.collapse ==> after
                == before.push(
                match view.detail {
                    Some(detail) => with_body(LineKind::Diff, view.summary@, detail@),
                    None => plain(LineKind::Tool, view.summary@),
                },
            ))
            &&& (block matches ContentBlock::Thinking { thinking } ==> thought.len() == 0
                || thought.last().kind != LineKind::Thinking ==> all_held(
                v.with_answer_blocks(blocks.push(block), ms, true).rows,
            ) == thought.push(with_body(LineKind::Thinking, title, thinking@)))
            &&& !(block is Thinking) ==> all_held(
                v.with_answer_blocks(blocks.push(block), ms, true).rows,
            ) == thought
        }),
{
    let all = blocks.push(block);
    assert(all.drop_last() =~= blocks);
    let before = v.with_answer_blocks(blocks, ms, false);
    let thought = v.with_answer_blocks(blocks, ms, true);
    lemma_closed(before);
    lemma_closed(thought);
    let closed = before.with_burst_closed();
    match block {
        ContentBlock::Text { text } => {
            lemma_message(closed, LineKind::Text, wrap::message_text(text@));
        },
        ContentBlock::Thinking { thinking } => {
            reveal(TranscriptView::with_thinking);
            let quiet = thought.with_burst_closed();
            lemma_one_text(thinking@);
            lemma_folding_row(
                quiet,
                LineKind::Thinking,
                wrap::thought_text(ms),
                Some(model::text_body(thinking@)),
            );
            lemma_held_len(quiet.rows);
            if quiet.rows.len() > 0 {
                assert(held(quiet.rows.last()) == all_held(quiet.rows).last());
            }
        },
        ContentBlock::ToolUse { id, view } => {
            if !view.collapse {
                reveal(TranscriptView::with_tool_started);
                let noted = TranscriptView {
                    detail_ids: closed.detail_ids.insert(id@, view.detail is Some),
                    ..closed
                };
                match view.detail {
                    Some(t) => {
                        lemma_one_text(t@);
                        lemma_folding_row(
                            noted,
                            LineKind::Diff,
                            view.summary@,
                            Some(model::text_body(t@)),
                        );
                    },
                    None => {
                        lemma_folding_row(noted, LineKind::Tool, view.summary@, None);
                    },
                }
            }
        },
        _ => {},
    }
}

/// A restored history holds the rows of its messages, one message behind the other,
/// and nothing of it is under way.
pub proof fn restored_messages_follow_each_other(
    v: TranscriptView,
    messages: Seq<Message>,
    m: Message,
)
    requires
        v.with_messages(messages.push(m)).wf(),
    ensures
        all_held(v.seeded(messages.push(m)).rows) == all_held(
            v.with_messages(messages).with_history_message(m).rows,
        ),
        v.seeded(messages.push(m)).thinking_row is None,
        v.seeded(messages.push(m)).burst_row is None,
{
    reveal(TranscriptView::seeded);
    assert(messages.push(m).drop_last() =~= messages);
    let told = v.with_messages(messages.push(m));
    lemma_closed(told);
    lemma_folded(TranscriptView { thinking_row: None, ..told.with_burst_closed() });
}

} // verus!
