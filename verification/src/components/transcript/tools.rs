//! Runs of tool calls that share one row.
use vstd::prelude::*;
use vstd::string::*;

use super::super::event;
use super::collapsible::{Collapsible, Section};
use super::collapsible;
use super::kinds::LineKind;
use super::wrap;
use crate::seqs;
use crate::table::Table;
use crate::text;

verus! {

broadcast use crate::seqs::views_push;

/// What a tool call does, by the word its summary starts with.
pub enum ToolKind {
    Searched,
    Read,
    Ran,
    Edited,
    Wrote,
    Other(String),
}

/// What a tool call does.
pub enum ToolKindView {
    Searched,
    Read,
    Ran,
    Edited,
    Wrote,
    Other(Seq<char>),
}

impl View for ToolKind {
    type V = ToolKindView;

    open spec fn view(&self) -> ToolKindView {
        match self {
            ToolKind::Searched => ToolKindView::Searched,
            ToolKind::Read => ToolKindView::Read,
            ToolKind::Ran => ToolKindView::Ran,
            ToolKind::Edited => ToolKindView::Edited,
            ToolKind::Wrote => ToolKindView::Wrote,
            ToolKind::Other(action) => ToolKindView::Other(action@),
        }
    }
}

/// The kind of call that an action word names.
pub open spec fn kind_named(action: Seq<char>) -> ToolKindView {
    if action == "Search"@ || action == "Find"@ {
        ToolKindView::Searched
    } else if action == "Read"@ {
        ToolKindView::Read
    } else if action == "Ran"@ {
        ToolKindView::Ran
    } else if action == "Edit"@ {
        ToolKindView::Edited
    } else if action == "Write"@ {
        ToolKindView::Wrote
    } else {
        ToolKindView::Other(action)
    }
}

/// A count of things: "1 file", "2 files".
pub open spec fn counted(verb: Seq<char>, count: nat, noun: Seq<char>) -> Seq<char> {
    verb + " "@ + text::decimal(count) + " "@ + noun + if count == 1 {
        Seq::<char>::empty()
    } else {
        "s"@
    }
}

/// How a number of calls of one kind is put into words.
pub open spec fn phrase_text(kind: ToolKindView, count: nat) -> Seq<char> {
    match kind {
        ToolKindView::Searched => counted("Searched"@, count, "pattern"@),
        ToolKindView::Read => counted("Read"@, count, "file"@),
        ToolKindView::Ran => counted("Ran"@, count, "command"@),
        ToolKindView::Edited => counted("Edited"@, count, "file"@),
        ToolKindView::Wrote => counted("Wrote"@, count, "file"@),
        ToolKindView::Other(action) => if count == 1 {
            action
        } else {
            action + " ×"@ + text::decimal(count)
        },
    }
}

fn count_phrase(verb: &str, count: usize, noun: &str) -> (out: String)
    ensures
        out@ == counted(verb@, count as nat, noun@),
{
    let mut out = verb.to_owned();
    out.append(" ");
    out.append(text::decimal_of(count as u64).as_str());
    out.append(" ");
    out.append(noun);
    if count != 1 {
        out.append("s");
    }
    assert(out@ =~= counted(verb@, count as nat, noun@));
    out
}

impl ToolKind {
    /// The kind of call that an action word names.
    pub fn named(action: &str) -> (kind: ToolKind)
        ensures
            kind@ == kind_named(action@),
    {
        if text::same_text(action, "Search") || text::same_text(action, "Find") {
            ToolKind::Searched
        } else if text::same_text(action, "Read") {
            ToolKind::Read
        } else if text::same_text(action, "Ran") {
            ToolKind::Ran
        } else if text::same_text(action, "Edit") {
            ToolKind::Edited
        } else if text::same_text(action, "Write") {
            ToolKind::Wrote
        } else {
            ToolKind::Other(action.to_owned())
        }
    }

    /// Whether two calls are of the same kind.
    pub fn same(&self, other: &ToolKind) -> (yes: bool)
        ensures
            yes == (self@ == other@),
    {
        match (self, other) {
            (ToolKind::Searched, ToolKind::Searched) => true,
            (ToolKind::Read, ToolKind::Read) => true,
            (ToolKind::Ran, ToolKind::Ran) => true,
            (ToolKind::Edited, ToolKind::Edited) => true,
            (ToolKind::Wrote, ToolKind::Wrote) => true,
            (ToolKind::Other(a), ToolKind::Other(b)) => text::same_text(a.as_str(), b.as_str()),
            _ => false,
        }
    }

    /// How a number of calls of this kind is put into words.
    pub fn phrase(&self, count: usize) -> (out: String)
        ensures
            out@ == phrase_text(self@, count as nat),
    {
        match self {
            ToolKind::Searched => count_phrase("Searched", count, "pattern"),
            ToolKind::Read => count_phrase("Read", count, "file"),
            ToolKind::Ran => count_phrase("Ran", count, "command"),
            ToolKind::Edited => count_phrase("Edited", count, "file"),
            ToolKind::Wrote => count_phrase("Wrote", count, "file"),
            ToolKind::Other(action) => {
                let mut out = action.clone();
                if count != 1 {
                    out.append(" ×");
                    out.append(text::decimal_of(count as u64).as_str());
                }
                out
            },
        }
    }
}

/// How many calls of one kind a burst holds.
pub struct ToolGroup {
    pub kind: ToolKind,
    pub count: usize,
}

/// How many calls of one kind a burst holds.
pub struct ToolGroupView {
    pub kind: ToolKindView,
    pub count: nat,
}

impl View for ToolGroup {
    type V = ToolGroupView;

    open spec fn view(&self) -> ToolGroupView {
        ToolGroupView { kind: self.kind@, count: self.count as nat }
    }
}

/// One call of a burst.
pub struct Call {
    pub label: String,
    pub diff: Option<String>,
    pub error: Option<String>,
}

/// One call of a burst.
pub struct CallView {
    pub label: Seq<char>,
    pub diff: Option<Seq<char>>,
    pub error: Option<Seq<char>>,
}

/// The characters of a borrowed text, if there is one.
pub open spec fn str_view(t: Option<&str>) -> Option<Seq<char>> {
    match t {
        Some(s) => Some(s@),
        None => None,
    }
}

impl View for Call {
    type V = CallView;

    open spec fn view(&self) -> CallView {
        CallView {
            label: self.label@,
            diff: event::text_view(self.diff),
            error: event::text_view(self.error),
        }
    }
}

/// A run of tool calls that share one row: the kinds of call with their
/// counts, and the calls in the order they were made.
pub struct ToolBurst {
    pending: Table<usize>,
    groups: Vec<ToolGroup>,
    calls: Vec<Call>,
    failed: usize,
}

/// What a burst holds.
pub struct BurstView {
    pub pending: Map<Seq<char>, usize>,
    pub groups: Seq<ToolGroupView>,
    pub calls: Seq<CallView>,
    pub failed: nat,
}

impl View for ToolBurst {
    type V = BurstView;

    closed spec fn view(&self) -> BurstView {
        BurstView {
            pending: self.pending@,
            groups: seqs::views(self.groups@),
            calls: seqs::views(self.calls@),
            failed: self.failed as nat,
        }
    }
}

/// A summary with every run of whitespace made a single space.
pub open spec fn normalized(summary: Seq<char>) -> Seq<char> {
    text::joined(text::words_of(summary), " "@)
}

/// Makes every run of whitespace a single space.
pub fn normalize(summary: &str) -> (out: String)
    ensures
        out@ == normalized(summary@),
{
    text::join(&text::words(summary), " ")
}

/// The word a label starts with.
pub open spec fn action_in(label: Seq<char>) -> Seq<char> {
    text::split_on(label, ' ')[0]
}

/// The word a label starts with.
pub fn action_of(label: &str) -> (out: String)
    ensures
        out@ == action_in(label@),
{
    let pieces = text::split(label, ' ');
    let ghost all = seqs::views(pieces@);
    assert(all[0] == pieces@[0]@);
    pieces[0].clone()
}

/// The groups with one more call of `kind`: in the first group of that kind,
/// or in a new one at the end.
pub open spec fn counted_in(groups: Seq<ToolGroupView>, kind: ToolKindView) -> Seq<ToolGroupView>
    decreases groups.len(),
{
    if groups.len() == 0 {
        seq![ToolGroupView { kind, count: 1 }]
    } else if groups[0].kind == kind {
        groups.update(
            0,
            ToolGroupView { kind, count: wrap::capped_sum(groups[0].count, 1) },
        )
    } else {
        seq![groups[0]] + counted_in(groups.skip(1), kind)
    }
}

/// A burst after a call was started.
pub open spec fn after_start(
    b: BurstView,
    call_id: Seq<char>,
    summary: Seq<char>,
    detail: Option<Seq<char>>,
) -> BurstView {
    let label = normalized(summary);
    BurstView {
        pending: b.pending.insert(call_id, b.calls.len() as usize),
        groups: counted_in(b.groups, kind_named(action_in(label))),
        calls: b.calls.push(CallView { label, diff: detail, error: None }),
        failed: b.failed,
    }
}

/// A burst after a call of it ended: a failure is counted, and the error of a
/// call with a diff is kept beside the diff. Calls that are not pending leave
/// it as it is.
pub open spec fn after_finish(
    b: BurstView,
    call_id: Seq<char>,
    failed: bool,
    error: Option<Seq<char>>,
) -> BurstView {
    if !b.pending.dom().contains(call_id) {
        b
    } else {
        let idx = b.pending[call_id] as int;
        BurstView {
            pending: b.pending.remove(call_id),
            failed: if failed {
                wrap::capped_sum(b.failed, 1)
            } else {
                b.failed
            },
            calls: if failed && idx < b.calls.len() && b.calls[idx].diff is Some {
                b.calls.update(
                    idx,
                    CallView {
                        error: match error {
                            Some(t) => if t.len() > 0 {
                                Some(t)
                            } else {
                                None
                            },
                            None => None,
                        },
                        ..b.calls[idx]
                    },
                )
            } else {
                b.calls
            },
            ..b
        }
    }
}

/// The phrases of a run of groups.
pub open spec fn phrases(groups: Seq<ToolGroupView>) -> Seq<Seq<char>> {
    Seq::new(groups.len(), |i: int| phrase_text(groups[i].kind, groups[i].count))
}

/// The title of a burst: its groups, then the failures.
pub open spec fn title_text(b: BurstView) -> Seq<char> {
    let parts = phrases(b.groups);
    text::joined(
        if b.failed > 0 {
            parts.push(text::decimal(b.failed) + " failed"@)
        } else {
            parts
        },
        ", "@,
    )
}

/// The labels of the calls without a diff, in order.
pub open spec fn plain_labels(calls: Seq<CallView>) -> Seq<Seq<char>>
    decreases calls.len(),
{
    if calls.len() == 0 {
        Seq::empty()
    } else if calls.last().diff is None {
        plain_labels(calls.drop_last()).push(calls.last().label)
    } else {
        plain_labels(calls.drop_last())
    }
}

/// What an unfolded burst shows of a call: its label, or its diff as an item
/// of its own with the error below.
pub open spec fn call_section(call: CallView) -> collapsible::SectionView {
    match call.diff {
        None => collapsible::SectionView::Text(call.label),
        Some(diff) => collapsible::SectionView::Item {
            kind: LineKind::Diff,
            title: call.label,
            detail: collapsible::CollapsibleView {
                sections: seq![
                    collapsible::SectionView::Text(
                        match call.error {
                            Some(error) => diff + ("\n"@ + error),
                            None => diff,
                        },
                    ),
                ],
                expanded: true,
                pinned: false,
            },
        },
    }
}

/// What an unfolded burst shows.
pub open spec fn burst_sections(calls: Seq<CallView>) -> Seq<collapsible::SectionView> {
    Seq::new(calls.len(), |i: int| call_section(calls[i]))
}

/// A burst without calls.
pub open spec fn empty_burst() -> BurstView {
    BurstView {
        pending: Map::empty(),
        groups: Seq::empty(),
        calls: Seq::empty(),
        failed: 0,
    }
}

fn owned(t: Option<&str>) -> (out: Option<String>)
    ensures
        event::text_view(out) == str_view(t),
{
    match t {
        Some(s) => Some(s.to_owned()),
        None => None,
    }
}

impl ToolBurst {
    /// A burst without calls.
    pub fn new() -> (b: Self)
        ensures
            b@ == empty_burst(),
    {
        let b = ToolBurst {
            pending: Table::new(),
            groups: Vec::new(),
            calls: Vec::new(),
            failed: 0,
        };
        proof {
            assert(b@.groups =~= Seq::<ToolGroupView>::empty());
            assert(b@.calls =~= Seq::<CallView>::empty());
        }
        b
    }

    /// Adds a call to the burst.
    pub fn start(&mut self, call_id: String, summary: &str, detail: Option<&str>)
        ensures
            final(self)@ == after_start(old(self)@, call_id@, summary@, str_view(detail)),
    {
        let label = normalize(summary);
        let kind = ToolKind::named(action_of(label.as_str()).as_str());
        let ghost before = seqs::views(self.groups@);
        let ghost k = kind@;
        let n: usize = self.groups.len();
        let mut i: usize = 0;
        assert(before.skip(0) =~= before);
        assert(before.take(0) + counted_in(before, k) =~= counted_in(before, k));
        while i < n && !self.groups[i].kind.same(&kind)
            invariant
                i <= n == self.groups@.len(),
                before == seqs::views(self.groups@),
                k == kind@,
                counted_in(before, k) == before.take(i as int) + counted_in(
                    before.skip(i as int),
                    k,
                ),
            decreases n - i,
        {
            proof {
                let rest = before.skip(i as int);
                assert(rest[0] == self.groups@[i as int]@);
                assert(rest.skip(1) =~= before.skip(i + 1));
                assert(before.take(i as int) + (seq![rest[0]] + counted_in(rest.skip(1), k))
                    =~= before.take(i + 1) + counted_in(before.skip(i + 1), k));
            }
            i += 1;
        }
        if i < n {
            let count: usize = self.groups[i].count;
            self.groups[i].count = count.saturating_add(1);
            proof {
                let rest = before.skip(i as int);
                assert(rest[0].kind == k);
                assert(seqs::views(self.groups@) =~= counted_in(before, k));
            }
        } else {
            self.groups.push(ToolGroup { kind, count: 1 });
            proof {
                assert(before.take(i as int) =~= before);
                assert(before.skip(i as int) =~= Seq::<ToolGroupView>::empty());
                assert(seqs::views(self.groups@) =~= counted_in(before, k));
            }
        }
        let ghost calls = seqs::views(self.calls@);
        let at: usize = self.calls.len();
        self.pending.insert(call_id, at);
        self.calls.push(Call { label, diff: owned(detail), error: None });
        assert(seqs::views(self.calls@) =~= after_start(
            old(self)@,
            call_id@,
            summary@,
            str_view(detail),
        ).calls);
    }

    /// Marks a call done: counts the failure and keeps a diff call's error
    /// beside the diff it failed on, so expanding the item explains it.
    /// Returns whether the call was pending.
    pub fn finish(&mut self, call_id: &str, failed: bool, error: Option<&str>) -> (known: bool)
        ensures
            known == old(self)@.pending.dom().contains(call_id@),
            final(self)@ == after_finish(old(self)@, call_id@, failed, str_view(error)),
    {
        let ghost before = self@;
        let idx: usize = match self.pending.remove(call_id) {
            Some(idx) => idx,
            None => {
                assert(self@.pending =~= before.pending);
                return false;
            },
        };
        if failed {
            self.failed = self.failed.saturating_add(1);
            if idx < self.calls.len() && self.calls[idx].diff.is_some() {
                let kept = match error {
                    Some(t) => if t.is_empty() {
                        None
                    } else {
                        Some(t.to_owned())
                    },
                    None => None,
                };
                self.calls[idx].error = kept;
                assert(self@.calls =~= after_finish(
                    before,
                    call_id@,
                    failed,
                    str_view(error),
                ).calls);
            }
        }
        true
    }

    /// The title of the burst: its groups, then the failures.
    pub fn title(&self) -> (out: String)
        ensures
            out@ == title_text(self@),
    {
        let mut parts: Vec<String> = Vec::new();
        let ghost all = phrases(self@.groups);
        let mut i: usize = 0;
        assert(seqs::views(parts@) =~= all.take(0));
        while i < self.groups.len()
            invariant
                i <= self.groups@.len(),
                all == phrases(seqs::views(self.groups@)),
                seqs::views(parts@) == all.take(i as int),
            decreases self.groups.len() - i,
        {
            let group = &self.groups[i];
            parts.push(group.kind.phrase(group.count));
            assert(all.take(i + 1) =~= all.take(i as int).push(all[i as int]));
            i += 1;
        }
        assert(all.take(all.len() as int) =~= all);
        if self.failed > 0 {
            let mut part = text::decimal_of(self.failed as u64);
            part.append(" failed");
            parts.push(part);
        }
        text::join(&parts, ", ")
    }

    /// The labels of the calls without a diff, one under the other.
    pub fn body(&self) -> (out: String)
        ensures
            out@ == text::joined(plain_labels(self@.calls), "\n"@),
    {
        let mut labels: Vec<String> = Vec::new();
        let ghost all = self@.calls;
        let mut i: usize = 0;
        proof {
            assert(all.take(0) =~= Seq::<CallView>::empty());
            assert(seqs::views(labels@) =~= Seq::<Seq<char>>::empty());
        }
        while i < self.calls.len()
            invariant
                i <= self.calls@.len(),
                all == seqs::views(self.calls@),
                seqs::views(labels@) == plain_labels(all.take(i as int)),
            decreases self.calls.len() - i,
        {
            proof {
                let now = all.take(i + 1);
                assert(now.drop_last() =~= all.take(i as int));
                assert(now.last() == self.calls@[i as int]@);
            }
            if self.calls[i].diff.is_none() {
                labels.push(self.calls[i].label.clone());
            }
            i += 1;
        }
        assert(all.take(all.len() as int) =~= all);
        text::join(&labels, "\n")
    }

    /// Calls in invocation order: plain calls as body lines, diff calls as
    /// nested items that each expand to their own diff.
    pub fn sections(&self) -> (out: Vec<Section>)
        ensures
            collapsible::section_views(out@) == burst_sections(self@.calls),
    {
        let mut out: Vec<Section> = Vec::new();
        let ghost all = burst_sections(self@.calls);
        let mut i: usize = 0;
        while i < self.calls.len()
            invariant
                i <= self.calls@.len(),
                all == burst_sections(seqs::views(self.calls@)),
                out@.len() == i,
                forall|j: int|
                    0 <= j < i ==> collapsible::section_view(#[trigger] out@[j]) == all[j],
            decreases self.calls.len() - i,
        {
            let call = &self.calls[i];
            let section = match &call.diff {
                None => Section::Text(call.label.clone()),
                Some(diff) => {
                    let mut detail = Collapsible::new(diff.clone());
                    if let Some(error) = &call.error {
                        detail.append(text::concat("\n", error.as_str()).as_str());
                        assert(detail@.sections =~= seq![
                            collapsible::SectionView::Text(diff@ + ("\n"@ + error@)),
                        ]);
                    }
                    Section::Item { kind: LineKind::Diff, title: call.label.clone(), detail }
                },
            };
            assert(collapsible::section_view(section) == call_section(call@));
            out.push(section);
            i += 1;
        }
        proof {
            collapsible::lemma_section_views(out@);
            assert(collapsible::section_views(out@) =~= all);
        }
        out
    }
}

/// The calls that groups count together.
pub open spec fn all_counted(groups: Seq<ToolGroupView>) -> nat
    decreases groups.len(),
{
    if groups.len() == 0 {
        0
    } else {
        groups[0].count + all_counted(groups.skip(1))
    }
}

proof fn lemma_counted_in(groups: Seq<ToolGroupView>, kind: ToolKindView)
    requires
        all_counted(groups) < usize::MAX,
    ensures
        all_counted(counted_in(groups, kind)) == all_counted(groups) + 1,
    decreases groups.len(),
{
    reveal_with_fuel(all_counted, 2);
    let next = counted_in(groups, kind);
    if groups.len() == 0 {
        assert(next.skip(1) =~= Seq::<ToolGroupView>::empty());
    } else if groups[0].kind == kind {
        assert(next.skip(1) =~= groups.skip(1));
    } else {
        lemma_counted_in(groups.skip(1), kind);
        assert(next.skip(1) =~= counted_in(groups.skip(1), kind));
    }
}

/// The title of a burst counts each of its calls once: as calls start and end,
/// the groups count as many calls as the burst lists.
pub proof fn every_call_is_counted(
    b: BurstView,
    call_id: Seq<char>,
    summary: Seq<char>,
    detail: Option<Seq<char>>,
    failed: bool,
    error: Option<Seq<char>>,
)
    requires
        all_counted(b.groups) == b.calls.len(),
        b.calls.len() < usize::MAX,
    ensures
        all_counted(after_start(b, call_id, summary, detail).groups) == after_start(
            b,
            call_id,
            summary,
            detail,
        ).calls.len(),
        all_counted(after_finish(b, call_id, failed, error).groups) == after_finish(
            b,
            call_id,
            failed,
            error,
        ).calls.len(),
        all_counted(empty_burst().groups) == empty_burst().calls.len(),
{
    lemma_counted_in(b.groups, kind_named(action_in(normalized(summary))));
}

/// The calls of one kind that groups count.
pub open spec fn count_of(groups: Seq<ToolGroupView>, kind: ToolKindView) -> nat
    decreases groups.len(),
{
    if groups.len() == 0 {
        0
    } else {
        count_of(groups.drop_last(), kind) + if groups.last().kind == kind {
            groups.last().count
        } else {
            0
        }
    }
}

proof fn lemma_count_first(groups: Seq<ToolGroupView>, kind: ToolKindView)
    requires
        groups.len() > 0,
    ensures
        count_of(groups, kind) == count_of(groups.skip(1), kind) + if groups[0].kind == kind {
            groups[0].count
        } else {
            0
        },
    decreases groups.len(),
{
    if groups.len() == 1 {
        assert(groups.skip(1) =~= Seq::<ToolGroupView>::empty());
        assert(groups.drop_last() =~= Seq::<ToolGroupView>::empty());
        reveal_with_fuel(count_of, 2);
    } else {
        lemma_count_first(groups.drop_last(), kind);
        assert(groups.drop_last().skip(1) =~= groups.skip(1).drop_last());
        assert(groups.skip(1).last() == groups.last());
    }
}

/// A call is counted with the calls of its kind: theirs grow by one and no other
/// count changes, and the kinds keep their places.
pub proof fn calls_are_counted_by_kind(
    groups: Seq<ToolGroupView>,
    kind: ToolKindView,
    other: ToolKindView,
)
    requires
        forall|i: int| 0 <= i < groups.len() ==> (#[trigger] groups[i]).count < usize::MAX,
    ensures
        count_of(counted_in(groups, kind), kind) == count_of(groups, kind) + 1,
        other != kind ==> count_of(counted_in(groups, kind), other) == count_of(groups, other),
        counted_in(groups, kind).len() >= groups.len(),
        forall|i: int|
            0 <= i < groups.len() ==> (#[trigger] counted_in(groups, kind)[i]).kind
                == groups[i].kind,
        counted_in(groups, kind).len() > groups.len() ==> counted_in(groups, kind).last() == (
        ToolGroupView { kind, count: 1 }),
    decreases groups.len(),
{
    let next = counted_in(groups, kind);
    lemma_count_first(next, kind);
    lemma_count_first(next, other);
    if groups.len() == 0 {
        assert(next.skip(1) =~= groups);
    } else {
        lemma_count_first(groups, kind);
        lemma_count_first(groups, other);
        if groups[0].kind == kind {
            assert(groups[0].count < usize::MAX);
            assert(next.skip(1) =~= groups.skip(1));
        } else {
            let rest = groups.skip(1);
            assert forall|i: int| 0 <= i < rest.len() implies (#[trigger] rest[i]).count
                < usize::MAX by {
                assert(rest[i] == groups[i + 1]);
            }
            calls_are_counted_by_kind(rest, kind, other);
            assert(next.skip(1) =~= counted_in(rest, kind));
            assert forall|i: int| 0 <= i < groups.len() implies (#[trigger] next[i]).kind
                == groups[i].kind by {
                if i > 0 {
                    assert(next[i] == counted_in(rest, kind)[i - 1]);
                    assert(rest[i - 1] == groups[i]);
                }
            }
        }
    }
}

/// Calls of a kind are told with their number: one of a thing, or more of the
/// things. Calls of a kind that has no words of its own are told by their action.
pub proof fn counts_are_told(n: nat, action: Seq<char>)
    requires
        n != 1,
    ensures
        phrase_text(ToolKindView::Read, 1) == "Read"@ + " "@ + text::decimal(1) + " "@ + "file"@,
        phrase_text(ToolKindView::Read, n) == "Read"@ + " "@ + text::decimal(n) + " "@ + "file"@
            + "s"@,
        phrase_text(ToolKindView::Ran, 1) == "Ran"@ + " "@ + text::decimal(1) + " "@ + "command"@,
        phrase_text(ToolKindView::Ran, n) == "Ran"@ + " "@ + text::decimal(n) + " "@ + "command"@
            + "s"@,
        phrase_text(ToolKindView::Edited, n) == "Edited"@ + " "@ + text::decimal(n) + " "@
            + "file"@ + "s"@,
        phrase_text(ToolKindView::Wrote, n) == "Wrote"@ + " "@ + text::decimal(n) + " "@ + "file"@
            + "s"@,
        phrase_text(ToolKindView::Searched, n) == "Searched"@ + " "@ + text::decimal(n) + " "@
            + "pattern"@ + "s"@,
        phrase_text(ToolKindView::Other(action), 1) == action,
        phrase_text(ToolKindView::Other(action), n) == action + " ×"@ + text::decimal(n),
{
    let none = Seq::<char>::empty();
    assert("Read"@ + " "@ + text::decimal(1) + " "@ + "file"@ + none =~= "Read"@ + " "@
        + text::decimal(1) + " "@ + "file"@);
    assert("Ran"@ + " "@ + text::decimal(1) + " "@ + "command"@ + none =~= "Ran"@ + " "@
        + text::decimal(1) + " "@ + "command"@);
}

/// Failures are told behind the calls, with their number, and only where there are
/// any.
pub proof fn failures_are_told(b: BurstView)
    requires
        b.groups.len() > 0,
        b.failed > 0,
    ensures
        title_text(b) == title_text(BurstView { failed: 0, ..b }) + ", "@ + text::decimal(b.failed)
            + " failed"@,
{
    let parts = phrases(b.groups);
    let last = text::decimal(b.failed) + " failed"@;
    assert(parts.push(last).drop_last() =~= parts);
    assert(text::joined(parts, ", "@) + ", "@ + last =~= text::joined(parts, ", "@) + ", "@
        + text::decimal(b.failed) + " failed"@);
}

/// The label of a call keeps the words of its summary, and the first of them says
/// what kind of call it is.
pub proof fn labels_keep_the_words(summary: Seq<char>)
    ensures
        text::words_of(normalized(summary)) == text::words_of(summary),
        text::words_of(summary).len() > 0 ==> action_in(normalized(summary)) == text::words_of(
            summary,
        )[0],
{
    let words = text::words_of(summary);
    text::words_hold_all_but_white(summary);
    reveal_strlit(" ");
    assert(" "@ =~= seq![' ']);
    text::joined_words_are_kept(words);
    if words.len() > 0 {
        assert forall|i: int| 0 <= i < words.len() implies !(#[trigger] words[i]).contains(' ') by {
            assert forall|k: int| 0 <= k < words[i].len() implies words[i][k] != ' ' by {
                assert(!text::is_white(words[i][k]));
            }
        }
        text::split_undoes_join(words, ' ');
    }
}

} // verus!
