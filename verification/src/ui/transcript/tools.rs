//! Runs of tool calls, counted by name.
use vstd::prelude::*;
use vstd::string::*;

use crate::components::transcript::wrap;
use crate::components::transcript::wrap::split_at_width;
use crate::seqs;
use crate::text;
use crate::width;

verus! {

broadcast use crate::seqs::views_push;

/// Columns of a tool's argument that are shown.
pub const MAX_TOOL_ARG: usize = 80;

/// How often a tool was called, and how often it failed.
pub struct Entry {
    pub name: String,
    pub total: usize,
    pub failed: usize,
}

/// How often a tool was called, and how often it failed.
#[verifier::ext_equal]
pub struct EntryView {
    pub name: Seq<char>,
    pub total: nat,
    pub failed: nat,
}

impl View for Entry {
    type V = EntryView;

    open spec fn view(&self) -> EntryView {
        EntryView { name: self.name@, total: self.total as nat, failed: self.failed as nat }
    }
}

/// Where a tool stands among counted ones, from `i` on.
pub open spec fn find_entry(entries: Seq<EntryView>, name: Seq<char>, i: nat) -> Option<nat>
    decreases entries.len() - i,
{
    if i >= entries.len() {
        None
    } else if entries[i as int].name == name {
        Some(i)
    } else {
        find_entry(entries, name, i + 1)
    }
}

/// The counts after one more call.
pub open spec fn bumped(entries: Seq<EntryView>, name: Seq<char>) -> Seq<EntryView> {
    match find_entry(entries, name, 0) {
        Some(i) => entries.update(
            i as int,
            EntryView { total: entries[i as int].total + 1, ..entries[i as int] },
        ),
        None => entries.push(EntryView { name, total: 1, failed: 0 }),
    }
}

/// The counts after a call failed.
pub open spec fn bumped_failed(entries: Seq<EntryView>, name: Seq<char>) -> Seq<EntryView> {
    match find_entry(entries, name, 0) {
        Some(i) => entries.update(
            i as int,
            EntryView { failed: entries[i as int].failed + 1, ..entries[i as int] },
        ),
        None => entries,
    }
}

/// Whether every count can go up by one.
pub open spec fn has_room(entries: Seq<EntryView>) -> bool {
    forall|i: int|
        0 <= i < entries.len() ==> (#[trigger] entries[i]).total < usize::MAX && entries[i].failed
            < usize::MAX
}

/// All failed calls.
pub open spec fn failures(entries: Seq<EntryView>) -> nat
    decreases entries.len(),
{
    if entries.len() == 0 {
        0
    } else {
        failures(entries.drop_last()) + entries.last().failed
    }
}

/// A run of tool calls, counted by name.
pub struct ToolBurst {
    entries: Vec<Entry>,
}

impl View for ToolBurst {
    type V = Seq<EntryView>;

    closed spec fn view(&self) -> Seq<EntryView> {
        seqs::views(self.entries@)
    }
}

impl ToolBurst {
    /// A run without calls.
    pub fn new() -> (b: Self)
        ensures
            b@ == Seq::<EntryView>::empty(),
    {
        let b = ToolBurst { entries: Vec::new() };
        assert(b@ =~= Seq::<EntryView>::empty());
        b
    }

    /// The counts, in the order in which the tools were first called.
    pub fn entries(&self) -> (out: &Vec<Entry>)
        ensures
            seqs::views(out@) == self@,
    {
        &self.entries
    }

    fn find(&self, name: &str) -> (at: Option<usize>)
        ensures
            match at {
                Some(i) => i < self.entries@.len() && find_entry(self@, name@, 0) == Some(i as nat),
                None => find_entry(self@, name@, 0) is None,
            },
    {
        let mut i: usize = 0;
        while i < self.entries.len()
            invariant
                i <= self.entries@.len(),
                find_entry(self@, name@, 0) == find_entry(self@, name@, i as nat),
            decreases self.entries.len() - i,
        {
            assert(self@[i as int] == self.entries@[i as int]@);
            if text::same_text(self.entries[i].name.as_str(), name) {
                return Some(i);
            }
            i += 1;
        }
        None
    }

    /// Counts a call.
    pub fn bump(&mut self, name: &str)
        requires
            has_room(old(self)@),
        ensures
            final(self)@ == bumped(old(self)@, name@),
    {
        let ghost v = self@;
        match self.find(name) {
            Some(i) => {
                assert(v[i as int] == self.entries@[i as int]@);
                self.entries[i].total += 1;
                assert(self@ =~= bumped(v, name@));
            },
            None => {
                self.entries.push(Entry { name: name.to_owned(), total: 1, failed: 0 });
                assert(self@ =~= bumped(v, name@));
            },
        }
    }

    /// Counts a failure.
    pub fn bump_failed(&mut self, name: &str)
        requires
            has_room(old(self)@),
        ensures
            final(self)@ == bumped_failed(old(self)@, name@),
    {
        let ghost v = self@;
        match self.find(name) {
            Some(i) => {
                assert(v[i as int] == self.entries@[i as int]@);
                self.entries[i].failed += 1;
                assert(self@ =~= bumped_failed(v, name@));
            },
            None => {},
        }
    }
}

/// One tool of a run: its name, and how often it was called.
pub open spec fn entry_text(e: EntryView) -> Seq<char> {
    if e.total > 1 {
        e.name + " ×"@ + text::decimal(e.total)
    } else {
        e.name
    }
}

/// The tools of a run, then how many calls failed.
pub open spec fn summary_parts(entries: Seq<EntryView>) -> Seq<Seq<char>> {
    let names = Seq::new(entries.len(), |i: int| entry_text(entries[i]));
    if failures(entries) > 0 {
        names.push(text::decimal(failures(entries)) + " failed"@)
    } else {
        names
    }
}

/// A run of tool calls in one line.
pub open spec fn summary(entries: Seq<EntryView>) -> Seq<char> {
    text::joined(summary_parts(entries), " · "@)
}

proof fn lemma_failures_grow(entries: Seq<EntryView>, i: int)
    requires
        0 <= i <= entries.len(),
    ensures
        failures(entries.take(i)) <= failures(entries),
    decreases entries.len(),
{
    if i == entries.len() {
        assert(entries.take(i) =~= entries);
    } else {
        lemma_failures_grow(entries.drop_last(), i);
        assert(entries.drop_last().take(i) =~= entries.take(i));
    }
}

/// Writes a run of tool calls in one line.
pub fn format_tool_summary(entries: &Vec<Entry>) -> (out: String)
    requires
        failures(seqs::views(entries@)) <= usize::MAX,
    ensures
        out@ == summary(seqs::views(entries@)),
{
    let ghost all = seqs::views(entries@);
    let ghost names = Seq::new(all.len(), |i: int| entry_text(all[i]));
    let mut parts: Vec<String> = Vec::new();
    let mut failed: usize = 0;
    let mut i: usize = 0;
    proof {
        assert(all.take(0) =~= Seq::<EntryView>::empty());
        assert(seqs::views(parts@) =~= names.take(0));
    }
    while i < entries.len()
        invariant
            i <= entries@.len() == all.len(),
            all == seqs::views(entries@),
            names == Seq::new(all.len(), |i: int| entry_text(all[i])),
            failures(all) <= usize::MAX,
            failed == failures(all.take(i as int)),
            seqs::views(parts@) == names.take(i as int),
        decreases entries.len() - i,
    {
        let e = &entries[i];
        proof {
            let now = all.take(i + 1);
            assert(now.drop_last() =~= all.take(i as int));
            assert(now.last() == e@);
            lemma_failures_grow(all, i + 1);
            assert(names.take(i + 1) =~= names.take(i as int).push(names[i as int]));
        }
        let mut part = e.name.clone();
        if e.total > 1 {
            part.append(" ×");
            part.append(text::decimal_of(e.total as u64).as_str());
        }
        assert(part@ =~= entry_text(e@));
        parts.push(part);
        failed = failed + e.failed;
        i += 1;
    }
    proof {
        assert(all.take(all.len() as int) =~= all);
        assert(names.take(names.len() as int) =~= names);
    }
    if failed > 0 {
        let mut part = text::decimal_of(failed as u64);
        part.append(" failed");
        parts.push(part);
    }
    assert(seqs::views(parts@) =~= summary_parts(all));
    text::join(&parts, " · ")
}

/// A tool's argument in one line of at most `MAX_TOOL_ARG` columns.
pub open spec fn compacted(s: Seq<char>) -> Seq<char> {
    let line = text::joined(text::words_of(s), " "@);
    if width::cols(line) <= MAX_TOOL_ARG {
        line
    } else {
        line.take(wrap::cut(line, (MAX_TOOL_ARG - 1) as nat) as int) + "…"@
    }
}

/// Writes a tool's argument in one line of at most `MAX_TOOL_ARG` columns.
pub fn compact_tool_arg(s: &str) -> (out: String)
    ensures
        out@ == compacted(s@),
{
    let words = text::words(s);
    let line = text::join(&words, " ");
    if width::str_width(line.as_str()) <= MAX_TOOL_ARG {
        return line;
    }
    let (head, _tail) = split_at_width(line.as_str(), MAX_TOOL_ARG - 1);
    text::concat(head.as_str(), "…")
}

/// A tool that was called is found among the counts, and none is counted in two
/// places.
pub proof fn each_tool_is_counted_once(entries: Seq<EntryView>, name: Seq<char>)
    requires
        forall|i: int, j: int|
            0 <= i < j < entries.len() ==> (#[trigger] entries[i]).name != (
            #[trigger] entries[j]).name,
    ensures
        ({
            let next = bumped(entries, name);
            &&& forall|i: int, j: int|
                0 <= i < j < next.len() ==> (#[trigger] next[i]).name != (#[trigger] next[j]).name
            &&& find_entry(next, name, 0) is Some
        }),
{
    lemma_find_entry(entries, name, 0);
    let next = bumped(entries, name);
    match find_entry(entries, name, 0) {
        Some(i) => {
            lemma_found(next, name, 0, i);
        },
        None => {
            lemma_found(next, name, 0, entries.len());
        },
    }
}

proof fn lemma_find_entry(entries: Seq<EntryView>, name: Seq<char>, i: nat)
    ensures
        match find_entry(entries, name, i) {
            Some(k) => i <= k < entries.len() && entries[k as int].name == name,
            None => forall|k: int| i <= k < entries.len() ==> (#[trigger] entries[k]).name != name,
        },
    decreases entries.len() - i,
{
    if i < entries.len() && entries[i as int].name != name {
        lemma_find_entry(entries, name, i + 1);
    }
}

proof fn lemma_found(entries: Seq<EntryView>, name: Seq<char>, i: nat, k: nat)
    requires
        i <= k < entries.len(),
        entries[k as int].name == name,
    ensures
        find_entry(entries, name, i) is Some,
    decreases entries.len() - i,
{
    if entries[i as int].name != name {
        lemma_found(entries, name, i + 1, k);
    }
}

/// The calls of a tool that entries count, and those of them that failed.
pub open spec fn count_of(entries: Seq<EntryView>, name: Seq<char>) -> (nat, nat)
    decreases entries.len(),
{
    if entries.len() == 0 {
        (0, 0)
    } else {
        let (total, failed) = count_of(entries.drop_last(), name);
        if entries.last().name == name {
            (total + entries.last().total, failed + entries.last().failed)
        } else {
            (total, failed)
        }
    }
}

proof fn lemma_count_update(entries: Seq<EntryView>, at: int, e: EntryView, name: Seq<char>)
    requires
        0 <= at < entries.len(),
        e.name == entries[at].name,
        e.total >= entries[at].total,
        e.failed >= entries[at].failed,
    ensures
        ({
            let before = count_of(entries, name);
            let after = count_of(entries.update(at, e), name);
            if e.name == name {
                after.0 == before.0 + (e.total - entries[at].total) && after.1 == before.1 + (
                e.failed - entries[at].failed)
            } else {
                after == before
            }
        }),
    decreases entries.len(),
{
    let next = entries.update(at, e);
    if at == entries.len() - 1 {
        assert(next.drop_last() =~= entries.drop_last());
    } else {
        lemma_count_update(entries.drop_last(), at, e, name);
        assert(next.drop_last() =~= entries.drop_last().update(at, e));
        assert(next.last() == entries.last());
    }
}

/// A call is counted for its own tool alone, and a failure of a tool that was
/// called too.
pub proof fn calls_are_counted_by_tool(
    entries: Seq<EntryView>,
    name: Seq<char>,
    other: Seq<char>,
)
    ensures
        count_of(bumped(entries, name), name).0 == count_of(entries, name).0 + 1,
        count_of(bumped(entries, name), name).1 == count_of(entries, name).1,
        other != name ==> count_of(bumped(entries, name), other) == count_of(entries, other),
        find_entry(entries, name, 0) is Some ==> count_of(bumped_failed(entries, name), name) == (
            count_of(entries, name).0,
            count_of(entries, name).1 + 1,
        ),
        other != name ==> count_of(bumped_failed(entries, name), other) == count_of(entries, other),
{
    lemma_find_entry(entries, name, 0);
    match find_entry(entries, name, 0) {
        Some(i) => {
            let at = i as int;
            let more = EntryView { total: entries[at].total + 1, ..entries[at] };
            let worse = EntryView { failed: entries[at].failed + 1, ..entries[at] };
            lemma_count_update(entries, at, more, name);
            lemma_count_update(entries, at, more, other);
            lemma_count_update(entries, at, worse, name);
            lemma_count_update(entries, at, worse, other);
        },
        None => {
            let next = bumped(entries, name);
            assert(next.drop_last() =~= entries);
        },
    }
}

/// A tool that was called once is told by its name, one called more often with the
/// number; failures are told last, and only where there are any.
pub proof fn tools_are_told(entries: Seq<EntryView>, i: int)
    requires
        0 <= i < entries.len(),
    ensures
        ({
            let parts = summary_parts(entries);
            &&& entries[i].total <= 1 ==> parts[i] == entries[i].name
            &&& entries[i].total > 1 ==> parts[i] == entries[i].name + " ×"@ + text::decimal(
                entries[i].total,
            )
            &&& failures(entries) == 0 ==> parts.len() == entries.len()
            &&& failures(entries) > 0 ==> parts.len() == entries.len() + 1 && parts.last()
                == text::decimal(failures(entries)) + " failed"@
            &&& summary(entries) == text::joined(parts, " · "@)
        }),
{
}

/// An argument keeps its words; one that is too wide is cut and ends in an
/// ellipsis, and starts as its words do.
pub proof fn arguments_keep_their_words(s: Seq<char>)
    ensures
        ({
            let line = text::joined(text::words_of(s), seq![' ']);
            &&& width::cols(line) <= 80 ==> text::words_of(compacted(s)) == text::words_of(s)
            &&& width::cols(line) > 80 ==> compacted(s).last() == '…' && compacted(
                s,
            ).drop_last().is_prefix_of(line)
        }),
{
    reveal_strlit(" ");
    reveal_strlit("…");
    assert(" "@ =~= seq![' ']);
    let line = text::joined(text::words_of(s), seq![' ']);
    text::words_hold_all_but_white(s);
    text::joined_words_are_kept(text::words_of(s));
    wrap::cut_loses_nothing(line, 79);
    let k = wrap::cut(line, 79) as int;
    if width::cols(line) > 80 {
        assert(compacted(s).drop_last() =~= line.take(k));
        assert(line.take(k) =~= line.subrange(0, k));
    }
}

} // verus!
