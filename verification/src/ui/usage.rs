//! The row that counts tokens.
use vstd::prelude::*;
use vstd::string::*;

use super::event::{AgentEvent, AppEvent};
use crate::components::event::Usage;
use crate::components::sizing;
use crate::components::sizing::human;
use crate::components::theme;
use crate::style::Line;
use crate::style;

verus! {

/// The tokens that were used, as the row shows them.
pub open spec fn usage_text(u: Usage) -> Seq<char> {
    let s = " ↑"@ + sizing::human_text(u.input_tokens as nat) + " in · ↓"@ + sizing::human_text(
        u.output_tokens as nat,
    ) + " out"@;
    let s = if u.cache_read_tokens > 0 {
        s + " · cache "@ + sizing::human_text(u.cache_read_tokens as nat)
    } else {
        s
    };
    if u.reasoning_tokens > 0 {
        s + " · reasoning "@ + sizing::human_text(u.reasoning_tokens as nat)
    } else {
        s
    }
}

/// Writes the tokens that were used.
pub fn format_usage(u: &Usage) -> (out: String)
    ensures
        out@ == usage_text(*u),
{
    let mut s = " ↑".to_owned();
    s.append(human(u.input_tokens).as_str());
    s.append(" in · ↓");
    s.append(human(u.output_tokens).as_str());
    s.append(" out");
    if u.cache_read_tokens > 0 {
        s.append(" · cache ");
        s.append(human(u.cache_read_tokens).as_str());
    }
    if u.reasoning_tokens > 0 {
        s.append(" · reasoning ");
        s.append(human(u.reasoning_tokens).as_str());
    }
    s
}

/// The row that counts tokens.
pub struct UsageBar {
    total: Usage,
}

impl View for UsageBar {
    type V = Usage;

    closed spec fn view(&self) -> Usage {
        self.total
    }
}

/// What was used after an event of the session.
pub open spec fn counted(before: Usage, ev: AppEvent) -> Usage {
    match ev {
        AppEvent::Agent { event: AgentEvent::Done { usage, .. } } => usage,
        _ => before,
    }
}

impl UsageBar {
    /// A row that has counted nothing yet.
    pub fn new() -> (bar: Self)
        ensures
            bar@ == Usage::zero(),
    {
        UsageBar { total: Usage::zero() }
    }

    /// Takes an event of the session.
    pub fn on_event(&mut self, ev: &AppEvent)
        ensures
            final(self)@ == counted(old(self)@, *ev),
    {
        match ev {
            AppEvent::Agent { event: AgentEvent::Done { usage, .. } } => {
                self.total = *usage;
            },
            _ => {},
        }
    }

    /// The line of the row.
    pub fn draw(&self) -> (line: Line)
        ensures
            line@ == seq![style::SpanView { text: usage_text(self@), style: theme::dim() }],
    {
        Line::of(format_usage(&self.total), theme::dim())
    }
}

/// The counts of a turn are told in this order: what went in, what came out, and
/// what was cached and spent on reasoning where any was.
pub proof fn usage_tells_each_count(u: Usage)
    ensures
        ({
            let plain = " ↑"@ + sizing::human_text(u.input_tokens as nat) + " in · ↓"@
                + sizing::human_text(u.output_tokens as nat) + " out"@;
            let cached = plain + " · cache "@ + sizing::human_text(u.cache_read_tokens as nat);
            let thought = " · reasoning "@;
            let spent = sizing::human_text(u.reasoning_tokens as nat);
            &&& u.cache_read_tokens == 0 && u.reasoning_tokens == 0 ==> usage_text(u) == plain
            &&& u.cache_read_tokens > 0 && u.reasoning_tokens == 0 ==> usage_text(u) == cached
            &&& u.cache_read_tokens == 0 && u.reasoning_tokens > 0 ==> usage_text(u) == plain
                + thought + spent
            &&& u.cache_read_tokens > 0 && u.reasoning_tokens > 0 ==> usage_text(u) == cached
                + thought + spent
        }),
{
}

/// The end of a turn brings the count that it tells, whatever was counted before;
/// any other event leaves the count alone.
pub proof fn the_last_turn_counts(before: Usage, earlier: Usage, ev: AppEvent)
    ensures
        ev matches AppEvent::Agent { event: AgentEvent::Done { usage, .. } } ==> counted(before, ev)
            == usage && counted(earlier, ev) == usage,
        !(ev matches AppEvent::Agent { event: AgentEvent::Done { .. } }) ==> counted(before, ev)
            == before,
{
}

} // verus!
