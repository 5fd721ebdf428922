//! The task list of the plain interface.
use vstd::prelude::*;

use super::event::{AgentEvent, AppEvent};
use crate::components::todos;
use crate::components::todos::TodosWidget;
use crate::seqs;

verus! {

/// The tasks after an event of the session: an update replaces them, clearing
/// the history drops them.
pub open spec fn todos_after(items: Seq<todos::TodoView>, ev: AppEvent) -> Seq<todos::TodoView> {
    match ev {
        AppEvent::Agent { event } => match event {
            AgentEvent::TodoUpdated { items: changed } => seqs::views(changed@),
            AgentEvent::HistoryCleared => Seq::empty(),
            _ => items,
        },
        _ => items,
    }
}

/// Takes an event of the session.
pub fn on_event(tasks: &mut TodosWidget, ev: &AppEvent)
    ensures
        final(tasks)@ == todos_after(old(tasks)@, *ev),
{
    match ev {
        AppEvent::Agent { event } => match event {
            AgentEvent::TodoUpdated { items } => {
                tasks.set_items(items);
            },
            AgentEvent::HistoryCleared => {
                tasks.clear();
            },
            _ => {},
        },
        _ => {},
    }
}

/// The list follows the session: a list that it tells replaces the one before, a
/// history that is cleared leaves none, and nothing else changes it.
pub proof fn the_list_follows_the_session(items: Seq<todos::TodoView>, ev: AppEvent)
    ensures
        ev matches AppEvent::Agent { event: AgentEvent::TodoUpdated { items: changed } }
            ==> todos_after(items, ev) == seqs::views(changed@),
        ev matches AppEvent::Agent { event: AgentEvent::HistoryCleared } ==> todos_after(
            items,
            ev,
        ).len() == 0,
        !(ev is Agent) ==> todos_after(items, ev) == items,
{
}

} // verus!
