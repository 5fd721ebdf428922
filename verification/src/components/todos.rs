//! The task list of the session.
use vstd::prelude::*;
use vstd::string::*;

use super::event::{AgentEvent, AppEvent, TodoItem, TodoStatus};
use super::queue;
use super::queue::first_line_of;
use super::sizing;
use super::sizing::truncate_str;
use super::theme;
use crate::seqs;
use crate::style::{Line, Style};
use crate::style;
use crate::width;

verus! {

broadcast use crate::seqs::views_push;

/// Rows that the task list takes at most.
pub const MAX_HEIGHT: u16 = 6;

/// A task.
#[verifier::ext_equal]
pub struct TodoView {
    pub id: Seq<char>,
    pub content: Seq<char>,
    pub status: TodoStatus,
}

impl View for TodoItem {
    type V = TodoView;

    open spec fn view(&self) -> TodoView {
        TodoView { id: self.id@, content: self.content@, status: self.status }
    }
}

/// A copy of a task list.
pub fn copy_items(items: &Vec<TodoItem>) -> (out: Vec<TodoItem>)
    ensures
        seqs::views(out@) == seqs::views(items@),
{
    let ghost all = seqs::views(items@);
    let mut out: Vec<TodoItem> = Vec::new();
    let mut i: usize = 0;
    assert(seqs::views(out@) =~= all.take(0));
    while i < items.len()
        invariant
            i <= items@.len(),
            all == seqs::views(items@),
            seqs::views(out@) == all.take(i as int),
        decreases items.len() - i,
    {
        let item = TodoItem {
            id: items[i].id.clone(),
            content: items[i].content.clone(),
            status: items[i].status,
        };
        proof {
            assert(item@ =~= all[i as int]);
            assert(all.take(i + 1) =~= all.take(i as int).push(all[i as int]));
        }
        out.push(item);
        i += 1;
    }
    assert(all.take(all.len() as int) =~= all);
    out
}

/// The mark of a task.
pub open spec fn mark_of(status: TodoStatus) -> Seq<char> {
    match status {
        TodoStatus::Pending => "[ ] "@,
        TodoStatus::InProgress => "[~] "@,
        TodoStatus::Completed => "[x] "@,
        TodoStatus::Cancelled => "[-] "@,
    }
}

/// The style of a task.
pub open spec fn style_of(status: TodoStatus) -> Style {
    match status {
        TodoStatus::Pending => Style::plain(),
        TodoStatus::InProgress => theme::accent(),
        TodoStatus::Completed | TodoStatus::Cancelled => theme::dim(),
    }
}

/// The line of a task: its mark and the start of its first line.
pub open spec fn todo_line(item: TodoView, width: nat) -> Seq<style::SpanView> {
    let budget = if width >= 4 {
        (width - 4) as nat
    } else {
        0
    };
    style::pair_line(
        mark_of(item.status),
        style_of(item.status),
        sizing::truncated(queue::first_line(item.content), budget),
        style_of(item.status),
    )
}

fn item_line(item: &TodoItem, width: usize) -> (line: Line)
    ensures
        line@ == todo_line(item@, width as nat),
{
    let mark = match item.status {
        TodoStatus::Pending => "[ ] ",
        TodoStatus::InProgress => "[~] ",
        TodoStatus::Completed => "[x] ",
        TodoStatus::Cancelled => "[-] ",
    };
    let s = match item.status {
        TodoStatus::Pending => Style::plain(),
        TodoStatus::InProgress => theme::accent(),
        TodoStatus::Completed | TodoStatus::Cancelled => theme::dim(),
    };
    let first = first_line_of(item.content.as_str());
    let preview = truncate_str(first.as_str(), width.saturating_sub(4));
    Line::pair(mark.to_owned(), s, preview, s)
}

/// Rows of a task list.
pub open spec fn todo_rows(count: nat) -> nat {
    let n = count % 65536;
    if n <= MAX_HEIGHT {
        n
    } else {
        MAX_HEIGHT as nat
    }
}

/// The lines of a task list in an area.
pub open spec fn todo_lines(items: Seq<TodoView>, width: nat, height: nat) -> Seq<
    Seq<style::SpanView>,
> {
    let n = if height <= items.len() {
        height
    } else {
        items.len()
    };
    Seq::new(n, |i: int| todo_line(items[i], width))
}

/// Read-only checklist of the current session TODO list.
pub struct TodosWidget {
    items: Vec<TodoItem>,
}

impl View for TodosWidget {
    type V = Seq<TodoView>;

    closed spec fn view(&self) -> Seq<TodoView> {
        seqs::views(self.items@)
    }
}

/// The task list after an event of the session.
pub open spec fn todos_after(items: Seq<TodoView>, ev: AppEvent) -> Seq<TodoView> {
    match ev {
        AppEvent::Agent(AgentEvent::TodosChanged { items: changed }) => seqs::views(changed@),
        _ => items,
    }
}

impl TodosWidget {
    /// A checklist of the given tasks.
    pub fn new(items: Vec<TodoItem>) -> (w: Self)
        ensures
            w@ == seqs::views(items@),
    {
        TodosWidget { items }
    }

    /// Rows that the checklist takes.
    pub fn height(&self) -> (rows: u16)
        ensures
            rows == todo_rows(self@.len()),
    {
        let n: u16 = (self.items.len() % 65536) as u16;
        if n <= MAX_HEIGHT {
            n
        } else {
            MAX_HEIGHT
        }
    }

    /// Replaces the tasks.
    pub fn set_items(&mut self, items: &Vec<TodoItem>)
        ensures
            final(self)@ == seqs::views(items@),
    {
        self.items = copy_items(items);
    }

    /// Drops the tasks.
    pub fn clear(&mut self)
        ensures
            final(self)@ == Seq::<TodoView>::empty(),
    {
        self.items = Vec::new();
        assert(self@ =~= Seq::<TodoView>::empty());
    }

    /// Takes an event of the session.
    pub fn on_event(&mut self, ev: &AppEvent)
        ensures
            final(self)@ == todos_after(old(self)@, *ev),
    {
        match ev {
            AppEvent::Agent(AgentEvent::TodosChanged { items }) => {
                self.set_items(items);
            },
            _ => {},
        }
    }

    /// The lines of the checklist in an area.
    pub fn draw(&self, width: u16, height: u16) -> (out: Vec<Line>)
        ensures
            seqs::views(out@) == todo_lines(self@, width as nat, height as nat),
    {
        let n: usize = if height as usize <= self.items.len() {
            height as usize
        } else {
            self.items.len()
        };
        let ghost all = todo_lines(self@, width as nat, height as nat);
        let mut out: Vec<Line> = Vec::new();
        let mut i: usize = 0;
        assert(seqs::views(out@) =~= all.take(0));
        while i < n
            invariant
                i <= n <= self.items@.len(),
                n == all.len(),
                all == todo_lines(self@, width as nat, height as nat),
                seqs::views(out@) == all.take(i as int),
            decreases n - i,
        {
            let line = item_line(&self.items[i], width as usize);
            proof {
                assert(line@ == all[i as int]);
                assert(all.take(i + 1) =~= all.take(i as int).push(all[i as int]));
            }
            out.push(line);
            i += 1;
        }
        assert(all.take(all.len() as int) =~= all);
        out
    }
}

/// The tasks are listed in their order, as many as there is room for, each on a
/// line of its own: a mark for how far it is, and the start of its first line.
pub proof fn tasks_are_listed(items: Seq<TodoView>, width: nat, height: nat, i: int)
    requires
        0 <= i < items.len(),
        i < height,
    ensures
        ({
            let lines = todo_lines(items, width, height);
            let mark = lines[i][0].text;
            &&& lines.len() == if height <= items.len() {
                height
            } else {
                items.len()
            }
            &&& items[i].status is Pending ==> mark == "[ ] "@
            &&& items[i].status is InProgress ==> mark == "[~] "@
            &&& items[i].status is Completed ==> mark == "[x] "@
            &&& items[i].status is Cancelled ==> mark == "[-] "@
            &&& width >= 4 && width::cols(queue::first_line(items[i].content)) <= width - 4
                ==> lines[i][1].text == queue::first_line(items[i].content)
            &&& lines[i].len() == 2
        }),
{
}

/// The list follows the session: a list that it tells replaces the one before, and
/// nothing else changes it.
pub proof fn the_list_follows_the_session(items: Seq<TodoView>, ev: AppEvent)
    ensures
        ev matches AppEvent::Agent(AgentEvent::TodosChanged { items: changed }) ==> todos_after(
            items,
            ev,
        ) == seqs::views(changed@),
        !(ev is Agent) ==> todos_after(items, ev) == items,
{
}

} // verus!
