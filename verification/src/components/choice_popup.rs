//! A question with a list of answers.
use vstd::prelude::*;
use vstd::string::*;

use super::list;
use crate::keys::{KeyCode, KeyEvent};
use crate::seqs;
use crate::style::Line;
use crate::text;

verus! {

/// What a key press did to the question.
#[derive(Clone, Copy, Debug, PartialEq, Eq, Structural)]
pub enum ChoicePopupAction {
    Handled,
    Confirm(usize),
    Cancel,
}

/// A question with a list of answers, one of which is selected.
pub struct ChoicePopup {
    title: String,
    detail: String,
    items: Vec<(String, String)>,
    selected: usize,
}

/// What a question shows.
#[verifier::ext_equal]
pub struct ChoiceView {
    pub title: Seq<char>,
    pub detail: Seq<char>,
    pub items: Seq<(Seq<char>, Seq<char>)>,
    pub selected: nat,
}

impl View for ChoicePopup {
    type V = ChoiceView;

    closed spec fn view(&self) -> ChoiceView {
        ChoiceView {
            title: self.title@,
            detail: self.detail@,
            items: list::pair_views(self.items@),
            selected: self.selected as nat,
        }
    }
}

/// The question whether a tool may run.
pub open spec fn approval_view(name: Seq<char>, summary: Seq<char>) -> ChoiceView {
    ChoiceView {
        title: "permission required"@ + " · "@ + name,
        detail: summary,
        items: seq![("Approve"@, "run this tool"@), ("Reject"@, "do not run this tool"@)],
        selected: 0,
    }
}

/// The question whether the agent may go on.
pub open spec fn loop_limit_view(max_iters: nat) -> ChoiceView {
    ChoiceView {
        title: "agent loop limit reached"@,
        detail: "ran "@ + text::decimal(max_iters) + " iterations"@,
        items: seq![("Continue"@, "run another round"@), ("Exit"@, "stop this turn"@)],
        selected: 0,
    }
}

/// What a key press answers.
pub open spec fn choice_answer(v: ChoiceView, key: KeyEvent) -> ChoicePopupAction {
    match key.code {
        KeyCode::Enter => if key.modifiers.is_empty() {
            ChoicePopupAction::Confirm(v.selected as usize)
        } else {
            ChoicePopupAction::Handled
        },
        KeyCode::Char('y') => ChoicePopupAction::Confirm(0),
        KeyCode::Esc | KeyCode::Char('n') => ChoicePopupAction::Confirm(
            (if v.items.len() > 0 {
                v.items.len() - 1
            } else {
                0
            }) as usize,
        ),
        KeyCode::Char('c') => if key.modifiers.control {
            ChoicePopupAction::Cancel
        } else {
            ChoicePopupAction::Handled
        },
        _ => ChoicePopupAction::Handled,
    }
}

/// The question after a key press.
pub open spec fn after_choice_key(v: ChoiceView, key: KeyEvent) -> ChoiceView {
    match key.code {
        KeyCode::Up => ChoiceView {
            selected: list::cycled(v.selected, v.items.len(), true),
            ..v
        },
        KeyCode::Down => ChoiceView {
            selected: list::cycled(v.selected, v.items.len(), false),
            ..v
        },
        _ => v,
    }
}

fn two_items(a: &str, a_desc: &str, b: &str, b_desc: &str) -> (items: Vec<(String, String)>)
    ensures
        list::pair_views(items@) == seq![(a@, a_desc@), (b@, b_desc@)],
{
    let items = vec![(a.to_owned(), a_desc.to_owned()), (b.to_owned(), b_desc.to_owned())];
    assert(list::pair_views(items@) =~= seq![(a@, a_desc@), (b@, b_desc@)]);
    items
}

impl ChoicePopup {
    /// The question whether the tool `name` may run.
    pub fn approval(name: &str, summary: &str) -> (p: Self)
        ensures
            p@ == approval_view(name@, summary@),
    {
        let mut title = "permission required".to_owned();
        title.append(" · ");
        title.append(name);
        let p = ChoicePopup {
            title,
            detail: summary.to_owned(),
            items: two_items("Approve", "run this tool", "Reject", "do not run this tool"),
            selected: 0,
        };
        assert(p@ =~= approval_view(name@, summary@));
        p
    }

    /// The question whether the agent may go on after `max_iters` rounds.
    pub fn loop_limit(max_iters: usize) -> (p: Self)
        ensures
            p@ == loop_limit_view(max_iters as nat),
    {
        let mut detail = "ran ".to_owned();
        detail.append(text::decimal_of(max_iters as u64).as_str());
        detail.append(" iterations");
        let p = ChoicePopup {
            title: "agent loop limit reached".to_owned(),
            detail,
            items: two_items("Continue", "run another round", "Exit", "stop this turn"),
            selected: 0,
        };
        assert(p@ =~= loop_limit_view(max_iters as nat));
        p
    }

    /// Rows that the question takes.
    pub fn height(&self) -> (rows: u16)
        ensures
            rows == (if self@.items.len() + list::TITLE_ROWS <= u16::MAX {
                self@.items.len() + list::TITLE_ROWS
            } else {
                u16::MAX as int
            }),
    {
        list::titled_list_height(self.items.len())
    }

    /// The lines that the question is drawn as.
    pub fn lines(&self) -> (out: Vec<Line>)
        ensures
            seqs::views(out@) == list::titled_choices(
                self@.title,
                self@.detail,
                self@.items,
                self@.selected,
            ),
    {
        list::titled_choice_lines(
            self.title.as_str(),
            self.detail.as_str(),
            &self.items,
            self.selected,
        )
    }

    /// Reacts to a key press.
    pub fn handle_key(&mut self, key: &KeyEvent) -> (action: ChoicePopupAction)
        ensures
            action == choice_answer(old(self)@, *key),
            final(self)@ == after_choice_key(old(self)@, *key),
    {
        let n: usize = self.items.len();
        match key.code {
            KeyCode::Up => {
                list::cycle_selected(&mut self.selected, n, true);
                assert(self@ =~= after_choice_key(old(self)@, *key));
                ChoicePopupAction::Handled
            },
            KeyCode::Down => {
                list::cycle_selected(&mut self.selected, n, false);
                assert(self@ =~= after_choice_key(old(self)@, *key));
                ChoicePopupAction::Handled
            },
            KeyCode::Enter => if key.modifiers.is_empty() {
                ChoicePopupAction::Confirm(self.selected)
            } else {
                ChoicePopupAction::Handled
            },
            KeyCode::Char('y') => ChoicePopupAction::Confirm(0),
            KeyCode::Esc | KeyCode::Char('n') => ChoicePopupAction::Confirm(n.saturating_sub(1)),
            KeyCode::Char('c') => if key.modifiers.control {
                ChoicePopupAction::Cancel
            } else {
                ChoicePopupAction::Handled
            },
            _ => ChoicePopupAction::Handled,
        }
    }
}

/// Enter gives the answer that is marked; `y` gives the first answer, and `n` and
/// Esc the last.
pub proof fn the_marked_answer_is_given(v: ChoiceView, key: KeyEvent, i: int)
    requires
        0 <= i < v.items.len() <= usize::MAX,
        list::titled_choices(v.title, v.detail, v.items, v.selected)[i + 2][0].text == "▸ "@,
    ensures
        key.code is Enter && key.modifiers.is_empty() ==> choice_answer(v, key)
            == ChoicePopupAction::Confirm(i as usize),
        key.code == KeyCode::Char('y') ==> choice_answer(v, key) == ChoicePopupAction::Confirm(0),
        key.code is Esc || key.code == KeyCode::Char('n') ==> choice_answer(v, key)
            == ChoicePopupAction::Confirm((v.items.len() - 1) as usize),
        list::titled_choices(v.title, v.detail, v.items, v.selected)[i + 2][1].text
            == v.items[i].0,
        list::titled_choices(v.title, v.detail, v.items, v.selected)[0][0].text == v.title,
        list::titled_choices(v.title, v.detail, v.items, v.selected)[1][0].text == v.detail,
{
    list::lists_show_their_entries(v.items, v.selected, i);
}

/// Of a tool that asks to run, the first answer approves and the last rejects; of a
/// limit that was reached, the first goes on and the last stops.
pub proof fn questions_name_their_answers(name: Seq<char>, summary: Seq<char>, max_iters: nat)
    ensures
        approval_view(name, summary).items.len() == 2,
        approval_view(name, summary).items[0].0 == "Approve"@,
        approval_view(name, summary).items[1].0 == "Reject"@,
        approval_view(name, summary).detail == summary,
        approval_view(name, summary).selected == 0,
        loop_limit_view(max_iters).items.len() == 2,
        loop_limit_view(max_iters).items[0].0 == "Continue"@,
        loop_limit_view(max_iters).items[1].0 == "Exit"@,
        loop_limit_view(max_iters).selected == 0,
{
}

/// The arrows move the mark by one answer, around the ends, and nothing else.
pub proof fn arrows_move_the_marked_answer(v: ChoiceView, key: KeyEvent)
    requires
        v.selected < v.items.len(),
    ensures
        key.code is Down ==> after_choice_key(v, key).selected == if v.selected + 1 < v.items.len() {
            v.selected + 1
        } else {
            0
        },
        key.code is Up ==> after_choice_key(v, key).selected == if v.selected > 0 {
            v.selected - 1
        } else {
            v.items.len() - 1
        },
        after_choice_key(v, key).items == v.items,
        after_choice_key(v, key).selected < v.items.len(),
{
    list::cycling_moves_by_one(v.selected, v.items.len());
}

} // verus!
