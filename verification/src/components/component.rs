//! What the widgets share.
use vstd::prelude::*;

use super::event::AgentMode;

verus! {

/// What every widget may ask of the session while it draws or reacts.
#[derive(Clone, Copy, Debug, PartialEq, Eq, Structural)]
pub struct State {
    pub busy: bool,
    pub mode: AgentMode,
    pub frame: u64,
}

impl State {
    /// An idle session in the default mode.
    #[verifier::allow_in_spec]
    pub fn new() -> State
        returns
            (State { busy: false, mode: AgentMode::Default, frame: 0 }),
    {
        State { busy: false, mode: AgentMode::Default, frame: 0 }
    }
}

/// What a key press asks the session for.
#[derive(Debug)]
pub enum Action {
    Quit,
    Cancel,
    Submit(String),
    Queue(String),
    /// Run a slash command without touching the transcript or input.
    QuietSubmit(String),
    /// Show a transient notice.
    Notify(String),
}

/// What a key press asks the session for.
pub enum ActionView {
    Quit,
    Cancel,
    Submit(Seq<char>),
    Queue(Seq<char>),
    QuietSubmit(Seq<char>),
    Notify(Seq<char>),
}

impl View for Action {
    type V = ActionView;

    open spec fn view(&self) -> ActionView {
        match self {
            Action::Quit => ActionView::Quit,
            Action::Cancel => ActionView::Cancel,
            Action::Submit(t) => ActionView::Submit(t@),
            Action::Queue(t) => ActionView::Queue(t@),
            Action::QuietSubmit(t) => ActionView::QuietSubmit(t@),
            Action::Notify(t) => ActionView::Notify(t@),
        }
    }
}

/// What a widget did with a key press.
#[derive(Debug)]
pub enum KeyResult {
    Ignored,
    Handled,
    Action(Action),
}

/// What a widget did with a key press.
pub enum KeyResultView {
    Ignored,
    Handled,
    Action(ActionView),
}

impl View for KeyResult {
    type V = KeyResultView;

    open spec fn view(&self) -> KeyResultView {
        match self {
            KeyResult::Ignored => KeyResultView::Ignored,
            KeyResult::Handled => KeyResultView::Handled,
            KeyResult::Action(a) => KeyResultView::Action(a@),
        }
    }
}

} // verus!
