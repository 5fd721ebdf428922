//! The interface as a whole: what keys, the mouse and the session do to it.
use vstd::prelude::*;
use vstd::string::*;

use super::commands;
use super::commands::display_user_input;
use super::component;
use super::component::{Action, KeyResult, State};
use super::composer;
use super::event;
use super::event::{AgentMode, AppEvent, ProviderConfig, StateChange, TodoItem};
use super::file_mention_popup::MentionQuery;
use super::input;
use super::input::{InputView, Lookup, Overlay};
use super::layout;
use super::layout::Regions;
use super::list;
use super::outbox;
use super::outbox::Outbox;
use super::queue::QueueWidget;
use super::status;
use super::status::{StatusBar, StatusHint};
use super::todos;
use super::todos::TodosWidget;
use super::transcript::model;
use super::transcript::model::TranscriptView;
use super::transcript::widget::Transcript;
use crate::keys::{KeyCode, KeyEvent, MouseEvent};
use crate::seqs;
use crate::style::Rect;

verus! {

broadcast use crate::seqs::views_push;

/// Whether a key switches the agent's mode.
#[verifier::allow_in_spec]
pub fn is_mode_toggle(key: KeyEvent) -> bool
    returns
        (key.code == KeyCode::BackTab || (key.code == KeyCode::Tab && key.modifiers.shift)),
{
    key.code == KeyCode::BackTab || (key.code == KeyCode::Tab && key.modifiers.shift)
}

/// What the status row says of the keys.
#[verifier::allow_in_spec]
pub fn status_hint(overlay: Overlay, busy: bool) -> StatusHint
    returns
        (match overlay {
            Overlay::Slash | Overlay::Mention => StatusHint::Slash,
            Overlay::Model | Overlay::Setup => StatusHint::Modal,
            Overlay::Closed => if busy {
                StatusHint::Busy
            } else {
                StatusHint::Idle
            },
        }),
{
    match overlay {
        Overlay::Slash | Overlay::Mention => StatusHint::Slash,
        Overlay::Model | Overlay::Setup => StatusHint::Modal,
        Overlay::Closed => if busy {
            StatusHint::Busy
        } else {
            StatusHint::Idle
        },
    }
}

/// What pressing Esc should do, in priority order: pop a queued message,
/// interrupt an in-flight turn, or rewind the last finished exchange.
#[derive(Debug)]
pub enum EscAction {
    PopQueue(String),
    Cancel,
    Rewind(String),
    Ignore,
}

/// What pressing Esc should do.
pub enum EscView {
    PopQueue(Seq<char>),
    Cancel,
    Rewind(Seq<char>),
    Ignore,
}

impl View for EscAction {
    type V = EscView;

    open spec fn view(&self) -> EscView {
        match self {
            EscAction::PopQueue(t) => EscView::PopQueue(t@),
            EscAction::Cancel => EscView::Cancel,
            EscAction::Rewind(t) => EscView::Rewind(t@),
            EscAction::Ignore => EscView::Ignore,
        }
    }
}

/// What pressing Esc should do: a queued message goes first, then a turn under
/// way; a rewind under way is waited for.
pub open spec fn esc_choice(
    queued: Option<Seq<char>>,
    busy: bool,
    rewinding: bool,
    last_user: Option<Seq<char>>,
) -> EscView {
    match queued {
        Some(t) => EscView::PopQueue(t),
        None => if busy {
            EscView::Cancel
        } else if rewinding {
            EscView::Ignore
        } else {
            match last_user {
                Some(t) => EscView::Rewind(t),
                None => EscView::Ignore,
            }
        },
    }
}

impl EscAction {
    /// What pressing Esc should do.
    pub fn new(
        queued: Option<String>,
        busy: bool,
        rewinding: bool,
        last_user: Option<String>,
    ) -> (action: Self)
        ensures
            action@ == esc_choice(
                event::text_view(queued),
                busy,
                rewinding,
                event::text_view(last_user),
            ),
    {
        if let Some(t) = queued {
            return EscAction::PopQueue(t);
        }
        if busy {
            return EscAction::Cancel;
        }
        if rewinding {
            return EscAction::Ignore;
        }
        match last_user {
            Some(t) => EscAction::Rewind(t),
            None => EscAction::Ignore,
        }
    }
}

/// Something to tell the session.
#[derive(Debug)]
pub enum Command {
    Cancel,
    Rewind,
    SetMode(AgentMode),
    UserInput(String),
}

/// Something to tell the session.
pub enum CommandView {
    Cancel,
    Rewind,
    SetMode(AgentMode),
    UserInput(Seq<char>),
}

impl View for Command {
    type V = CommandView;

    open spec fn view(&self) -> CommandView {
        match self {
            Command::Cancel => CommandView::Cancel,
            Command::Rewind => CommandView::Rewind,
            Command::SetMode(mode) => CommandView::SetMode(*mode),
            Command::UserInput(t) => CommandView::UserInput(t@),
        }
    }
}

/// What a key press calls for: to quit, to tell the session something, to send
/// queued messages, to look something up.
pub struct Reaction {
    pub quit: bool,
    pub send: Option<Command>,
    pub outbox: Outbox,
    pub ask: Option<Lookup>,
}

/// What a key press calls for.
#[verifier::ext_equal]
pub struct ReactionView {
    pub quit: bool,
    pub send: Option<CommandView>,
    pub outbox: outbox::OutboxView,
    pub ask: Option<input::LookupView>,
}

/// A command, if there is one.
pub open spec fn command_view(c: Option<Command>) -> Option<CommandView> {
    match c {
        Some(c) => Some(c@),
        None => None,
    }
}

impl View for Reaction {
    type V = ReactionView;

    open spec fn view(&self) -> ReactionView {
        ReactionView {
            quit: self.quit,
            send: command_view(self.send),
            outbox: self.outbox@,
            ask: input::lookup_view(self.ask),
        }
    }
}

/// No messages to send.
pub open spec fn nothing_to_send() -> outbox::OutboxView {
    outbox::unsent(Seq::empty())
}

/// A reaction that sends one command at most.
pub open spec fn sending(send: Option<CommandView>) -> ReactionView {
    ReactionView { quit: false, send, outbox: nothing_to_send(), ask: None }
}

/// A reaction to a key that only has to look something up.
pub open spec fn asking(ask: Option<input::LookupView>) -> ReactionView {
    ReactionView { quit: false, send: None, outbox: nothing_to_send(), ask }
}

/// The interface.
pub struct Ui {
    state: State,
    quit: bool,
    /// Esc is ignored until the rewind is done, so a second one cannot desync
    /// the transcript from the session.
    rewinding: bool,
    pending: Vec<String>,
    transcript: Transcript,
    status: StatusBar,
    input: InputView,
    queue: QueueWidget,
    todos: TodosWidget,
}

/// What the interface holds.
#[verifier::ext_equal]
pub struct UiView {
    pub state: State,
    pub quit: bool,
    pub rewinding: bool,
    pub pending: Seq<Seq<char>>,
    pub transcript: TranscriptView,
    pub status: status::StatusView,
    pub input: input::InputData,
    pub todos: Seq<todos::TodoView>,
}

impl View for Ui {
    type V = UiView;

    closed spec fn view(&self) -> UiView {
        UiView {
            state: self.state,
            quit: self.quit,
            rewinding: self.rewinding,
            pending: seqs::views(self.pending@),
            transcript: self.transcript@,
            status: self.status@,
            input: self.input@,
            todos: self.todos@,
        }
    }
}

/// A mode that an event switches to.
pub open spec fn mode_of(ev: AppEvent) -> Option<AgentMode> {
    match ev {
        AppEvent::StateChanged(StateChange::ModeChanged { mode }) => Some(mode),
        _ => None,
    }
}

/// The transcript after the user's own messages.
pub open spec fn told(t: TranscriptView, texts: Seq<Seq<char>>) -> TranscriptView
    decreases texts.len(),
{
    if texts.len() == 0 {
        t
    } else {
        told(t, texts.drop_last()).with_user(commands::shown_input(texts.last()))
    }
}

impl UiView {
    /// The interface once the session did not take a command.
    pub open spec fn after_failed_send(self, command: CommandView) -> UiView {
        match command {
            CommandView::UserInput(t) => if commands::is_quiet(t) {
                self
            } else {
                UiView { state: State { busy: false, ..self.state }, ..self }
            },
            CommandView::Rewind => UiView { rewinding: false, ..self },
            CommandView::Cancel | CommandView::SetMode(_) => self,
        }
    }

    /// The interface once the queued messages are on their way, if it is idle.
    pub open spec fn flushed(self) -> UiView {
        if self.state.busy || self.pending.len() == 0 {
            self
        } else {
            UiView {
                state: State { busy: true, ..self.state },
                pending: Seq::empty(),
                ..self
            }
        }
    }

    /// The queued messages that go on their way.
    pub open spec fn flush(self) -> outbox::OutboxView {
        if self.state.busy || self.pending.len() == 0 {
            nothing_to_send()
        } else {
            outbox::unsent(self.pending)
        }
    }

    /// The interface after messages were sent: those that were are in the
    /// transcript, the others wait again.
    pub open spec fn after_sending(self, o: outbox::OutboxView) -> UiView {
        let next = UiView {
            transcript: told(self.transcript, o.texts.take(o.sent as int)),
            ..self
        };
        if o.sent < o.texts.len() {
            UiView {
                pending: o.remaining() + self.pending,
                state: State { busy: false, ..self.state },
                ..next
            }
        } else {
            next
        }
    }

    /// The interface after an event of the session, before queued messages go
    /// on their way.
    pub open spec fn noted(self, ev: AppEvent, now: u64) -> UiView {
        UiView {
            quit: self.quit || ev is Exited,
            state: State {
                busy: self.state.busy && !(ev is Idle),
                mode: match mode_of(ev) {
                    Some(mode) => mode,
                    None => self.state.mode,
                },
                ..self.state
            },
            transcript: self.transcript.after(ev),
            status: self.status.after_event(ev, now),
            input: self.input.after_event(ev),
            todos: todos::todos_after(self.todos, ev),
            rewinding: self.rewinding && !(ev is Rewound),
            ..self
        }
    }

    /// The interface with a short reply, before queued messages go on their way.
    pub open spec fn notified(self, t: Seq<char>, now: u64) -> UiView {
        UiView { status: self.status.replied(t, now), ..self }
    }

    /// The interface after a tick of the clock: the spinner turns while the session
    /// is busy, and a reply goes once its time is over.
    pub open spec fn ticked(self, now: u64) -> UiView {
        UiView {
            state: State {
                frame: if !self.state.busy {
                    self.state.frame
                } else if self.state.frame == u64::MAX {
                    0
                } else {
                    (self.state.frame + 1) as u64
                },
                ..self.state
            },
            status: self.status.expired(now),
            ..self
        }
    }

    /// Whether a tick of the clock may change anything.
    pub open spec fn is_moving(self) -> bool {
        self.state.busy || self.status.replies()
    }

    /// The interface with what a mouse event makes of the transcript.
    pub open spec fn moused(self, mouse: MouseEvent, now: u64, clipboard: bool) -> UiView {
        UiView { transcript: self.transcript.after_mouse(mouse, now, clipboard), ..self }
    }

    /// The interface after a mouse event: a copy is told.
    pub open spec fn after_mouse(self, mouse: MouseEvent, now: u64, clipboard: bool) -> UiView {
        let next = self.moused(mouse, now, clipboard);
        if self.transcript.mouse_answer(mouse, clipboard).1 {
            next.notified("Copied!"@, now).flushed()
        } else {
            next
        }
    }

    /// The queued messages that go on their way with a mouse event.
    pub open spec fn mouse_outbox(
        self,
        mouse: MouseEvent,
        now: u64,
        clipboard: bool,
    ) -> outbox::OutboxView {
        if self.transcript.mouse_answer(mouse, clipboard).1 {
            self.moused(mouse, now, clipboard).notified("Copied!"@, now).flush()
        } else {
            nothing_to_send()
        }
    }

    /// The message that Esc would take back.
    pub open spec fn last_queued(self) -> Option<Seq<char>> {
        if self.pending.len() > 0 {
            Some(self.pending.last())
        } else {
            None
        }
    }

    /// What Esc does.
    pub open spec fn esc(self) -> EscView {
        esc_choice(
            self.last_queued(),
            self.state.busy,
            self.rewinding,
            TranscriptView::last_prompt(self.transcript.rows),
        )
    }

    /// The interface after Esc.
    pub open spec fn after_esc(self) -> UiView {
        match self.esc() {
            EscView::PopQueue(t) => UiView {
                pending: self.pending.drop_last(),
                input: self.input.with_text(t).refreshed(),
                ..self
            },
            EscView::Rewind(t) => UiView {
                input: self.input.with_text(t).refreshed(),
                rewinding: true,
                ..self
            },
            _ => self,
        }
    }

    /// What Esc calls for.
    pub open spec fn esc_reaction(self) -> ReactionView {
        match self.esc() {
            EscView::PopQueue(t) => asking(self.input.with_text(t).asks()),
            EscView::Cancel => sending(Some(CommandView::Cancel)),
            EscView::Rewind(t) => ReactionView {
                quit: false,
                send: Some(CommandView::Rewind),
                outbox: nothing_to_send(),
                ask: self.input.with_text(t).asks(),
            },
            EscView::Ignore => sending(None),
        }
    }

    /// The interface after a widget asked for something.
    pub open spec fn after_result(self, result: component::KeyResultView, now: u64) -> UiView {
        match result {
            component::KeyResultView::Action(component::ActionView::Queue(t)) => UiView {
                pending: self.pending.push(t),
                ..self
            },
            component::KeyResultView::Action(component::ActionView::Submit(t)) => UiView {
                transcript: self.transcript.with_user(commands::shown_input(t)),
                status: self.status.unreplied(),
                input: self.input.cleared(),
                state: State { busy: true, ..self.state },
                ..self
            },
            component::KeyResultView::Action(component::ActionView::Notify(t)) => self.notified(
                t,
                now,
            ).flushed(),
            _ => self,
        }
    }

    /// What is called for after a widget asked for something.
    pub open spec fn result_reaction(
        self,
        result: component::KeyResultView,
        ask: Option<input::LookupView>,
        now: u64,
    ) -> ReactionView {
        match result {
            component::KeyResultView::Action(action) => match action {
                component::ActionView::Quit => ReactionView {
                    quit: true,
                    send: if self.state.busy {
                        Some(CommandView::Cancel)
                    } else {
                        None
                    },
                    outbox: nothing_to_send(),
                    ask,
                },
                component::ActionView::Cancel => ReactionView {
                    send: Some(CommandView::Cancel),
                    ..asking(ask)
                },
                component::ActionView::Queue(_) => asking(ask),
                component::ActionView::Submit(t) | component::ActionView::QuietSubmit(t) =>
                    ReactionView { send: Some(CommandView::UserInput(t)), ..asking(ask) },
                component::ActionView::Notify(t) => ReactionView {
                    outbox: self.notified(t, now).flush(),
                    ..asking(ask)
                },
            },
            _ => asking(ask),
        }
    }

    /// The bands of the screen.
    pub open spec fn regions(self, area: Rect) -> Regions {
        layout::arranged(
            area,
            layout::granted(
                area.height,
                input::bordered_rows(self.input.edit.lines, area.width) as u16,
                if self.pending.len() == 0 {
                    0
                } else {
                    1
                },
                todos::todo_rows(self.todos.len()) as u16,
                self.input.overlay_rows() as u16,
            ),
        )
    }

    /// What a key press does to everything but the input line, where it gets no
    /// further than that.
    pub open spec fn is_own_key(self, key: KeyEvent) -> bool {
        ||| key.code == KeyCode::Char('c') && key.modifiers.control
        ||| is_mode_toggle(key)
        ||| key.code is Esc && self.input.overlay() is Closed
        ||| key.code is Enter && self.rewinding && key.modifiers.is_empty()
        ||| key.code is PageUp
        ||| key.code is PageDown
    }

    /// The interface after one of its own keys.
    pub open spec fn after_own_key(self, key: KeyEvent) -> UiView {
        if key.code == KeyCode::Char('c') && key.modifiers.control {
            self
        } else if is_mode_toggle(key) {
            UiView { state: State { mode: self.state.mode.toggle(), ..self.state }, ..self }
        } else if key.code is Esc {
            self.after_esc()
        } else if key.code is Enter {
            self
        } else {
            let page = if self.transcript.area.height == 0 {
                1u16
            } else {
                self.transcript.area.height
            };
            UiView {
                transcript: if key.code is PageUp {
                    self.transcript.scrolled_up(page)
                } else {
                    self.transcript.scrolled_down(page)
                },
                ..self
            }
        }
    }

    /// What one of the interface's own keys calls for.
    pub open spec fn own_reaction(self, key: KeyEvent) -> ReactionView {
        if key.code == KeyCode::Char('c') && key.modifiers.control {
            ReactionView {
                quit: true,
                send: if self.state.busy {
                    Some(CommandView::Cancel)
                } else {
                    None
                },
                outbox: nothing_to_send(),
                ask: None,
            }
        } else if is_mode_toggle(key) {
            sending(Some(CommandView::SetMode(self.state.mode.toggle())))
        } else if key.code is Esc {
            self.esc_reaction()
        } else {
            sending(None)
        }
    }
}

fn no_outbox() -> (o: Outbox)
    ensures
        o@ == nothing_to_send(),
        o@.wf(),
{
    let none: Vec<String> = Vec::new();
    assert(seqs::views(none@) =~= Seq::<Seq<char>>::empty());
    Outbox::new(none)
}

fn reaction(send: Option<Command>, ask: Option<Lookup>) -> (r: Reaction)
    ensures
        r@ == (ReactionView { send: command_view(send), ..asking(input::lookup_view(ask)) }),
        r.outbox@.wf(),
{
    Reaction { quit: false, send, outbox: no_outbox(), ask }
}

fn mention_lookup(ask: Option<MentionQuery>) -> (out: Option<Lookup>)
    ensures
        input::lookup_view(out) == input::mention_view(ask),
{
    match ask {
        Some(q) => Some(Lookup::Mentions(q)),
        None => None,
    }
}

impl Ui {
    /// Whether the parts of the interface are valid.
    pub closed spec fn wf(&self) -> bool {
        self.transcript@.wf() && self.input.wf()
    }

    /// The interface of a session. With `needs_setup`, the setup wizard is open.
    pub fn new(
        commands: Vec<(String, String)>,
        provider: ProviderConfig,
        needs_setup: bool,
        status: StatusBar,
        tasks: Vec<TodoItem>,
    ) -> (ui: Self)
        ensures
            ui.wf(),
            ui@.state == State::new(),
            !ui@.quit,
            !ui@.rewinding,
            ui@.pending == Seq::<Seq<char>>::empty(),
            ui@.transcript == model::fresh_transcript(),
            ui@.status == status@,
            ui@.todos == seqs::views(tasks@),
            ui@.input == ({
                let fresh = input::fresh_input(list::pair_views(commands@), provider@);
                if needs_setup {
                    (input::InputData { setup: fresh.setup.opened(), ..fresh }).with_text(
                        "/setup "@,
                    ).refreshed()
                } else {
                    fresh
                }
            }),
    {
        let mut line = InputView::new(commands, provider);
        if needs_setup {
            let _ = line.open_setup();
        }
        let pending: Vec<String> = Vec::new();
        assert(seqs::views(pending@) =~= Seq::<Seq<char>>::empty());
        Ui {
            state: State::new(),
            quit: false,
            rewinding: false,
            pending,
            transcript: Transcript::new(),
            status,
            input: line,
            queue: QueueWidget::new(),
            todos: TodosWidget::new(tasks),
        }
    }

    /// What the widgets share.
    pub fn state(&self) -> (s: State)
        ensures
            s == self@.state,
    {
        self.state
    }

    /// Whether the session has ended.
    pub fn has_quit(&self) -> (yes: bool)
        ensures
            yes == self@.quit,
    {
        self.quit
    }

    /// The transcript.
    pub fn transcript(&self) -> (t: &Transcript)
        ensures
            t@ == self@.transcript,
            self.wf() ==> t@.wf(),
    {
        &self.transcript
    }

    /// The status row.
    pub fn status(&self) -> (s: &StatusBar)
        ensures
            s@ == self@.status,
    {
        &self.status
    }

    /// The input line.
    pub fn input(&self) -> (i: &InputView)
        ensures
            i@ == self@.input,
            self.wf() ==> i.wf(),
    {
        &self.input
    }

    /// The queued messages.
    pub fn pending(&self) -> (p: &Vec<String>)
        ensures
            seqs::views(p@) == self@.pending,
    {
        &self.pending
    }

    /// The task list.
    pub fn todos(&self) -> (t: &TodosWidget)
        ensures
            t@ == self@.todos,
    {
        &self.todos
    }

    /// Fills the transcript from the history of the session.
    pub fn load_transcript(&mut self, messages: &Vec<event::Message>)
        requires
            old(self).wf(),
        ensures
            final(self).wf(),
            final(self)@ == (UiView {
                transcript: old(self)@.transcript.seeded(messages@),
                ..old(self)@
            }),
    {
        self.transcript.seed_timed(messages);
    }

    /// Rebuilds the transcript from the history of the session.
    pub fn reload_transcript(&mut self, messages: &Vec<event::Message>)
        requires
            old(self).wf(),
        ensures
            final(self).wf(),
            final(self)@ == (UiView {
                transcript: old(self)@.transcript.cleared().seeded(messages@),
                ..old(self)@
            }),
    {
        self.transcript.replace_from_timed(messages);
    }

    /// Lays the transcript out for its band of the screen.
    pub fn lay_out(&mut self, area: Rect)
        requires
            old(self).wf(),
        ensures
            final(self).wf(),
            final(self)@ == (UiView {
                transcript: old(self)@.transcript.laid_out(area),
                ..old(self)@
            }),
    {
        self.transcript.lay_out(area);
    }

    /// Takes a tick of the clock: the spinner turns while the session is busy,
    /// and a reply goes once its time is over.
    pub fn tick(&mut self, now: u64)
        requires
            old(self).wf(),
        ensures
            final(self).wf(),
            final(self)@ == old(self)@.ticked(now),
    {
        if self.state.busy {
            self.state.frame = if self.state.frame == u64::MAX {
                0
            } else {
                self.state.frame + 1
            };
        }
        let _ = self.status.expire_reply(now);
    }

    /// Whether the clock matters.
    pub fn wants_tick(&self) -> (yes: bool)
        ensures
            yes == self@.is_moving(),
    {
        self.state.busy || self.status.has_reply()
    }

    /// Notes that nothing is under way any more: a submission failed, or the
    /// session is gone.
    pub fn set_idle(&mut self)
        requires
            old(self).wf(),
        ensures
            final(self).wf(),
            final(self)@ == (UiView {
                state: State { busy: false, ..old(self)@.state },
                ..old(self)@
            }),
    {
        self.state.busy = false;
    }

    /// Notes that the session did not take a command: a submission is not under
    /// way, nor a rewind.
    pub fn send_failed(&mut self, command: &Command)
        requires
            old(self).wf(),
        ensures
            final(self).wf(),
            final(self)@ == old(self)@.after_failed_send(command@),
    {
        match command {
            Command::UserInput(t) => {
                if !commands::is_model_or_setup(t.as_str()) {
                    self.set_idle();
                }
            },
            Command::Rewind => {
                self.rewind_failed();
            },
            Command::Cancel | Command::SetMode(_) => {},
        }
    }

    /// Notes that a rewind could not be asked for.
    pub fn rewind_failed(&mut self)
        requires
            old(self).wf(),
        ensures
            final(self).wf(),
            final(self)@ == (UiView { rewinding: false, ..old(self)@ }),
    {
        self.rewinding = false;
    }

    /// Takes pasted text.
    pub fn paste(&mut self, t: &str) -> (ask: Option<MentionQuery>)
        requires
            old(self).wf(),
        ensures
            final(self).wf(),
            final(self)@ == (UiView { input: old(self)@.input.pasted(t@), ..old(self)@ }),
            input::mention_view(ask) == old(self)@.input.paste_asks(t@),
    {
        self.input.paste(t)
    }

    /// Brings the popups of the input line up to date.
    pub fn refresh_popups(&mut self) -> (ask: Option<MentionQuery>)
        requires
            old(self).wf(),
        ensures
            final(self).wf(),
            final(self)@ == (UiView { input: old(self)@.input.refreshed(), ..old(self)@ }),
            input::mention_view(ask) == old(self)@.input.asks(),
    {
        self.input.refresh_popups()
    }

    /// Takes the files that fit a mention.
    pub fn set_matches(&mut self, found: Vec<String>, opened: bool)
        requires
            old(self).wf(),
        ensures
            final(self).wf(),
            final(self)@ == (UiView {
                input: input::InputData {
                    mention: old(self)@.input.mention.answered(seqs::views(found@), opened),
                    ..old(self)@.input
                },
                ..old(self)@
            }),
    {
        self.input.set_matches(found, opened);
    }

    /// Takes the canonical form of a provider's name.
    pub fn vendor_resolved(&mut self, vendor: String)
        requires
            old(self).wf(),
        ensures
            final(self).wf(),
            final(self)@ == (UiView {
                input: input::InputData {
                    setup: old(self)@.input.setup.resolved(vendor@),
                    ..old(self)@.input
                },
                ..old(self)@
            }),
    {
        self.input.vendor_resolved(vendor);
    }

    /// Sends queued messages on their way, each as its own turn, once the
    /// session is idle.
    pub fn maybe_flush(&mut self) -> (o: Outbox)
        requires
            old(self).wf(),
        ensures
            final(self).wf(),
            final(self)@ == old(self)@.flushed(),
            o@ == old(self)@.flush(),
            o@.wf(),
    {
        if self.state.busy || self.pending.len() == 0 {
            return no_outbox();
        }
        let mut texts: Vec<String> = Vec::new();
        std::mem::swap(&mut texts, &mut self.pending);
        self.state.busy = true;
        assert(seqs::views(self.pending@) =~= Seq::<Seq<char>>::empty());
        assert(self@ =~= old(self)@.flushed());
        Outbox::new(texts)
    }

    /// Notes what became of messages on their way: those that were sent appear in
    /// the transcript, the others wait again.
    pub fn flush_done(&mut self, o: &Outbox)
        requires
            old(self).wf(),
            o@.wf(),
        ensures
            final(self).wf(),
            final(self)@ == old(self)@.after_sending(o@),
    {
        let ghost v = self@;
        let ghost sent = o@.texts.take(o@.sent as int);
        let n: usize = o.sent();
        let mut i: usize = 0;
        assert(sent.take(0) =~= Seq::<Seq<char>>::empty());
        while i < n
            invariant
                i <= n == o@.sent,
                o@.wf(),
                sent == o@.texts.take(o@.sent as int),
                self.wf(),
                self@ == (UiView { transcript: told(v.transcript, sent.take(i as int)), ..v }),
            decreases n - i,
        {
            proof {
                let now = sent.take(i + 1);
                assert(now.drop_last() =~= sent.take(i as int));
                assert(now.last() == o@.texts[i as int]);
            }
            let shown = display_user_input(o.text(i));
            self.transcript.push_user(shown.as_str());
            i += 1;
        }
        assert(sent.take(sent.len() as int) =~= sent);
        let mut rest = o.remaining();
        if rest.len() > 0 {
            let ghost a = rest@;
            let ghost b = self.pending@;
            rest.append(&mut self.pending);
            assert(seqs::views(a + b) =~= seqs::views(a) + seqs::views(b));
            self.pending = rest;
            self.state.busy = false;
        }
        assert(self@ =~= v.after_sending(o@));
    }

    /// Takes an event of the session.
    pub fn apply_event(&mut self, ev: &AppEvent, now: u64) -> (o: Outbox)
        requires
            old(self).wf(),
        ensures
            final(self).wf(),
            final(self)@ == old(self)@.noted(*ev, now).flushed(),
            o@ == old(self)@.noted(*ev, now).flush(),
            o@.wf(),
    {
        match ev {
            AppEvent::Exited => {
                self.quit = true;
            },
            AppEvent::Idle => {
                self.state.busy = false;
            },
            AppEvent::StateChanged(StateChange::ModeChanged { mode }) => {
                self.state.mode = *mode;
            },
            AppEvent::Rewound => {
                self.rewinding = false;
            },
            _ => {},
        }
        self.transcript.on_event(ev);
        self.status.on_event(ev, now);
        self.input.on_event(ev);
        self.todos.on_event(ev);
        assert(self@ =~= old(self)@.noted(*ev, now));
        self.maybe_flush()
    }

    fn notify(&mut self, t: String, now: u64) -> (o: Outbox)
        requires
            old(self).wf(),
        ensures
            final(self).wf(),
            final(self)@ == old(self)@.notified(t@, now).flushed(),
            o@ == old(self)@.notified(t@, now).flush(),
            o@.wf(),
    {
        let ev = AppEvent::Notification { text: t };
        assert(old(self)@.noted(ev, now) =~= old(self)@.notified(t@, now));
        self.apply_event(&ev, now)
    }

    /// Takes a mouse event; `clipboard` says whether the clipboard took what
    /// `copy_request` gave for it.
    pub fn handle_mouse(&mut self, mouse: &MouseEvent, now: u64, clipboard: bool) -> (o: Outbox)
        requires
            old(self).wf(),
        ensures
            final(self).wf(),
            final(self)@ == old(self)@.after_mouse(*mouse, now, clipboard),
            o@ == old(self)@.mouse_outbox(*mouse, now, clipboard),
            o@.wf(),
    {
        match self.transcript.handle_mouse(mouse, now, clipboard) {
            KeyResult::Action(Action::Notify(t)) => self.notify(t, now),
            _ => no_outbox(),
        }
    }

    /// The text that a mouse event wants copied.
    pub fn copy_request(&mut self, mouse: &MouseEvent) -> (t: Option<String>)
        requires
            old(self).wf(),
        ensures
            final(self).wf(),
            event::text_view(t) == old(self)@.transcript.wanted_copy(*mouse),
            final(self)@ == (UiView {
                transcript: old(self)@.transcript.before_copy(*mouse),
                ..old(self)@
            }),
    {
        self.transcript.copy_request(mouse)
    }

    fn press_esc(&mut self) -> (r: Reaction)
        requires
            old(self).wf(),
        ensures
            final(self).wf(),
            final(self)@ == old(self)@.after_esc(),
            r@ == old(self)@.esc_reaction(),
            r.outbox@.wf(),
    {
        let ghost v = self@;
        let queued = self.pending.pop();
        proof {
            if v.pending.len() > 0 {
                assert(seqs::views(self.pending@) =~= v.pending.drop_last());
            } else {
                assert(seqs::views(self.pending@) =~= v.pending);
            }
            assert(event::text_view(queued) == v.last_queued());
        }
        match EscAction::new(
            queued,
            self.state.busy,
            self.rewinding,
            self.transcript.last_user_text(),
        ) {
            EscAction::PopQueue(t) => {
                let ask = self.input.set_text(t.as_str());
                reaction(None, mention_lookup(ask))
            },
            EscAction::Cancel => reaction(Some(Command::Cancel), None),
            EscAction::Rewind(t) => {
                let ask = self.input.set_text(t.as_str());
                self.rewinding = true;
                reaction(Some(Command::Rewind), mention_lookup(ask))
            },
            EscAction::Ignore => reaction(None, None),
        }
    }

    fn perform(&mut self, result: KeyResult, ask: Option<Lookup>, now: u64) -> (r: Reaction)
        requires
            old(self).wf(),
        ensures
            final(self).wf(),
            final(self)@ == old(self)@.after_result(result@, now),
            r@ == old(self)@.result_reaction(result@, input::lookup_view(ask), now),
            r.outbox@.wf(),
    {
        match result {
            KeyResult::Ignored | KeyResult::Handled => reaction(None, ask),
            KeyResult::Action(Action::Quit) => {
                let send = if self.state.busy {
                    Some(Command::Cancel)
                } else {
                    None
                };
                Reaction { quit: true, send, outbox: no_outbox(), ask }
            },
            KeyResult::Action(Action::Cancel) => reaction(Some(Command::Cancel), ask),
            KeyResult::Action(Action::Queue(t)) => {
                self.pending.push(t);
                reaction(None, ask)
            },
            KeyResult::Action(Action::Submit(t)) => {
                let shown = display_user_input(t.as_str());
                self.transcript.push_user(shown.as_str());
                self.status.clear_reply();
                self.input.clear();
                self.state.busy = true;
                reaction(Some(Command::UserInput(t)), ask)
            },
            KeyResult::Action(Action::QuietSubmit(t)) => reaction(
                Some(Command::UserInput(t)),
                ask,
            ),
            KeyResult::Action(Action::Notify(t)) => {
                let outbox = self.notify(t, now);
                Reaction { quit: false, send: None, outbox, ask }
            },
        }
    }

    /// Reacts to a key press. Where a command could not be sent, `send_failed`
    /// says so.
    #[verifier::rlimit(40)]
    pub fn handle_key(&mut self, key: &KeyEvent, now: u64) -> (r: Reaction)
        requires
            old(self).wf(),
        ensures
            final(self).wf(),
            r.outbox@.wf(),
            old(self)@.is_own_key(*key) ==> final(self)@ == old(self)@.after_own_key(*key) && r@
                == old(self)@.own_reaction(*key),
            !old(self)@.is_own_key(*key) ==> match old(self)@.input.refreshed().key_step(
                *key,
                old(self)@.state.busy,
            ) {
                input::Step::Done(outcome) => {
                    let next = UiView { input: outcome.next, ..old(self)@ };
                    &&& final(self)@ == next.after_result(outcome.result, now)
                    &&& r@ == next.result_reaction(outcome.result, outcome.ask, now)
                },
                input::Step::Edit => {
                    let line = final(self)@.input;
                    let typed = input::InputData {
                        edit: line.edit,
                        ..old(self)@.input.refreshed()
                    };
                    &&& line.edit == composer::pressed(old(self)@.input.edit, *key)
                    &&& composer::pressed_evenly(old(self)@.input.edit, *key, line.edit)
                    &&& line == typed.refreshed()
                    &&& final(self)@ == (UiView { input: line, ..old(self)@ })
                    &&& r@ == asking(typed.asks())
                },
            },
    {
        let ghost v = self@;
        if key.code == KeyCode::Char('c') && key.modifiers.control {
            return self.perform(KeyResult::Action(Action::Quit), None, now);
        }
        if is_mode_toggle(*key) {
            self.state.mode = self.state.mode.toggle();
            return reaction(Some(Command::SetMode(self.state.mode)), None);
        }
        if key.code == KeyCode::Esc && self.input.overlay() == Overlay::Closed {
            return self.press_esc();
        }
        if key.code == KeyCode::Enter && self.rewinding && key.modifiers.is_empty() {
            return reaction(None, None);
        }
        match self.transcript.handle_key(key) {
            KeyResult::Ignored => {},
            _ => {
                return reaction(None, None);
            },
        }
        assert(self@ =~= v);
        let (result, ask) = self.input.handle_key(key, &self.state);
        let ghost mid = self@;
        assert(mid =~= (UiView { input: mid.input, ..v }));
        self.perform(result, ask, now)
    }

    /// Tells the input line the columns and rows that its text is painted in, and
    /// says where its cursor is painted.
    pub fn show_input(&mut self, width: u16, rows: u16) -> (cell: Option<(u16, u16)>)
        requires
            old(self).wf(),
        ensures
            final(self).wf(),
            cell == old(self)@.input.cell(width, rows),
            final(self)@ == (UiView { input: old(self)@.input.shown(width, rows), ..old(self)@ }),
    {
        self.input.show(width, rows)
    }

    /// The bands of the screen.
    pub fn regions(&mut self, area: Rect) -> (regions: Regions)
        requires
            old(self).wf(),
            area.x + area.width <= u16::MAX,
            area.y + area.height <= u16::MAX,
        ensures
            final(self).wf(),
            final(self)@ == old(self)@,
            regions == old(self)@.regions(area),
    {
        let input_h: u16 = self.input.height(area.width);
        let queue_h: u16 = self.queue.height(&self.pending);
        let todos_h: u16 = self.todos.height();
        let overlay_h: u16 = self.input.overlay_height();
        assert(self@ =~= old(self)@);
        layout::split(area, input_h, queue_h, todos_h, overlay_h)
    }
}

/// Esc takes the message that was queued last back into the input line, where it
/// can be read as it was.
pub proof fn esc_takes_back_the_last_message(v: UiView)
    requires
        v.pending.len() > 0,
    ensures
        v.after_esc().input.edit.text() == v.pending.last(),
        v.after_esc().pending == v.pending.drop_last(),
        v.after_esc().transcript == v.transcript,
        v.esc_reaction().send is None,
{
    input::set_text_reads_back(v.input, v.pending.last());
}

/// While a turn runs and nothing is queued, Esc asks for it to be cancelled and
/// changes nothing else.
pub proof fn esc_cancels_a_running_turn(v: UiView)
    requires
        v.pending.len() == 0,
        v.state.busy,
    ensures
        v.esc_reaction().send == Some(CommandView::Cancel),
        v.after_esc() == v,
{
}

/// While nothing runs and nothing is queued, Esc asks for the last exchange to
/// be rewound and restores its message in the input line.
pub proof fn esc_rewinds_the_last_exchange(v: UiView)
    requires
        v.pending.len() == 0,
        !v.state.busy,
        !v.rewinding,
        TranscriptView::last_prompt(v.transcript.rows) is Some,
    ensures
        v.esc_reaction().send == Some(CommandView::Rewind),
        Some(v.after_esc().input.edit.text()) == TranscriptView::last_prompt(v.transcript.rows),
        v.after_esc().rewinding,
{
    input::set_text_reads_back(
        v.input,
        TranscriptView::last_prompt(v.transcript.rows)->0,
    );
}

/// While a rewind is under way, Esc asks for no other one, and Enter submits
/// nothing.
pub proof fn one_rewind_at_a_time(v: UiView, key: KeyEvent)
    requires
        v.rewinding,
    ensures
        v.esc_reaction().send != Some(CommandView::Rewind),
        v.after_esc().rewinding,
        key.code is Enter && key.modifiers.is_empty() ==> v.is_own_key(key) && v.after_own_key(key)
            == v && v.own_reaction(key) == sending(None),
{
}

/// Ctrl-C quits whatever is open, and cancels a turn that runs.
pub proof fn control_c_quits(v: UiView, key: KeyEvent)
    requires
        key.code == KeyCode::Char('c'),
        key.modifiers.control,
    ensures
        v.is_own_key(key),
        v.own_reaction(key).quit,
        v.own_reaction(key).send == (if v.state.busy {
            Some(CommandView::Cancel)
        } else {
            None
        }),
        v.after_own_key(key) == v,
{
}

/// Shift-Tab switches to the other mode and tells the session; pressed again it
/// switches back.
pub proof fn shift_tab_toggles_the_mode(v: UiView, key: KeyEvent)
    requires
        key.code is Tab,
        key.modifiers.shift,
    ensures
        v.is_own_key(key),
        v.after_own_key(key).state.mode != v.state.mode,
        v.own_reaction(key).send == Some(
            CommandView::SetMode(v.after_own_key(key).state.mode),
        ),
        v.after_own_key(key).after_own_key(key) == v,
{
}

/// No queued message is lost when queued messages are sent: those that were not
/// sent wait again, before what was queued meanwhile.
pub proof fn no_queued_message_is_lost(v: UiView, oks: Seq<bool>)
    requires
        !v.state.busy,
        v.pending.len() > 0,
    ensures
        ({
            let o = outbox::after_attempts(v.pending, oks);
            v.flush() == outbox::unsent(v.pending) && v.pending.take(o.sent as int)
                + v.flushed().after_sending(o).pending == v.pending
        }),
        v.flushed().state.busy,
{
    let o = outbox::after_attempts(v.pending, oks);
    outbox::sending_keeps_the_order(v.pending, oks);
    assert(o.remaining() + Seq::<Seq<char>>::empty() =~= o.remaining());
    if o.sent == o.texts.len() {
        assert(o.remaining() =~= Seq::<Seq<char>>::empty());
    }
}

/// A submitted text reaches the session unchanged, and appears in the transcript
/// without its keys.
pub proof fn submissions_are_told(v: UiView, t: Seq<char>, now: u64)
    ensures
        ({
            let result = component::KeyResultView::Action(component::ActionView::Submit(t));
            &&& v.result_reaction(result, None, now).send == Some(CommandView::UserInput(t))
            &&& v.after_result(result, now).transcript == v.transcript.with_user(
                commands::shown_input(t),
            )
            &&& v.after_result(result, now).state.busy
        }),
{
}

} // verus!
