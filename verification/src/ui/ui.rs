//! The plain interface as a whole: what keys, the mouse and the session do to it.
use vstd::prelude::*;
use vstd::string::*;

use super::component::State;
use super::event::{AppEvent, Message};
use super::input;
use super::input::{InputView, Overlay};
use super::layout;
use super::layout::Regions;
use super::queue;
use super::queue::QueueWidget;
use super::status;
use super::status::StatusBar;
use super::transcript::kinds::LineKind;
use super::transcript::model;
use super::transcript::model::TranscriptView;
use super::transcript::widget::Transcript;
use crate::components::commands;
use crate::components::commands::display_user_input;
use crate::components::component;
use crate::components::component::{Action, KeyResult};
use crate::components::composer;
use crate::components::event::{text_view, ProviderConfig};
use crate::components::list;
use crate::components::outbox;
use crate::components::outbox::Outbox;
use crate::components::ui;
use crate::components::ui::{Command, EscAction};
use crate::keys::{KeyCode, KeyEvent, MouseEvent};
use crate::seqs;
use crate::style::Rect;

verus! {

broadcast use crate::seqs::views_push;

/// What a key press calls for: to quit, to tell the session something, to send
/// queued messages.
pub struct Reaction {
    pub quit: bool,
    pub send: Option<Command>,
    pub outbox: Outbox,
}

/// What a key press calls for.
#[verifier::ext_equal]
pub struct ReactionView {
    pub quit: bool,
    pub send: Option<ui::CommandView>,
    pub outbox: outbox::OutboxView,
}

impl View for Reaction {
    type V = ReactionView;

    open spec fn view(&self) -> ReactionView {
        ReactionView {
            quit: self.quit,
            send: ui::command_view(self.send),
            outbox: self.outbox@,
        }
    }
}

/// A reaction that sends one command at most.
pub open spec fn sending(send: Option<ui::CommandView>) -> ReactionView {
    ReactionView { quit: false, send, outbox: ui::nothing_to_send() }
}

/// The interface.
pub struct Ui {
    state: State,
    quit: bool,
    /// A rewind is under way: Esc is ignored until it is done, so that a second
    /// one cannot desync the transcript from the session.
    rewinding: bool,
    pending: Vec<String>,
    transcript: Transcript,
    status: StatusBar,
    input: InputView,
    queue: QueueWidget,
    spin: u8,
}

/// What the interface holds.
#[verifier::ext_equal]
pub struct UiView {
    pub state: State,
    pub quit: bool,
    pub rewinding: bool,
    pub pending: Seq<Seq<char>>,
    pub transcript: TranscriptView,
    pub status: status::StatusView,
    pub input: input::InputData,
    pub spin: u8,
}

impl View for Ui {
    type V = UiView;

    closed spec fn view(&self) -> UiView {
        UiView {
            state: self.state,
            quit: self.quit,
            rewinding: self.rewinding,
            pending: seqs::views(self.pending@),
            transcript: self.transcript@,
            status: self.status@,
            input: self.input@,
            spin: self.spin,
        }
    }
}

impl UiView {
    /// The interface once the session did not take a command.
    pub open spec fn after_failed_send(self, command: ui::CommandView) -> UiView {
        match command {
            ui::CommandView::UserInput(t) => if commands::is_quiet(t) {
                self
            } else {
                UiView { state: State { busy: false }, ..self }
            },
            ui::CommandView::Rewind => UiView { rewinding: false, ..self },
            ui::CommandView::Cancel | ui::CommandView::SetMode(_) => self,
        }
    }

    /// The interface once the queued messages are on their way, if it is idle.
    pub open spec fn flushed(self) -> UiView {
        if self.state.busy || self.pending.len() == 0 {
            self
        } else {
            UiView { state: State { busy: true }, pending: Seq::empty(), ..self }
        }
    }

    /// The queued messages that go on their way.
    pub open spec fn flush(self) -> outbox::OutboxView {
        if self.state.busy || self.pending.len() == 0 {
            ui::nothing_to_send()
        } else {
            outbox::unsent(self.pending)
        }
    }

    /// The interface after messages were sent: those that were not wait again.
    pub open spec fn after_sending(self, o: outbox::OutboxView) -> UiView {
        if o.sent < o.texts.len() {
            UiView {
                pending: o.remaining() + self.pending,
                state: State { busy: false },
                ..self
            }
        } else {
            self
        }
    }

    /// The interface after an event of the session, before queued messages go
    /// on their way.
    pub open spec fn noted(self, ev: AppEvent, now: u64) -> UiView {
        UiView {
            quit: self.quit || ev is Exit,
            state: State { busy: self.state.busy && !(ev is Idle) },
            transcript: self.transcript.after(ev),
            status: self.status.after_event(ev, now),
            input: self.input.after_event(ev),
            rewinding: self.rewinding && !(ev is Rewound),
            ..self
        }
    }

    /// The interface with a short reply, before queued messages go on their way.
    pub open spec fn notified(self, t: Seq<char>, now: u64) -> UiView {
        UiView { status: self.status.replied(t, now), ..self }
    }

    /// The interface after a tick of the clock: the spinner turns while the session
    /// is busy, and a reply goes once its time is over.
    pub open spec fn ticked(self, now: u64) -> UiView {
        UiView {
            spin: if !self.state.busy {
                self.spin
            } else if self.spin == u8::MAX {
                0
            } else {
                (self.spin + 1) as u8
            },
            status: self.status.expired(now),
            ..self
        }
    }

    /// Whether a tick of the clock may change anything.
    pub open spec fn is_moving(self) -> bool {
        self.state.busy || self.status.replies()
    }

    /// The interface with what a mouse event makes of the transcript.
    pub open spec fn moused(self, mouse: MouseEvent, clipboard: bool) -> UiView {
        UiView { transcript: self.transcript.after_mouse(mouse, clipboard), ..self }
    }

    /// The interface after a mouse event: a copy is told.
    pub open spec fn after_mouse(self, mouse: MouseEvent, now: u64, clipboard: bool) -> UiView {
        let next = self.moused(mouse, clipboard);
        match self.transcript.mouse_answer(mouse, clipboard) {
            component::KeyResultView::Action(component::ActionView::Notify(t)) => next.notified(
                t,
                now,
            ).flushed(),
            _ => next,
        }
    }

    /// The queued messages that go on their way with a mouse event.
    pub open spec fn mouse_outbox(
        self,
        mouse: MouseEvent,
        now: u64,
        clipboard: bool,
    ) -> outbox::OutboxView {
        match self.transcript.mouse_answer(mouse, clipboard) {
            component::KeyResultView::Action(component::ActionView::Notify(t)) => self.moused(
                mouse,
                clipboard,
            ).notified(t, now).flush(),
            _ => ui::nothing_to_send(),
        }
    }

    /// The message that Esc would take back.
    pub open spec fn last_queued(self) -> Option<Seq<char>> {
        if self.pending.len() > 0 {
            Some(self.pending.last())
        } else {
            None
        }
    }

    /// What Esc does.
    pub open spec fn esc(self) -> ui::EscView {
        ui::esc_choice(
            self.last_queued(),
            self.state.busy,
            self.rewinding,
            model::last_prompt(self.transcript.rows),
        )
    }

    /// The transcript without the message that was queued last.
    pub open spec fn unqueued(self) -> TranscriptView {
        if self.transcript.pending_user.len() > 0 {
            TranscriptView {
                pending_user: self.transcript.pending_user.drop_last(),
                ..self.transcript
            }
        } else {
            self.transcript
        }
    }

    /// The interface after Esc.
    pub open spec fn after_esc(self) -> UiView {
        match self.esc() {
            ui::EscView::PopQueue(t) => UiView {
                pending: self.pending.drop_last(),
                transcript: self.unqueued(),
                input: self.input.with_text(t),
                ..self
            },
            ui::EscView::Rewind(t) => UiView {
                input: self.input.with_text(t),
                rewinding: true,
                ..self
            },
            _ => self,
        }
    }

    /// What Esc calls for.
    pub open spec fn esc_reaction(self) -> ReactionView {
        match self.esc() {
            ui::EscView::Cancel => sending(Some(ui::CommandView::Cancel)),
            ui::EscView::Rewind(_) => sending(Some(ui::CommandView::Rewind)),
            _ => sending(None),
        }
    }

    /// The interface after a widget asked for something.
    pub open spec fn after_result(self, result: component::KeyResultView, now: u64) -> UiView {
        match result {
            component::KeyResultView::Action(component::ActionView::Queue(t)) => UiView {
                pending: self.pending.push(t),
                transcript: TranscriptView {
                    pending_user: self.transcript.pending_user.push(commands::shown_input(t)),
                    ..self.transcript
                },
                ..self
            },
            component::KeyResultView::Action(component::ActionView::Submit(t)) => UiView {
                transcript: self.transcript.with_row(LineKind::User, commands::shown_input(t)),
                status: self.status.unreplied(),
                input: self.input.cleared(),
                state: State { busy: true },
                ..self
            },
            component::KeyResultView::Action(component::ActionView::Notify(t)) => self.notified(
                t,
                now,
            ).flushed(),
            _ => self,
        }
    }

    /// What is called for after a widget asked for something.
    pub open spec fn result_reaction(self, result: component::KeyResultView, now: u64) ->
        ReactionView {
        match result {
            component::KeyResultView::Action(action) => match action {
                component::ActionView::Quit => ReactionView {
                    quit: true,
                    send: if self.state.busy {
                        Some(ui::CommandView::Cancel)
                    } else {
                        None
                    },
                    outbox: ui::nothing_to_send(),
                },
                component::ActionView::Cancel => sending(Some(ui::CommandView::Cancel)),
                component::ActionView::Queue(_) => sending(None),
                component::ActionView::Submit(t) | component::ActionView::QuietSubmit(t) =>
                    sending(Some(ui::CommandView::UserInput(t))),
                component::ActionView::Notify(t) => ReactionView {
                    outbox: self.notified(t, now).flush(),
                    ..sending(None)
                },
            },
            _ => sending(None),
        }
    }

    /// Whether a key gets no further than the interface itself.
    pub open spec fn is_own_key(self, key: KeyEvent) -> bool {
        ||| key.code == KeyCode::Char('c') && key.modifiers.control
        ||| key.code is Esc && self.input.overlay() is Closed
        ||| key.code is Enter && self.rewinding && key.modifiers.is_empty()
        ||| key.code is PageUp
        ||| key.code is PageDown
    }

    /// The interface after one of its own keys.
    pub open spec fn after_own_key(self, key: KeyEvent) -> UiView {
        if key.code is Esc {
            self.after_esc()
        } else if key.code is PageUp {
            UiView { transcript: self.transcript.scrolled_up(1), ..self }
        } else if key.code is PageDown {
            UiView { transcript: self.transcript.scrolled_down(1), ..self }
        } else {
            self
        }
    }

    /// What one of the interface's own keys calls for.
    pub open spec fn own_reaction(self, key: KeyEvent) -> ReactionView {
        if key.code == KeyCode::Char('c') && key.modifiers.control {
            ReactionView {
                quit: true,
                send: if self.state.busy {
                    Some(ui::CommandView::Cancel)
                } else {
                    None
                },
                outbox: ui::nothing_to_send(),
            }
        } else if key.code is Esc {
            self.esc_reaction()
        } else {
            sending(None)
        }
    }

    /// The bands of the screen.
    pub open spec fn regions(self, area: Rect) -> Regions {
        layout::arranged(
            area,
            layout::granted(
                area.height,
                self.status.reply_rows(area.width) as u16,
                input::input_rows(self.input.edit.lines, area.width),
                queue::queue_rows(self.pending.len()) as u16,
                self.input.overlay_rows() as u16,
            ),
        )
    }
}

/// What a key that is not the interface's own does: what the input line makes of
/// it, or what the editor does with it.
#[verifier::opaque]
pub open spec fn typed_key(
    v: UiView,
    key: KeyEvent,
    now: u64,
    after: UiView,
    r: ReactionView,
) -> bool {
    match v.input.refreshed().key_step(key, v.state.busy) {
        input::Step::Done(outcome) => {
            let next = UiView { input: outcome.next, ..v };
            &&& after == next.after_result(outcome.result, now)
            &&& r == next.result_reaction(outcome.result, now)
        },
        input::Step::Edit => {
            let line = after.input;
            let typed = input::InputData { edit: line.edit, ..v.input.refreshed() };
            &&& line.edit == composer::pressed(v.input.edit, key)
            &&& composer::pressed_evenly(v.input.edit, key, line.edit)
            &&& line == typed.refreshed()
            &&& after == (UiView { input: line, ..v })
            &&& r == sending(None)
        },
    }
}

fn no_outbox() -> (o: Outbox)
    ensures
        o@ == ui::nothing_to_send(),
        o@.wf(),
{
    let none: Vec<String> = Vec::new();
    assert(seqs::views(none@) =~= Seq::<Seq<char>>::empty());
    Outbox::new(none)
}

fn reaction(send: Option<Command>) -> (r: Reaction)
    ensures
        r@ == sending(ui::command_view(send)),
        r.outbox@.wf(),
{
    Reaction { quit: false, send, outbox: no_outbox() }
}

impl Ui {
    /// Whether the parts of the interface are valid.
    pub closed spec fn wf(&self) -> bool {
        self.input.wf()
    }

    /// The interface of a session. With `needs_setup`, the setup wizard is open.
    pub fn new(
        commands: Vec<(String, String)>,
        provider: ProviderConfig,
        needs_setup: bool,
        status: StatusBar,
    ) -> (ui: Self)
        ensures
            ui.wf(),
            ui@.state == State::new(),
            !ui@.quit,
            !ui@.rewinding,
            ui@.spin == 0,
            ui@.pending == Seq::<Seq<char>>::empty(),
            ui@.transcript == model::fresh_transcript(),
            ui@.transcript.is_current(),
            ui@.status == status@,
            ui@.input == ({
                let fresh = input::fresh_input(list::pair_views(commands@), provider@);
                if needs_setup {
                    (input::InputData { setup: fresh.setup.opened(), ..fresh }).with_text(
                        "/setup "@,
                    )
                } else {
                    fresh
                }
            }),
    {
        let mut line = InputView::new(commands, provider);
        if needs_setup {
            line.open_setup();
        }
        let pending: Vec<String> = Vec::new();
        assert(seqs::views(pending@) =~= Seq::<Seq<char>>::empty());
        Ui {
            state: State::new(),
            quit: false,
            rewinding: false,
            pending,
            transcript: Transcript::new(),
            status,
            input: line,
            queue: QueueWidget::new(),
            spin: 0,
        }
    }

    /// What the widgets share.
    pub fn state(&self) -> (s: State)
        ensures
            s == self@.state,
    {
        self.state
    }

    /// Whether the session has ended.
    pub fn has_quit(&self) -> (yes: bool)
        ensures
            yes == self@.quit,
    {
        self.quit
    }

    /// How far the spinner turned.
    pub fn spin(&self) -> (n: u8)
        ensures
            n == self@.spin,
    {
        self.spin
    }

    /// The transcript.
    pub fn transcript(&self) -> (t: &Transcript)
        ensures
            t@ == self@.transcript,
    {
        &self.transcript
    }

    /// The status row.
    pub fn status(&self) -> (s: &StatusBar)
        ensures
            s@ == self@.status,
    {
        &self.status
    }

    /// The input line.
    pub fn input(&self) -> (i: &InputView)
        ensures
            i@ == self@.input,
            self.wf() ==> i.wf(),
    {
        &self.input
    }

    /// The queued messages.
    pub fn pending(&self) -> (p: &Vec<String>)
        ensures
            seqs::views(p@) == self@.pending,
    {
        &self.pending
    }

    /// The widget of queued messages.
    pub fn queue(&self) -> (q: &QueueWidget) {
        &self.queue
    }

    /// Fills the transcript from the history of the session.
    pub fn load_transcript(&mut self, messages: &Vec<Message>)
        requires
            old(self).wf(),
        ensures
            final(self).wf(),
            final(self)@ == (UiView {
                transcript: old(self)@.transcript.seeded(messages@),
                ..old(self)@
            }),
    {
        self.transcript.seed(messages);
    }

    /// Lays the transcript out for its band of the screen.
    pub fn lay_out(&mut self, area: Rect)
        requires
            old(self).wf(),
        ensures
            final(self).wf(),
            final(self)@ == (UiView {
                transcript: old(self)@.transcript.laid_out(area),
                ..old(self)@
            }),
    {
        self.transcript.lay_out(area);
    }

    /// Takes a tick of the clock: the spinner turns while the session is busy,
    /// and a reply goes once its time is over.
    pub fn tick(&mut self, now: u64)
        requires
            old(self).wf(),
        ensures
            final(self).wf(),
            final(self)@ == old(self)@.ticked(now),
    {
        if self.state.busy {
            self.spin = if self.spin == u8::MAX {
                0
            } else {
                self.spin + 1
            };
        }
        let _ = self.status.expire_reply(now);
    }

    /// Whether the clock matters.
    pub fn wants_tick(&self) -> (yes: bool)
        ensures
            yes == self@.is_moving(),
    {
        self.state.busy || self.status.has_reply()
    }

    /// Notes that nothing is under way any more: a submission failed, or the
    /// session is gone.
    pub fn set_idle(&mut self)
        requires
            old(self).wf(),
        ensures
            final(self).wf(),
            final(self)@ == (UiView { state: State { busy: false }, ..old(self)@ }),
    {
        self.state.busy = false;
    }

    /// Notes that the session did not take a command: a submission is not under
    /// way, nor a rewind.
    pub fn send_failed(&mut self, command: &Command)
        requires
            old(self).wf(),
        ensures
            final(self).wf(),
            final(self)@ == old(self)@.after_failed_send(command@),
    {
        match command {
            Command::UserInput(t) => {
                if !commands::is_model_or_setup(t.as_str()) {
                    self.set_idle();
                }
            },
            Command::Rewind => {
                self.rewind_failed();
            },
            Command::Cancel | Command::SetMode(_) => {},
        }
    }

    /// Notes that a rewind could not be asked for.
    pub fn rewind_failed(&mut self)
        requires
            old(self).wf(),
        ensures
            final(self).wf(),
            final(self)@ == (UiView { rewinding: false, ..old(self)@ }),
    {
        self.rewinding = false;
    }

    /// Takes pasted text.
    pub fn paste(&mut self, t: &str)
        requires
            old(self).wf(),
        ensures
            final(self).wf(),
            final(self)@ == (UiView { input: old(self)@.input.pasted(t@), ..old(self)@ }),
    {
        self.input.paste(t);
    }

    /// Sends queued messages on their way, each as its own turn, once the
    /// session is idle.
    pub fn maybe_flush(&mut self) -> (o: Outbox)
        requires
            old(self).wf(),
        ensures
            final(self).wf(),
            final(self)@ == old(self)@.flushed(),
            o@ == old(self)@.flush(),
            o@.wf(),
    {
        if self.state.busy || self.pending.len() == 0 {
            return no_outbox();
        }
        let mut texts: Vec<String> = Vec::new();
        std::mem::swap(&mut texts, &mut self.pending);
        self.state.busy = true;
        assert(seqs::views(self.pending@) =~= Seq::<Seq<char>>::empty());
        assert(self@ =~= old(self)@.flushed());
        Outbox::new(texts)
    }

    /// Notes what became of messages on their way: those that were not sent wait
    /// again.
    pub fn flush_done(&mut self, o: &Outbox)
        requires
            old(self).wf(),
            o@.wf(),
        ensures
            final(self).wf(),
            final(self)@ == old(self)@.after_sending(o@),
    {
        let mut rest = o.remaining();
        if rest.len() > 0 {
            let ghost a = rest@;
            let ghost b = self.pending@;
            rest.append(&mut self.pending);
            assert(seqs::views(a + b) =~= seqs::views(a) + seqs::views(b));
            self.pending = rest;
            self.state.busy = false;
        }
        assert(self@ =~= old(self)@.after_sending(o@));
    }

    /// Takes an event of the session.
    pub fn apply_event(&mut self, ev: &AppEvent, now: u64) -> (o: Outbox)
        requires
            old(self).wf(),
        ensures
            final(self).wf(),
            final(self)@ == old(self)@.noted(*ev, now).flushed(),
            o@ == old(self)@.noted(*ev, now).flush(),
            o@.wf(),
    {
        match ev {
            AppEvent::Exit => {
                self.quit = true;
            },
            AppEvent::Rewound { .. } => {
                self.rewinding = false;
            },
            _ => {},
        }
        self.transcript.on_event(ev);
        self.status.on_event(ev, &mut self.state, now);
        self.input.on_event(ev);
        assert(self@ =~= old(self)@.noted(*ev, now));
        self.maybe_flush()
    }

    fn notify(&mut self, t: String, now: u64) -> (o: Outbox)
        requires
            old(self).wf(),
        ensures
            final(self).wf(),
            final(self)@ == old(self)@.notified(t@, now).flushed(),
            o@ == old(self)@.notified(t@, now).flush(),
            o@.wf(),
    {
        let ev = AppEvent::Notify { text: t };
        assert(old(self)@.noted(ev, now) =~= old(self)@.notified(t@, now));
        self.apply_event(&ev, now)
    }

    /// Takes a mouse event; `clipboard` says whether the clipboard took what
    /// `copy_request` gave for it.
    pub fn handle_mouse(&mut self, mouse: &MouseEvent, now: u64, clipboard: bool) -> (o: Outbox)
        requires
            old(self).wf(),
        ensures
            final(self).wf(),
            final(self)@ == old(self)@.after_mouse(*mouse, now, clipboard),
            o@ == old(self)@.mouse_outbox(*mouse, now, clipboard),
            o@.wf(),
    {
        match self.transcript.handle_mouse(mouse, clipboard) {
            KeyResult::Action(Action::Notify(t)) => self.notify(t, now),
            _ => no_outbox(),
        }
    }

    /// The text that a mouse event wants copied.
    pub fn copy_request(&mut self, mouse: &MouseEvent) -> (t: Option<String>)
        requires
            old(self).wf(),
        ensures
            final(self).wf(),
            final(self)@ == (UiView {
                transcript: old(self)@.transcript.before_copy(*mouse),
                ..old(self)@
            }),
            text_view(t) == old(self)@.transcript.wanted_copy(*mouse),
    {
        self.transcript.copy_request(mouse)
    }

    fn press_esc(&mut self) -> (r: Reaction)
        requires
            old(self).wf(),
        ensures
            final(self).wf(),
            final(self)@ == old(self)@.after_esc(),
            r@ == old(self)@.esc_reaction(),
            r.outbox@.wf(),
    {
        let ghost v = self@;
        let queued = self.pending.pop();
        proof {
            if v.pending.len() > 0 {
                assert(seqs::views(self.pending@) =~= v.pending.drop_last());
            } else {
                assert(seqs::views(self.pending@) =~= v.pending);
            }
            assert(text_view(queued) == v.last_queued());
        }
        match EscAction::new(
            queued,
            self.state.busy,
            self.rewinding,
            self.transcript.last_user_text(),
        ) {
            EscAction::PopQueue(t) => {
                let _ = self.transcript.pop_pending_user();
                self.input.set_text(t.as_str());
                reaction(None)
            },
            EscAction::Cancel => reaction(Some(Command::Cancel)),
            EscAction::Rewind(t) => {
                self.input.set_text(t.as_str());
                self.rewinding = true;
                reaction(Some(Command::Rewind))
            },
            EscAction::Ignore => reaction(None),
        }
    }

    fn perform(&mut self, result: KeyResult, now: u64) -> (r: Reaction)
        requires
            old(self).wf(),
        ensures
            final(self).wf(),
            final(self)@ == old(self)@.after_result(result@, now),
            r@ == old(self)@.result_reaction(result@, now),
            r.outbox@.wf(),
    {
        match result {
            KeyResult::Ignored | KeyResult::Handled => reaction(None),
            KeyResult::Action(Action::Quit) => {
                let send = if self.state.busy {
                    Some(Command::Cancel)
                } else {
                    None
                };
                Reaction { quit: true, send, outbox: no_outbox() }
            },
            KeyResult::Action(Action::Cancel) => reaction(Some(Command::Cancel)),
            KeyResult::Action(Action::Queue(t)) => {
                let shown = display_user_input(t.as_str());
                self.transcript.push_user_queued(shown.as_str());
                self.pending.push(t);
                reaction(None)
            },
            KeyResult::Action(Action::Submit(t)) => {
                let shown = display_user_input(t.as_str());
                self.transcript.push_user(shown.as_str());
                self.status.clear_reply();
                self.input.clear();
                self.state.busy = true;
                reaction(Some(Command::UserInput(t)))
            },
            KeyResult::Action(Action::QuietSubmit(t)) => reaction(Some(Command::UserInput(t))),
            KeyResult::Action(Action::Notify(t)) => {
                let outbox = self.notify(t, now);
                Reaction { quit: false, send: None, outbox }
            },
        }
    }

    fn type_key(&mut self, key: &KeyEvent, now: u64) -> (r: Reaction)
        requires
            old(self).wf(),
        ensures
            final(self).wf(),
            r.outbox@.wf(),
            typed_key(old(self)@, *key, now, final(self)@, r@),
    {
        reveal(typed_key);
        let ghost v = self@;
        let result = self.input.handle_key(key, &self.state);
        let ghost mid = self@;
        assert(mid =~= (UiView { input: mid.input, ..v }));
        self.perform(result, now)
    }

    /// Reacts to a key press. Where a command could not be sent, `send_failed`
    /// says so.
    #[verifier::rlimit(40)]
    pub fn handle_key(&mut self, key: &KeyEvent, now: u64) -> (r: Reaction)
        requires
            old(self).wf(),
        ensures
            final(self).wf(),
            r.outbox@.wf(),
            old(self)@.is_own_key(*key) ==> final(self)@ == old(self)@.after_own_key(*key) && r@
                == old(self)@.own_reaction(*key),
            !old(self)@.is_own_key(*key) ==> typed_key(
                old(self)@,
                *key,
                now,
                final(self)@,
                r@,
            ),
    {
        let ghost v = self@;
        if key.code == KeyCode::Char('c') && key.modifiers.control {
            return self.perform(KeyResult::Action(Action::Quit), now);
        }
        if key.code == KeyCode::Esc && self.input.overlay() == Overlay::Closed {
            return self.press_esc();
        }
        if key.code == KeyCode::Enter && self.rewinding && key.modifiers.is_empty() {
            return reaction(None);
        }
        match self.transcript.handle_key(key) {
            KeyResult::Ignored => {},
            _ => {
                return reaction(None);
            },
        }
        assert(self@ =~= v);
        self.type_key(key, now)
    }

    /// Tells the input line the columns and rows that its text is painted in, and
    /// says where its cursor is painted.
    pub fn show_input(&mut self, width: u16, rows: u16) -> (cell: Option<(u16, u16)>)
        requires
            old(self).wf(),
        ensures
            final(self).wf(),
            cell == old(self)@.input.cell(width, rows),
            final(self)@ == (UiView { input: old(self)@.input.shown(width, rows), ..old(self)@ }),
    {
        self.input.show(width, rows)
    }

    /// The bands of the screen.
    pub fn regions(&mut self, area: Rect) -> (regions: Regions)
        requires
            old(self).wf(),
            area.x + area.width <= u16::MAX,
            area.y + area.height <= u16::MAX,
        ensures
            final(self).wf(),
            final(self)@ == old(self)@,
            regions == old(self)@.regions(area),
    {
        let reply_h: u16 = self.status.reply_height(area.width);
        let input_h: u16 = self.input.height(area.width);
        let queue_h: u16 = self.queue.height(&self.pending);
        let popup_h: u16 = self.input.overlay_height();
        assert(self@ =~= old(self)@);
        layout::split(area, reply_h, input_h, queue_h, popup_h)
    }
}

/// Esc takes the message that was queued last back into the input line, where it
/// can be read as it was, and it will not appear in the transcript.
pub proof fn esc_takes_back_the_last_message(v: UiView)
    requires
        v.pending.len() > 0,
        v.transcript.pending_user.len() > 0,
    ensures
        v.after_esc().input.edit.text() == v.pending.last(),
        v.after_esc().pending == v.pending.drop_last(),
        v.after_esc().transcript.pending_user == v.transcript.pending_user.drop_last(),
        v.after_esc().transcript.rows == v.transcript.rows,
        v.esc_reaction().send is None,
{
    input::set_text_reads_back(v.input, v.pending.last());
}

/// While a turn runs and nothing is queued, Esc asks for it to be cancelled and
/// changes nothing else.
pub proof fn esc_cancels_a_running_turn(v: UiView)
    requires
        v.pending.len() == 0,
        v.state.busy,
    ensures
        v.esc_reaction().send == Some(ui::CommandView::Cancel),
        v.after_esc() == v,
{
}

/// While nothing runs and nothing is queued, Esc asks for the last exchange to
/// be rewound and restores its message in the input line.
pub proof fn esc_rewinds_the_last_exchange(v: UiView)
    requires
        v.pending.len() == 0,
        !v.state.busy,
        !v.rewinding,
        model::last_prompt(v.transcript.rows) is Some,
    ensures
        v.esc_reaction().send == Some(ui::CommandView::Rewind),
        Some(v.after_esc().input.edit.text()) == model::last_prompt(v.transcript.rows),
        v.after_esc().rewinding,
{
    input::set_text_reads_back(v.input, model::last_prompt(v.transcript.rows)->0);
}

/// While a rewind is under way, Esc asks for no other one, and Enter submits
/// nothing.
pub proof fn one_rewind_at_a_time(v: UiView, key: KeyEvent)
    requires
        v.rewinding,
    ensures
        v.esc_reaction().send != Some(ui::CommandView::Rewind),
        v.after_esc().rewinding,
        key.code is Enter && key.modifiers.is_empty() ==> v.is_own_key(key) && v.after_own_key(key)
            == v && v.own_reaction(key) == sending(None),
{
}

/// Ctrl-C quits whatever is open, and cancels a turn that runs.
pub proof fn control_c_quits(v: UiView, key: KeyEvent)
    requires
        key.code == KeyCode::Char('c'),
        key.modifiers.control,
    ensures
        v.is_own_key(key),
        v.own_reaction(key).quit,
        v.own_reaction(key).send == (if v.state.busy {
            Some(ui::CommandView::Cancel)
        } else {
            None
        }),
        v.after_own_key(key) == v,
{
}

/// No queued message is lost when queued messages are sent: those that were not
/// sent wait again, before what was queued meanwhile.
pub proof fn no_queued_message_is_lost(v: UiView, oks: Seq<bool>)
    requires
        !v.state.busy,
        v.pending.len() > 0,
    ensures
        ({
            let o = outbox::after_attempts(v.pending, oks);
            v.flush() == outbox::unsent(v.pending) && v.pending.take(o.sent as int)
                + v.flushed().after_sending(o).pending == v.pending
        }),
        v.flushed().state.busy,
{
    let o = outbox::after_attempts(v.pending, oks);
    outbox::sending_keeps_the_order(v.pending, oks);
    assert(o.remaining() + Seq::<Seq<char>>::empty() =~= o.remaining());
    if o.sent == o.texts.len() {
        assert(o.remaining() =~= Seq::<Seq<char>>::empty());
    }
}

/// A message that is queued waits in both places: to be sent, and to be shown
/// without its keys.
pub proof fn queued_messages_are_shown(v: UiView, t: Seq<char>, now: u64)
    ensures
        ({
            let result = component::KeyResultView::Action(component::ActionView::Queue(t));
            let next = v.after_result(result, now);
            &&& next.pending == v.pending.push(t)
            &&& next.transcript.pending_user == v.transcript.pending_user.push(
                commands::shown_input(t),
            )
            &&& v.result_reaction(result, now) == sending(None)
        }),
{
}

} // verus!
