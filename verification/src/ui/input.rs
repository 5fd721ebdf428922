//! The plain input line with its popups.
use vstd::prelude::*;
use vstd::string::*;

use super::component::State;
use super::event::AppEvent;
use super::setup_wizard;
use super::setup_wizard::{SetupWizard, SetupWizardAction};
use crate::components::commands;
use crate::components::commands::{model_filter_from, setup_opens, submit_command};
use crate::components::component;
use crate::components::component::{Action, KeyResult};
use crate::components::composer;
use crate::components::composer::Composer;
use crate::components::event::{ProviderConfig, ProviderView};
use crate::components::input::PROMPT_COLS;
use crate::components::list;
use crate::components::model_picker;
use crate::components::model_picker::{ModelPicker, ModelPickerAction};
use crate::components::slash_command_popup;
use crate::components::slash_command_popup::{SlashCommandPopup, SlashCommandPopupAction};
use crate::keys::{KeyCode, KeyEvent};
use crate::seqs;
use crate::style::Line;
use crate::style;
use crate::text;
use crate::width;

verus! {

/// What stands below the input line.
#[derive(Clone, Copy, Debug, PartialEq, Eq, Structural)]
pub enum Overlay {
    Closed,
    Slash,
    Model,
    Setup,
}

/// The column that the cursor stands in behind a masked key of `n` characters.
pub open spec fn mask_column(n: nat, cols: u16) -> u16 {
    let last = if cols == 0 {
        0u16
    } else {
        (cols - 1) as u16
    };
    if n % 65536 <= last {
        (n % 65536) as u16
    } else {
        last
    }
}

/// The column that the cursor stands in behind a masked key, in a line of some
/// columns.
pub fn mask_cursor(mask: &str, cols: u16) -> (col: u16)
    ensures
        col == mask_column(mask@.len(), cols),
{
    let cs = text::chars_of(mask);
    let n: u16 = (cs.len() % 65536) as u16;
    let last: u16 = cols.saturating_sub(1);
    if n <= last {
        n
    } else {
        last
    }
}

/// Rows of the input line at a width.
pub open spec fn input_rows(lines: Seq<Seq<char>>, width: u16) -> u16 {
    composer::composer_rows(
        lines,
        if width < PROMPT_COLS {
            0
        } else {
            (width - PROMPT_COLS) as u16
        },
    )
}

/// The input line with its popups.
pub struct InputView {
    composer: Composer,
    slash_command: SlashCommandPopup,
    model_picker: ModelPicker,
    setup: SetupWizard,
}

/// What the input line holds.
#[verifier::ext_equal]
pub struct InputData {
    pub edit: composer::EditView,
    pub slash: slash_command_popup::SlashView,
    pub picker: model_picker::PickerView,
    pub setup: setup_wizard::SetupView,
}

impl View for InputView {
    type V = InputData;

    closed spec fn view(&self) -> InputData {
        InputData {
            edit: self.composer@,
            slash: self.slash_command@,
            picker: self.model_picker@,
            setup: self.setup@,
        }
    }
}

/// What became of a key press.
#[verifier::ext_equal]
pub struct Outcome {
    pub next: InputData,
    pub result: component::KeyResultView,
}

/// What a key press comes to: what the popups and Enter make of it, or a key
/// for the editor.
pub enum Step {
    Done(Outcome),
    Edit,
}

impl InputData {
    /// The slash popup brought up to date with the text.
    pub open spec fn refreshed(self) -> InputData {
        InputData { slash: self.slash.refreshed(self.edit.text()), ..self }
    }

    /// The input line with its text painted in some columns and rows; a text
    /// with too many rows to count stays as it was shown before.
    pub open spec fn shown(self, width: u16, rows: u16) -> InputData {
        if self.edit.fits(width, rows) {
            InputData { edit: self.edit.shown(width, rows), ..self }
        } else {
            self
        }
    }

    /// Where the cursor is painted in some columns and rows.
    pub open spec fn cell(self, width: u16, rows: u16) -> Option<(u16, u16)> {
        if self.edit.fits(width, rows) {
            self.edit.cell(width, rows)
        } else {
            None
        }
    }

    /// The input line with nothing in it and no popup open.
    pub open spec fn cleared(self) -> InputData {
        InputData {
            edit: composer::empty_edit(),
            slash: self.slash.closed_popup(),
            picker: self.picker.closed_picker(),
            setup: setup_wizard::fresh_setup(self.setup.current),
        }
    }

    /// The input line with other lines, the cursor at a position.
    pub open spec fn with_lines(self, lines: Seq<Seq<char>>, row: nat, col: nat) -> InputData {
        InputData { edit: self.edit.placed(lines, row, col), ..self }.refreshed()
    }

    /// The input line with another text in it, the cursor in its last line at
    /// the column that is the line's display width.
    pub open spec fn with_text(self, t: Seq<char>) -> InputData {
        let lines = text::split_on(t, '\n');
        self.with_lines(lines, (lines.len() - 1) as nat, width::cols(lines.last()) as nat)
    }

    /// The outcome of a key press.
    pub open spec fn done(self, result: component::KeyResultView) -> Outcome {
        Outcome { next: self, result }
    }

    /// What the wizard makes of a key press.
    pub open spec fn setup_step(self, key: KeyEvent) -> Outcome {
        let next = InputData { setup: self.setup.after_key(key), ..self };
        match self.setup.answer(key) {
            setup_wizard::SetupActionView::Handled => next.done(component::KeyResultView::Handled),
            setup_wizard::SetupActionView::Submit(t) => next.cleared().done(
                commands::submission(t),
            ),
            setup_wizard::SetupActionView::Close => next.with_text("/setup"@).done(
                component::KeyResultView::Handled,
            ),
        }
    }

    /// What the model picker makes of a key press.
    pub open spec fn picker_step(self, key: KeyEvent) -> Outcome {
        let next = InputData { picker: self.picker.after_key(key), ..self };
        match self.picker.answer(key) {
            model_picker::PickerActionView::Handled => next.done(component::KeyResultView::Handled),
            model_picker::PickerActionView::Submit(t) => next.cleared().done(
                commands::submission(t),
            ),
            model_picker::PickerActionView::Close => next.with_text("/model"@).done(
                component::KeyResultView::Handled,
            ),
        }
    }

    /// What submitting a typed-out command does: `/setup` opens the wizard,
    /// `/model` with at most one argument the picker, anything else is
    /// submitted.
    pub open spec fn command_step(self, t: Seq<char>) -> Outcome {
        if commands::opens_setup(t) {
            InputData { setup: self.setup.opened(), ..self }.with_text("/setup "@).done(
                component::KeyResultView::Action(component::ActionView::QuietSubmit(t)),
            )
        } else {
            match commands::picker_filter(t) {
                Some(filter) => InputData {
                    picker: self.picker.opened(filter),
                    ..self
                }.with_text("/model "@).done(
                    if filter.len() == 0 {
                        component::KeyResultView::Action(component::ActionView::QuietSubmit(t))
                    } else {
                        component::KeyResultView::Handled
                    },
                ),
                None => self.cleared().done(commands::submission(t)),
            }
        }
    }

    /// What the slash popup makes of a key press.
    pub open spec fn slash_step(
        self,
        key: KeyEvent,
        action: slash_command_popup::SlashActionView,
    ) -> Outcome {
        let next = InputData { slash: self.slash.after_key(key), ..self };
        match action {
            slash_command_popup::SlashActionView::Handled => next.done(
                component::KeyResultView::Handled,
            ),
            slash_command_popup::SlashActionView::Fill(t) => next.with_text(t).done(
                component::KeyResultView::Handled,
            ),
            slash_command_popup::SlashActionView::Submit(t) => next.command_step(t),
        }
    }

    /// What Enter does to the text: a busy session queues it, unless it is a
    /// quiet command.
    pub open spec fn enter_step(self, busy: bool) -> Outcome {
        let t = text::trimmed(self.edit.text());
        if t.len() == 0 {
            self.done(component::KeyResultView::Handled)
        } else if busy && !commands::is_quiet(t) {
            self.cleared().done(
                component::KeyResultView::Action(component::ActionView::Queue(t)),
            )
        } else {
            self.cleared().done(commands::submission(t))
        }
    }

    /// What a key press comes to, once the slash popup is up to date.
    pub open spec fn key_step(self, key: KeyEvent, busy: bool) -> Step {
        if self.setup.open {
            Step::Done(self.setup_step(key))
        } else if self.picker.open {
            Step::Done(self.picker_step(key))
        } else if self.slash.open && self.slash.answer(key) is Some {
            Step::Done(self.slash_step(key, self.slash.answer(key)->0))
        } else if key.code is Enter && key.modifiers.alt {
            Step::Done(
                InputData { edit: self.edit.broken(), ..self }.done(
                    component::KeyResultView::Handled,
                ),
            )
        } else if key.code is Enter {
            Step::Done(self.enter_step(busy))
        } else {
            Step::Edit
        }
    }

    /// What stands below the input line.
    pub open spec fn overlay(self) -> Overlay {
        if self.setup.open {
            Overlay::Setup
        } else if self.picker.open {
            Overlay::Model
        } else if self.slash.open {
            Overlay::Slash
        } else {
            Overlay::Closed
        }
    }

    /// Rows of what stands below the input line.
    pub open spec fn overlay_rows(self) -> nat {
        match self.overlay() {
            Overlay::Closed => 0,
            Overlay::Setup => self.setup.rows(),
            Overlay::Model => self.picker.rows(),
            Overlay::Slash => list::bounded(self.slash.matches().len()),
        }
    }

    /// The lines of what stands below the input line.
    pub open spec fn overlay_drawn(self) -> Seq<Seq<style::SpanView>> {
        match self.overlay() {
            Overlay::Closed => Seq::empty(),
            Overlay::Setup => self.setup.drawn(),
            Overlay::Model => self.picker.drawn(),
            Overlay::Slash => self.slash.drawn(),
        }
    }

    /// The input line after a paste.
    pub open spec fn pasted(self, t: Seq<char>) -> InputData {
        if self.setup.open {
            InputData { setup: self.setup.pasted(t), ..self }
        } else if self.picker.open {
            InputData { picker: self.picker.pasted(t), ..self }
        } else {
            InputData { edit: self.edit.inserted(composer::pieces_of(t)), ..self }.refreshed()
        }
    }

    /// The input line after an event of the session.
    pub open spec fn after_event(self, ev: AppEvent) -> InputData {
        match ev {
            AppEvent::ModelsUpdated { models } => InputData {
                picker: self.picker.with_models(list::pair_views(models@)),
                ..self
            },
            AppEvent::ProviderUpdated { provider } => InputData {
                setup: setup_wizard::SetupView { current: provider@, ..self.setup },
                ..self
            },
            AppEvent::Rewound { text: Some(t), .. } => self.with_text(t@),
            _ => self,
        }
    }
}

/// An empty input line that knows the given commands.
pub open spec fn fresh_input(
    commands: Seq<(Seq<char>, Seq<char>)>,
    provider: ProviderView,
) -> InputData {
    InputData {
        edit: composer::empty_edit(),
        slash: slash_command_popup::SlashView {
            commands,
            text: Seq::empty(),
            open: false,
            selected: 0,
        },
        picker: model_picker::PickerView {
            models: Seq::empty(),
            filter: Seq::empty(),
            stage: model_picker::PickerStage::Models,
            selected: 0,
            model: None,
            open: false,
        },
        setup: setup_wizard::fresh_setup(provider),
    }
}

impl InputView {
    /// Whether the parts of the input line are valid.
    pub closed spec fn wf(&self) -> bool {
        &&& self.composer.wf()
        &&& self.model_picker@.wf()
        &&& self.setup@.wf()
    }

    /// An empty input line that knows the given commands.
    pub fn new(commands: Vec<(String, String)>, provider: ProviderConfig) -> (v: Self)
        ensures
            v.wf(),
            v@ == fresh_input(list::pair_views(commands@), provider@),
    {
        let models: Vec<(String, String)> = Vec::new();
        assert(list::pair_views(models@) =~= Seq::<(Seq<char>, Seq<char>)>::empty());
        let v = InputView {
            composer: Composer::new(),
            slash_command: SlashCommandPopup::new(commands),
            model_picker: ModelPicker::new(models),
            setup: SetupWizard::new(provider),
        };
        assert(v@ =~= fresh_input(list::pair_views(commands@), provider@));
        v
    }

    /// The popup of slash commands.
    pub fn slash_command(&self) -> (p: &SlashCommandPopup)
        ensures
            p@ == self@.slash,
    {
        &self.slash_command
    }

    /// The model picker.
    pub fn model_picker(&self) -> (p: &ModelPicker)
        ensures
            p@ == self@.picker,
    {
        &self.model_picker
    }

    /// The setup wizard.
    pub fn setup(&self) -> (w: &SetupWizard)
        ensures
            w@ == self@.setup,
    {
        &self.setup
    }

    /// The lines of the text.
    pub fn lines(&self) -> (out: Vec<String>)
        ensures
            seqs::views(out@) == self@.edit.lines,
    {
        self.composer.lines()
    }

    /// The row and the character that the cursor stands before.
    pub fn cursor(&self) -> (at: (usize, usize))
        ensures
            at.0 == self@.edit.row,
            at.1 == self@.edit.col,
    {
        self.composer.cursor()
    }

    /// Where the selected text starts and ends.
    pub fn selection(&self) -> (range: Option<((usize, usize), (usize, usize))>)
        ensures
            match range {
                Some(r) => {
                    &&& self@.edit.selecting()
                    &&& (r.0.0 as nat, r.0.1 as nat) == self@.edit.selected().0
                    &&& (r.1.0 as nat, r.1.1 as nat) == self@.edit.selected().1
                },
                None => !self@.edit.selecting(),
            },
    {
        self.composer.selection()
    }

    /// Tells the editor the columns and rows that the text is painted in, and says
    /// where its cursor is painted.
    pub fn show(&mut self, width: u16, rows: u16) -> (cell: Option<(u16, u16)>)
        requires
            old(self).wf(),
        ensures
            cell == old(self)@.cell(width, rows),
            final(self)@ == old(self)@.shown(width, rows),
            final(self).wf(),
    {
        let cell = self.composer.show(width, rows);
        assert(self@ =~= old(self)@.shown(width, rows));
        cell
    }

    /// Rows of the input line at a width.
    pub fn height(&mut self, area_width: u16) -> (rows: u16)
        requires
            old(self).wf(),
        ensures
            rows == input_rows(old(self)@.edit.lines, area_width),
            final(self)@ == old(self)@,
            final(self).wf(),
    {
        self.composer.height(area_width.saturating_sub(PROMPT_COLS))
    }

    /// Empties the input line and closes every popup.
    pub fn clear(&mut self)
        ensures
            final(self)@ == old(self)@.cleared(),
            final(self).wf(),
    {
        self.composer = Composer::new();
        self.slash_command.close();
        self.model_picker.close();
        self.setup.close();
    }

    /// What stands below the input line.
    pub fn overlay(&self) -> (overlay: Overlay)
        ensures
            overlay == self@.overlay(),
    {
        if self.setup.is_open() {
            Overlay::Setup
        } else if self.model_picker.is_open() {
            Overlay::Model
        } else if self.slash_command.is_open() {
            Overlay::Slash
        } else {
            Overlay::Closed
        }
    }

    /// Rows of what stands below the input line.
    pub fn overlay_height(&self) -> (rows: u16)
        ensures
            rows == self@.overlay_rows(),
    {
        match self.overlay() {
            Overlay::Closed => 0,
            Overlay::Setup => self.setup.height(),
            Overlay::Model => self.model_picker.height(),
            Overlay::Slash => self.slash_command.height(),
        }
    }

    /// The lines of what stands below the input line.
    pub fn draw_overlay(&self) -> (out: Vec<Line>)
        ensures
            seqs::views(out@) == self@.overlay_drawn(),
    {
        match self.overlay() {
            Overlay::Closed => {
                let out: Vec<Line> = Vec::new();
                assert(seqs::views(out@) =~= Seq::<Seq<style::SpanView>>::empty());
                out
            },
            Overlay::Setup => self.setup.lines(),
            Overlay::Model => self.model_picker.lines(),
            Overlay::Slash => self.slash_command.lines(),
        }
    }

    fn refresh(&mut self)
        requires
            old(self).wf(),
        ensures
            final(self)@ == old(self)@.refreshed(),
            final(self).wf(),
    {
        let t = self.composer.text();
        self.slash_command.refresh(t.as_str());
    }

    /// Opens the setup wizard.
    pub fn open_setup(&mut self)
        requires
            old(self).wf(),
        ensures
            final(self)@ == (InputData {
                setup: old(self)@.setup.opened(),
                ..old(self)@
            }).with_text("/setup "@),
            final(self).wf(),
    {
        self.setup.open();
        self.set_text("/setup ");
    }

    /// Takes pasted text: the wizard or the picker where one is open, else the
    /// editor.
    pub fn paste(&mut self, t: &str)
        requires
            old(self).wf(),
        ensures
            final(self)@ == old(self)@.pasted(t@),
            final(self).wf(),
    {
        if self.setup.is_open() {
            self.setup.paste(t);
            return ;
        }
        if self.model_picker.is_open() {
            self.model_picker.paste(t);
            return ;
        }
        self.composer.insert(t);
        self.refresh();
    }

    /// Replaces the text.
    pub fn set_text(&mut self, t: &str)
        requires
            old(self).wf(),
        ensures
            final(self)@ == old(self)@.with_text(t@),
            final(self).wf(),
    {
        let lines = text::split(t, '\n');
        let row: usize = lines.len() - 1;
        let col: usize = width::str_width(lines[row].as_str());
        proof {
            assert(seqs::views(lines@).last() == lines@[row as int]@);
            text::lemma_split_has_no_separator(t@, '\n');
        }
        self.composer.place(lines, row, col);
        self.refresh();
    }

    /// Takes an event of the session.
    pub fn on_event(&mut self, ev: &AppEvent)
        requires
            old(self).wf(),
        ensures
            final(self)@ == old(self)@.after_event(*ev),
            final(self).wf(),
    {
        match ev {
            AppEvent::ModelsUpdated { models } => {
                let copy = list::copy_pairs(models);
                self.model_picker.update_models(copy);
            },
            AppEvent::ProviderUpdated { provider } => {
                self.setup.set_current(provider.copy());
            },
            AppEvent::Rewound { text: Some(t), .. } => {
                self.set_text(t.as_str());
            },
            _ => {},
        }
    }

    fn setup_key(&mut self, key: &KeyEvent) -> (result: KeyResult)
        requires
            old(self).wf(),
        ensures
            (Outcome { next: final(self)@, result: result@ }) == old(self)@.setup_step(*key),
            final(self).wf(),
    {
        match self.setup.handle_key(key) {
            SetupWizardAction::Handled => KeyResult::Handled,
            SetupWizardAction::Submit(t) => {
                self.clear();
                submit_command(t)
            },
            SetupWizardAction::Close => {
                self.set_text("/setup");
                KeyResult::Handled
            },
        }
    }

    fn picker_key(&mut self, key: &KeyEvent) -> (result: KeyResult)
        requires
            old(self).wf(),
        ensures
            (Outcome { next: final(self)@, result: result@ }) == old(self)@.picker_step(*key),
            final(self).wf(),
    {
        match self.model_picker.handle_key(key) {
            ModelPickerAction::Handled => KeyResult::Handled,
            ModelPickerAction::Submit(t) => {
                self.clear();
                submit_command(t)
            },
            ModelPickerAction::Close => {
                self.set_text("/model");
                KeyResult::Handled
            },
        }
    }

    fn run_command(&mut self, t: String) -> (result: KeyResult)
        requires
            old(self).wf(),
        ensures
            (Outcome { next: final(self)@, result: result@ }) == old(self)@.command_step(t@),
            final(self).wf(),
    {
        if setup_opens(t.as_str()) {
            self.setup.open();
            self.set_text("/setup ");
            return KeyResult::Action(Action::QuietSubmit(t));
        }
        match model_filter_from(t.as_str()) {
            Some(filter) => {
                self.model_picker.open(filter.as_str());
                self.set_text("/model ");
                if filter.as_str().is_empty() {
                    KeyResult::Action(Action::QuietSubmit(t))
                } else {
                    KeyResult::Handled
                }
            },
            None => {
                self.clear();
                submit_command(t)
            },
        }
    }

    fn slash_action(&mut self, action: SlashCommandPopupAction) -> (result: KeyResult)
        requires
            old(self).wf(),
        ensures
            ({
                let made = Outcome { next: final(self)@, result: result@ };
                match action@ {
                    slash_command_popup::SlashActionView::Handled => made == old(self)@.done(
                        component::KeyResultView::Handled,
                    ),
                    slash_command_popup::SlashActionView::Fill(t) => made
                        == old(self)@.with_text(t).done(component::KeyResultView::Handled),
                    slash_command_popup::SlashActionView::Submit(t) => made
                        == old(self)@.command_step(t),
                }
            }),
            final(self).wf(),
    {
        match action {
            SlashCommandPopupAction::Handled => KeyResult::Handled,
            SlashCommandPopupAction::Fill(t) => {
                self.set_text(t.as_str());
                KeyResult::Handled
            },
            SlashCommandPopupAction::Submit(t) => self.run_command(t),
        }
    }

    fn enter(&mut self, busy: bool) -> (result: KeyResult)
        requires
            old(self).wf(),
        ensures
            (Outcome { next: final(self)@, result: result@ }) == old(self)@.enter_step(busy),
            final(self).wf(),
    {
        let whole = self.composer.text();
        let t = text::trim(whole.as_str());
        if t.as_str().is_empty() {
            return KeyResult::Handled;
        }
        self.clear();
        if busy && !commands::is_model_or_setup(t.as_str()) {
            KeyResult::Action(Action::Queue(t))
        } else {
            submit_command(t)
        }
    }

    /// Reacts to a key press.
    pub fn handle_key(&mut self, key: &KeyEvent, state: &State) -> (result: KeyResult)
        requires
            old(self).wf(),
        ensures
            final(self).wf(),
            match old(self)@.refreshed().key_step(*key, state.busy) {
                Step::Done(outcome) => (Outcome { next: final(self)@, result: result@ })
                    == outcome,
                Step::Edit => {
                    let typed = InputData { edit: final(self)@.edit, ..old(self)@.refreshed() };
                    &&& final(self)@.edit == composer::pressed(old(self)@.edit, *key)
                    &&& composer::pressed_evenly(old(self)@.edit, *key, final(self)@.edit)
                    &&& final(self)@ == typed.refreshed()
                    &&& result@ == component::KeyResultView::Handled
                },
            },
    {
        self.refresh();
        let ghost v = self@;
        if self.setup.is_open() {
            return self.setup_key(key);
        }
        if self.model_picker.is_open() {
            return self.picker_key(key);
        }
        if self.slash_command.is_open() {
            let action = self.slash_command.handle_key(key);
            match action {
                Some(action) => {
                    assert(self@ =~= (InputData { slash: v.slash.after_key(*key), ..v }));
                    return self.slash_action(action);
                },
                None => {
                    assert(self@ =~= v);
                },
            }
        }
        match key.code {
            KeyCode::Enter => {
                if key.modifiers.alt {
                    self.composer.break_line();
                    return KeyResult::Handled;
                }
                self.enter(state.busy)
            },
            _ => {
                self.composer.press(key);
                let ghost typed = self@;
                assert(typed =~= (InputData { edit: typed.edit, ..v }));
                self.refresh();
                KeyResult::Handled
            },
        }
    }
}

/// A text that was set is read back as it was.
pub proof fn set_text_reads_back(v: InputData, t: Seq<char>)
    ensures
        v.with_text(t).edit.text() == t,
        v.edit.wf() ==> v.with_text(t).edit.wf(),
{
    reveal_strlit("\n");
    text::join_undoes_split(t, '\n');
    text::lemma_split_has_no_separator(t, '\n');
    assert("\n"@ =~= seq!['\n']);
}

/// Enter hands out the whole text, without the whitespace around it, or leaves
/// the input line as it is.
pub proof fn enter_loses_nothing(v: InputData, busy: bool)
    ensures
        v.enter_step(busy).next == v || v.enter_step(busy).next == v.cleared(),
        v.enter_step(busy).next != v.cleared() ==> text::trimmed(v.edit.text()).len() == 0,
        match v.enter_step(busy).result {
            component::KeyResultView::Action(component::ActionView::Queue(t)) => busy && t
                == text::trimmed(v.edit.text()),
            component::KeyResultView::Action(component::ActionView::Submit(t)) => !busy && t
                == text::trimmed(v.edit.text()),
            component::KeyResultView::Action(component::ActionView::QuietSubmit(t)) => t
                == text::trimmed(v.edit.text()) && commands::is_quiet(t),
            component::KeyResultView::Handled => v.enter_step(busy).next == v,
            _ => false,
        },
{
}

/// A rewind that gives a text back puts it into the input line.
pub proof fn rewinding_restores_the_text(v: InputData, ev: AppEvent)
    ensures
        ev matches AppEvent::Rewound { text: Some(t), .. } ==> v.after_event(ev).edit.text() == t@,
        ev matches AppEvent::Rewound { text: None, .. } ==> v.after_event(ev) == v,
{
    if let AppEvent::Rewound { text: Some(t), .. } = ev {
        set_text_reads_back(v, t@);
    }
}

} // verus!
