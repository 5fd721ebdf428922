//! The input line with its popups.
use vstd::prelude::*;
use vstd::string::*;

use super::commands;
use super::commands::{model_filter_from, setup_opens, submit_command};
use super::component;
use super::component::{Action, KeyResult, State};
use super::composer;
use super::composer::{Composer, EditView};
use super::event::{AgentMode, AppEvent, ProviderConfig, ProviderView, StateChange};
use super::file_mention_popup;
use super::file_mention_popup::{FileMentionPopup, FileMentionPopupAction, MentionQuery};
use super::layout;
use super::list;
use super::model_picker;
use super::model_picker::{ModelPicker, ModelPickerAction};
use super::setup_wizard;
use super::setup_wizard::{SetupWizard, SetupWizardAction};
use super::slash_command_popup;
use super::slash_command_popup::{SlashCommandPopup, SlashCommandPopupAction};
use super::theme;
use crate::keys::{KeyCode, KeyEvent};
use crate::seqs;
use crate::style::{Line, Rect, Style};
use crate::style;
use crate::text;

verus! {

/// Columns of the prompt before the text.
pub const PROMPT_COLS: u16 = 2;

/// Columns of the border around the text.
pub const BORDER_COLS: u16 = 2;

/// Rows of the border around the text.
pub const BORDER_ROWS: u16 = 2;

/// What stands below the input line.
#[derive(Clone, Copy, Debug, PartialEq, Eq, Structural)]
pub enum Overlay {
    Closed,
    Slash,
    Mention,
    Model,
    Setup,
}

/// What has to be looked up outside before the input line can go on.
#[derive(Debug)]
pub enum Lookup {
    /// The files that fit a mention; the answer goes to `set_matches`.
    Mentions(MentionQuery),
    /// The canonical form of a provider's name; the answer goes to
    /// `vendor_resolved`.
    Vendor(String),
}

/// What has to be looked up outside.
pub enum LookupView {
    Mentions { query: Seq<char>, rescan: bool },
    Vendor(Seq<char>),
}

impl View for Lookup {
    type V = LookupView;

    open spec fn view(&self) -> LookupView {
        match self {
            Lookup::Mentions(q) => LookupView::Mentions { query: q.query@, rescan: q.rescan },
            Lookup::Vendor(name) => LookupView::Vendor(name@),
        }
    }
}

/// What has to be looked up, if anything.
pub open spec fn lookup_view(ask: Option<Lookup>) -> Option<LookupView> {
    match ask {
        Some(ask) => Some(ask@),
        None => None,
    }
}

/// What has to be looked up for a mention, if anything.
pub open spec fn mention_view(ask: Option<MentionQuery>) -> Option<LookupView> {
    match ask {
        Some(q) => Some(LookupView::Mentions { query: q.query@, rescan: q.rescan }),
        None => None,
    }
}

fn lookup(ask: Option<MentionQuery>) -> (out: Option<Lookup>)
    ensures
        lookup_view(out) == mention_view(ask),
{
    match ask {
        Some(q) => Some(Lookup::Mentions(q)),
        None => None,
    }
}

/// Where the line that holds position `p` ends.
pub open spec fn line_end(s: Seq<char>, p: nat) -> nat
    decreases s.len() - p,
{
    if p >= s.len() {
        s.len()
    } else if s[p as int] == '\n' {
        p
    } else {
        line_end(s, p + 1)
    }
}

/// Where a line starts, if the text has it.
pub open spec fn line_start(s: Seq<char>, row: nat) -> Option<nat>
    decreases row,
{
    if row == 0 {
        Some(0)
    } else {
        match line_start(s, (row - 1) as nat) {
            Some(p) => if line_end(s, p) < s.len() {
                Some(line_end(s, p) + 1)
            } else {
                None
            },
            None => None,
        }
    }
}

/// The character of a text that stands at a row and a column; a column behind
/// the line counts as its end, a row behind the text as the end of the text.
pub open spec fn cursor_char(s: Seq<char>, row: nat, col: nat) -> nat {
    match line_start(s, row) {
        Some(p) => if p + col <= line_end(s, p) {
            p + col
        } else {
            line_end(s, p)
        },
        None => s.len(),
    }
}

/// The byte of a text that stands at a row and a column.
pub open spec fn byte_at(s: Seq<char>, row: nat, col: nat) -> nat {
    text::byte_len(s.take(cursor_char(s, row, col) as int))
}

fn find_line_end(cs: &Vec<char>, from: usize) -> (at: usize)
    requires
        from <= cs@.len(),
    ensures
        at == line_end(cs@, from as nat),
        from <= at <= cs@.len(),
{
    let mut at: usize = from;
    while at < cs.len() && cs[at] != '\n'
        invariant
            from <= at <= cs@.len(),
            line_end(cs@, from as nat) == line_end(cs@, at as nat),
        decreases cs.len() - at,
    {
        at += 1;
    }
    at
}

/// Finds the byte of a text that stands at a row and a column, both counted
/// in characters.
pub fn cursor_byte(t: &str, at: (usize, usize)) -> (byte: usize)
    ensures
        byte == byte_at(t@, at.0 as nat, at.1 as nat),
{
    let cs = text::chars_of(t);
    let mut row: usize = 0;
    let mut start: usize = 0;
    while row < at.0
        invariant
            row <= at.0,
            start <= cs@.len(),
            cs@ == t@,
            line_start(t@, row as nat) == Some(start as nat),
        decreases at.0 - row,
    {
        let end: usize = find_line_end(&cs, start);
        if end >= cs.len() {
            proof {
                assert(line_start(t@, (row + 1) as nat) is None);
                lemma_no_line_behind(t@, (row + 1) as nat, at.0 as nat);
            }
            return text::bytes_before(t, &cs, cs.len());
        }
        start = end + 1;
        row += 1;
        assert(line_start(t@, row as nat) == Some(start as nat));
    }
    let end: usize = find_line_end(&cs, start);
    let n: usize = if at.1 <= end - start {
        start + at.1
    } else {
        end
    };
    text::bytes_before(t, &cs, n)
}

proof fn lemma_no_line_behind(s: Seq<char>, row: nat, later: nat)
    requires
        row <= later,
        line_start(s, row) is None,
    ensures
        line_start(s, later) is None,
    decreases later,
{
    if row < later {
        lemma_no_line_behind(s, row, (later - 1) as nat);
    }
}

/// Whether an area has room for a border around the text.
#[verifier::allow_in_spec]
pub fn fits_border(area: Rect) -> bool
    returns
        (area.height > BORDER_ROWS && area.width > PROMPT_COLS + BORDER_COLS),
{
    area.height > BORDER_ROWS && area.width > PROMPT_COLS + BORDER_COLS
}

/// The part of an area inside its border, the whole where there is no room for
/// one.
pub open spec fn inner_area(area: Rect) -> Rect {
    if fits_border(area) {
        Rect {
            x: if area.x < u16::MAX {
                (area.x + 1) as u16
            } else {
                area.x
            },
            y: if area.y < u16::MAX {
                (area.y + 1) as u16
            } else {
                area.y
            },
            width: (area.width - BORDER_COLS) as u16,
            height: (area.height - BORDER_ROWS) as u16,
        }
    } else {
        area
    }
}

/// The part of an area inside its border, the whole where there is no room for
/// one.
pub fn inside_border(area: Rect) -> (inner: Rect)
    ensures
        inner == inner_area(area),
{
    if !fits_border(area) {
        return area;
    }
    Rect {
        x: area.x.saturating_add(1),
        y: area.y.saturating_add(1),
        width: area.width - BORDER_COLS,
        height: area.height - BORDER_ROWS,
    }
}

/// Splits the input line into its prompt and its text, which keeps a column.
pub fn split_prompt(area: Rect) -> (bands: (Rect, Rect))
    requires
        area.x + area.width <= u16::MAX,
        area.y + area.height <= u16::MAX,
    ensures
        bands == layout::columns(area, PROMPT_COLS, 1),
{
    layout::split_columns(area, PROMPT_COLS, 1)
}

/// Rows of the input line with its border at a width.
pub open spec fn bordered_rows(lines: Seq<Seq<char>>, width: u16) -> nat {
    if width > PROMPT_COLS + BORDER_COLS {
        (composer::composer_rows(lines, (width - BORDER_COLS - PROMPT_COLS) as u16) + BORDER_ROWS)
            as nat
    } else {
        composer::composer_rows(
            lines,
            if width < PROMPT_COLS {
                0
            } else {
                (width - PROMPT_COLS) as u16
            },
        ) as nat
    }
}

/// The mark before the input line.
pub open spec fn prompt_mark(busy: bool) -> Seq<char> {
    if busy {
        "⋅ "@
    } else {
        "› "@
    }
}

/// The mark before the input line.
pub fn prompt(busy: bool) -> (out: &'static str)
    ensures
        out@ == prompt_mark(busy),
{
    if busy {
        "⋅ "
    } else {
        "› "
    }
}

/// The input line with its popups.
pub struct InputView {
    composer: Composer,
    slash_command: SlashCommandPopup,
    file_mention: FileMentionPopup,
    model_picker: ModelPicker,
    setup: SetupWizard,
}

/// What the input line holds.
#[verifier::ext_equal]
pub struct InputData {
    pub edit: composer::EditView,
    pub slash: slash_command_popup::SlashView,
    pub mention: file_mention_popup::MentionView,
    pub picker: model_picker::PickerView,
    pub setup: setup_wizard::SetupView,
}

impl View for InputView {
    type V = InputData;

    closed spec fn view(&self) -> InputData {
        InputData {
            edit: self.composer@,
            slash: self.slash_command@,
            mention: self.file_mention@,
            picker: self.model_picker@,
            setup: self.setup@,
        }
    }
}

/// What became of a key press.
#[verifier::ext_equal]
pub struct Outcome {
    pub next: InputData,
    pub result: component::KeyResultView,
    pub ask: Option<LookupView>,
}

/// What a key press comes to: what the popups and Enter make of it, or a key
/// for the editor.
pub enum Step {
    Done(Outcome),
    Edit,
}

impl InputData {
    /// Whether a popup other than the mention popup is open, now that the slash
    /// popup was brought up to date.
    pub open spec fn covered(self) -> bool {
        slash_command_popup::is_command(self.edit.text()) || self.setup.open || self.picker.open
    }

    /// The byte that the cursor stands at.
    pub open spec fn at(self) -> nat {
        byte_at(self.edit.text(), self.edit.row, self.edit.col)
    }

    /// The popups brought up to date with the text.
    pub open spec fn refreshed(self) -> InputData {
        InputData {
            slash: self.slash.refreshed(self.edit.text()),
            mention: if self.covered() {
                self.mention.closed_popup()
            } else {
                self.mention.refreshed(self.edit.text(), self.at())
            },
            ..self
        }
    }

    /// What bringing the popups up to date asks the file index for.
    pub open spec fn asks(self) -> Option<LookupView> {
        if self.covered() {
            None
        } else {
            match file_mention_popup::token_at(self.edit.text(), self.at()) {
                Some(token) => Some(
                    LookupView::Mentions { query: token.query, rescan: !self.mention.is_open() },
                ),
                None => None,
            }
        }
    }

    /// The input line with its text painted in some columns and rows; a text
    /// with too many rows to count stays as it was shown before.
    pub open spec fn shown(self, width: u16, rows: u16) -> InputData {
        if self.edit.fits(width, rows) {
            InputData { edit: self.edit.shown(width, rows), ..self }
        } else {
            self
        }
    }

    /// Where the cursor is painted in some columns and rows.
    pub open spec fn cell(self, width: u16, rows: u16) -> Option<(u16, u16)> {
        if self.edit.fits(width, rows) {
            self.edit.cell(width, rows)
        } else {
            None
        }
    }

    /// The input line with nothing in it and no popup open.
    pub open spec fn cleared(self) -> InputData {
        InputData {
            edit: composer::empty_edit(),
            slash: self.slash.closed_popup(),
            mention: self.mention.closed_popup(),
            picker: self.picker.closed_picker(),
            setup: setup_wizard::fresh_setup(self.setup.current),
        }
    }

    /// The input line with other lines, the cursor at a position.
    pub open spec fn with_lines(self, lines: Seq<Seq<char>>, row: nat, col: nat) -> InputData {
        InputData { edit: self.edit.placed(lines, row, col), ..self }
    }

    /// The input line with another text in it, the popups not yet up to date.
    pub open spec fn with_text(self, t: Seq<char>) -> InputData {
        let lines = text::split_on(t, '\n');
        self.with_lines(lines, (lines.len() - 1) as nat, lines.last().len())
    }

    /// The input line with a text put together, the cursor behind its second
    /// part, the popups not yet up to date.
    pub open spec fn with_parts(
        self,
        before: Seq<char>,
        insert: Seq<char>,
        after: Seq<char>,
    ) -> InputData {
        let head = text::split_on(before + insert, '\n');
        self.with_lines(
            text::split_on(before + insert + after, '\n'),
            (head.len() - 1) as nat,
            head.last().len(),
        )
    }

    /// What follows when a text was put into the input line.
    pub open spec fn done_with(self, result: component::KeyResultView) -> Outcome {
        Outcome { next: self.refreshed(), result, ask: self.asks() }
    }

    /// The outcome with nothing to look up.
    pub open spec fn done(self, result: component::KeyResultView) -> Outcome {
        Outcome { next: self, result, ask: None }
    }

    /// What the wizard makes of a key press.
    pub open spec fn setup_step(self, key: KeyEvent) -> Outcome {
        let next = InputData { setup: self.setup.after_key(key), ..self };
        match self.setup.answer(key) {
            setup_wizard::SetupActionView::Handled => next.done(component::KeyResultView::Handled),
            setup_wizard::SetupActionView::Submit(t) => next.cleared().done(
                commands::submission(t),
            ),
            setup_wizard::SetupActionView::Close => next.with_text("/setup"@).done_with(
                component::KeyResultView::Handled,
            ),
            setup_wizard::SetupActionView::Resolve(name) => Outcome {
                next,
                result: component::KeyResultView::Handled,
                ask: Some(LookupView::Vendor(name)),
            },
        }
    }

    /// What the model picker makes of a key press.
    pub open spec fn picker_step(self, key: KeyEvent) -> Outcome {
        let next = InputData { picker: self.picker.after_key(key), ..self };
        match self.picker.answer(key) {
            model_picker::PickerActionView::Handled => next.done(component::KeyResultView::Handled),
            model_picker::PickerActionView::Submit(t) => next.cleared().done(
                commands::submission(t),
            ),
            model_picker::PickerActionView::Close => next.with_text("/model"@).done_with(
                component::KeyResultView::Handled,
            ),
        }
    }

    /// What submitting a typed-out command does: `/setup` opens the wizard,
    /// `/model` with at most one argument the picker, anything else is
    /// submitted.
    pub open spec fn command_step(self, t: Seq<char>) -> Outcome {
        if commands::opens_setup(t) {
            InputData { setup: self.setup.opened(), ..self }.with_text("/setup "@).done_with(
                component::KeyResultView::Action(component::ActionView::QuietSubmit(t)),
            )
        } else {
            match commands::picker_filter(t) {
                Some(filter) => InputData {
                    picker: self.picker.opened(filter),
                    ..self
                }.with_text("/model "@).done_with(
                    if filter.len() == 0 {
                        component::KeyResultView::Action(component::ActionView::QuietSubmit(t))
                    } else {
                        component::KeyResultView::Handled
                    },
                ),
                None => self.cleared().done(commands::submission(t)),
            }
        }
    }

    /// What the slash popup makes of a key press.
    pub open spec fn slash_step(
        self,
        key: KeyEvent,
        action: slash_command_popup::SlashActionView,
    ) -> Outcome {
        let next = InputData { slash: self.slash.after_key(key), ..self };
        match action {
            slash_command_popup::SlashActionView::Handled => next.done(
                component::KeyResultView::Handled,
            ),
            slash_command_popup::SlashActionView::Fill(t) => next.with_text(t).done_with(
                component::KeyResultView::Handled,
            ),
            slash_command_popup::SlashActionView::Submit(t) => next.command_step(t),
        }
    }

    /// What the mention popup makes of a key press.
    pub open spec fn mention_step(
        self,
        key: KeyEvent,
        action: file_mention_popup::MentionActionView,
    ) -> Outcome {
        let next = InputData { mention: self.mention.after_key(key), ..self };
        match action {
            file_mention_popup::MentionActionView::Handled => next.done(
                component::KeyResultView::Handled,
            ),
            file_mention_popup::MentionActionView::Fill { before, insert, after } =>
                next.with_parts(before, insert, after).done_with(
                component::KeyResultView::Handled,
            ),
        }
    }

    /// What Enter does to the text: a busy session queues it, unless it is a
    /// quiet command.
    pub open spec fn enter_step(self, busy: bool) -> Outcome {
        let t = text::trimmed(self.edit.text());
        if t.len() == 0 {
            self.done(component::KeyResultView::Handled)
        } else if busy && !commands::is_quiet(t) {
            self.cleared().done(
                component::KeyResultView::Action(component::ActionView::Queue(t)),
            )
        } else {
            self.cleared().done(commands::submission(t))
        }
    }

    /// What a key press comes to, once the popups are up to date.
    pub open spec fn key_step(self, key: KeyEvent, busy: bool) -> Step {
        if self.setup.open {
            Step::Done(self.setup_step(key))
        } else if self.picker.open {
            Step::Done(self.picker_step(key))
        } else if self.slash.open && self.slash.answer(key) is Some {
            Step::Done(self.slash_step(key, self.slash.answer(key)->0))
        } else if self.mention.is_open() && self.mention.answer(key) is Some {
            Step::Done(self.mention_step(key, self.mention.answer(key)->0))
        } else if key.code is Enter && key.modifiers.alt {
            Step::Done(
                InputData { edit: self.edit.broken(), ..self }.done(
                    component::KeyResultView::Handled,
                ),
            )
        } else if key.code is Enter {
            Step::Done(self.enter_step(busy))
        } else {
            Step::Edit
        }
    }

    /// What stands below the input line.
    pub open spec fn overlay(self) -> Overlay {
        if self.setup.open {
            Overlay::Setup
        } else if self.picker.open {
            Overlay::Model
        } else if self.slash.open {
            Overlay::Slash
        } else if self.mention.is_open() {
            Overlay::Mention
        } else {
            Overlay::Closed
        }
    }

    /// Rows of what stands below the input line.
    pub open spec fn overlay_rows(self) -> nat {
        match self.overlay() {
            Overlay::Closed => 0,
            Overlay::Setup => self.setup.rows(),
            Overlay::Model => self.picker.rows(),
            Overlay::Slash => list::bounded(self.slash.matches().len()),
            Overlay::Mention => list::bounded(self.mention.matches.len()),
        }
    }

    /// The lines of what stands below the input line.
    pub open spec fn overlay_drawn(self) -> Seq<Seq<style::SpanView>> {
        match self.overlay() {
            Overlay::Closed => Seq::empty(),
            Overlay::Setup => self.setup.drawn(),
            Overlay::Model => self.picker.drawn(),
            Overlay::Slash => self.slash.drawn(),
            Overlay::Mention => self.mention.drawn(),
        }
    }

    /// The input line after a paste.
    pub open spec fn pasted(self, t: Seq<char>) -> InputData {
        if self.setup.open {
            InputData { setup: self.setup.pasted(t), ..self }
        } else if self.picker.open {
            InputData { picker: self.picker.pasted(t), ..self }
        } else {
            InputData { edit: self.edit.inserted(composer::pieces_of(t)), ..self }.refreshed()
        }
    }

    /// What a paste asks the file index for.
    pub open spec fn paste_asks(self, t: Seq<char>) -> Option<LookupView> {
        if self.setup.open || self.picker.open {
            None
        } else {
            InputData { edit: self.edit.inserted(composer::pieces_of(t)), ..self }.asks()
        }
    }

    /// The input line after an event of the session.
    pub open spec fn after_event(self, ev: AppEvent) -> InputData {
        match ev {
            AppEvent::StateChanged(StateChange::ModelsChanged { models }) => InputData {
                picker: self.picker.with_models(list::pair_views(models@)),
                ..self
            },
            AppEvent::StateChanged(StateChange::ProviderChanged { provider }) => InputData {
                setup: setup_wizard::SetupView { current: provider@, ..self.setup },
                ..self
            },
            _ => self,
        }
    }

    /// Whether there is any text.
    pub open spec fn has_text(self) -> bool {
        exists|i: int| 0 <= i < self.edit.lines.len() && (#[trigger] self.edit.lines[i]).len() > 0
    }

    /// The style of the border.
    pub open spec fn border(self, state: State) -> Style {
        if state.mode is Plan {
            theme::mode()
        } else if self.has_text() {
            theme::border_active()
        } else {
            theme::border_idle()
        }
    }
}

/// An empty input line that knows the given commands.
pub open spec fn fresh_input(
    commands: Seq<(Seq<char>, Seq<char>)>,
    provider: ProviderView,
) -> InputData {
    InputData {
        edit: composer::empty_edit(),
        slash: slash_command_popup::SlashView {
            commands,
            text: Seq::empty(),
            open: false,
            selected: 0,
        },
        mention: file_mention_popup::MentionView {
            text: Seq::empty(),
            matches: Seq::empty(),
            selected: 0,
            token: None,
        },
        picker: model_picker::PickerView {
            models: Seq::empty(),
            filter: Seq::empty(),
            stage: model_picker::PickerStage::Models,
            selected: 0,
            model: None,
            open: false,
        },
        setup: setup_wizard::fresh_setup(provider),
    }
}

impl InputView {
    /// Whether the parts of the input line are valid.
    pub closed spec fn wf(&self) -> bool {
        &&& self.composer.wf()
        &&& self.file_mention@.wf()
        &&& self.model_picker@.wf()
        &&& self.setup@.wf()
    }

    /// An empty input line that knows the given commands.
    pub fn new(commands: Vec<(String, String)>, provider: ProviderConfig) -> (v: Self)
        ensures
            v.wf(),
            v@ == fresh_input(list::pair_views(commands@), provider@),
    {
        let models: Vec<(String, String)> = Vec::new();
        assert(list::pair_views(models@) =~= Seq::<(Seq<char>, Seq<char>)>::empty());
        let v = InputView {
            composer: Composer::new(),
            slash_command: SlashCommandPopup::new(commands),
            file_mention: FileMentionPopup::new(),
            model_picker: ModelPicker::new(models),
            setup: SetupWizard::new(provider),
        };
        assert(v@ =~= fresh_input(list::pair_views(commands@), provider@));
        v
    }

    /// The popup of slash commands.
    pub fn slash_command(&self) -> (p: &SlashCommandPopup)
        ensures
            p@ == self@.slash,
    {
        &self.slash_command
    }

    /// The popup of file mentions.
    pub fn file_mention(&self) -> (p: &FileMentionPopup)
        ensures
            p@ == self@.mention,
    {
        &self.file_mention
    }

    /// The model picker.
    pub fn model_picker(&self) -> (p: &ModelPicker)
        ensures
            p@ == self@.picker,
    {
        &self.model_picker
    }

    /// The setup wizard.
    pub fn setup(&self) -> (w: &SetupWizard)
        ensures
            w@ == self@.setup,
    {
        &self.setup
    }

    /// The lines of the text.
    pub fn lines(&self) -> (out: Vec<String>)
        ensures
            seqs::views(out@) == self@.edit.lines,
    {
        self.composer.lines()
    }

    /// The row and the character that the cursor stands before.
    pub fn cursor(&self) -> (at: (usize, usize))
        ensures
            at.0 == self@.edit.row,
            at.1 == self@.edit.col,
    {
        self.composer.cursor()
    }

    /// Where the selected text starts and ends.
    pub fn selection(&self) -> (range: Option<((usize, usize), (usize, usize))>)
        ensures
            match range {
                Some(r) => {
                    &&& self@.edit.selecting()
                    &&& (r.0.0 as nat, r.0.1 as nat) == self@.edit.selected().0
                    &&& (r.1.0 as nat, r.1.1 as nat) == self@.edit.selected().1
                },
                None => !self@.edit.selecting(),
            },
    {
        self.composer.selection()
    }

    /// Tells the editor the columns and rows that the text is painted in, and says
    /// where its cursor is painted.
    pub fn show(&mut self, width: u16, rows: u16) -> (cell: Option<(u16, u16)>)
        requires
            old(self).wf(),
        ensures
            cell == old(self)@.cell(width, rows),
            final(self)@ == old(self)@.shown(width, rows),
            final(self).wf(),
    {
        let cell = self.composer.show(width, rows);
        assert(self@ =~= old(self)@.shown(width, rows));
        cell
    }

    /// Rows of the input line at a width, its border included where there is
    /// room for one.
    pub fn height(&mut self, area_width: u16) -> (rows: u16)
        requires
            old(self).wf(),
        ensures
            rows == bordered_rows(old(self)@.edit.lines, area_width),
            final(self)@ == old(self)@,
            final(self).wf(),
    {
        let bordered = fits_border(Rect::new(0, 0, area_width, BORDER_ROWS + 1));
        let inner: u16 = if bordered {
            area_width - BORDER_COLS
        } else {
            area_width
        };
        let rows: u16 = self.composer.height(inner.saturating_sub(PROMPT_COLS));
        if bordered {
            rows + BORDER_ROWS
        } else {
            rows
        }
    }

    /// Empties the input line and closes every popup.
    pub fn clear(&mut self)
        ensures
            final(self)@ == old(self)@.cleared(),
            final(self).wf(),
    {
        self.composer = Composer::new();
        self.slash_command.close();
        self.file_mention.close();
        self.model_picker.close();
        self.setup.close();
    }

    /// What stands below the input line.
    pub fn overlay(&self) -> (overlay: Overlay)
        ensures
            overlay == self@.overlay(),
    {
        if self.setup.is_open() {
            Overlay::Setup
        } else if self.model_picker.is_open() {
            Overlay::Model
        } else if self.slash_command.is_open() {
            Overlay::Slash
        } else if self.file_mention.is_open() {
            Overlay::Mention
        } else {
            Overlay::Closed
        }
    }

    /// Rows of what stands below the input line.
    pub fn overlay_height(&self) -> (rows: u16)
        ensures
            rows == self@.overlay_rows(),
    {
        match self.overlay() {
            Overlay::Closed => 0,
            Overlay::Setup => self.setup.height(),
            Overlay::Model => self.model_picker.height(),
            Overlay::Slash => self.slash_command.height(),
            Overlay::Mention => self.file_mention.height(),
        }
    }

    /// The lines of what stands below the input line.
    pub fn draw_overlay(&self) -> (out: Vec<Line>)
        ensures
            seqs::views(out@) == self@.overlay_drawn(),
    {
        match self.overlay() {
            Overlay::Closed => {
                let out: Vec<Line> = Vec::new();
                assert(seqs::views(out@) =~= Seq::<Seq<style::SpanView>>::empty());
                out
            },
            Overlay::Setup => self.setup.lines(),
            Overlay::Model => self.model_picker.lines(),
            Overlay::Slash => self.slash_command.lines(),
            Overlay::Mention => self.file_mention.lines(),
        }
    }

    /// Brings the popups up to date with the text and the cursor. Returns what
    /// to ask the file index for.
    pub fn refresh_popups(&mut self) -> (ask: Option<MentionQuery>)
        requires
            old(self).wf(),
        ensures
            final(self)@ == old(self)@.refreshed(),
            mention_view(ask) == old(self)@.asks(),
            final(self).wf(),
    {
        let t = self.composer.text();
        self.slash_command.refresh(t.as_str());
        if self.slash_command.is_open() || self.setup.is_open() || self.model_picker.is_open() {
            self.file_mention.close();
            return None;
        }
        let cursor: usize = cursor_byte(t.as_str(), self.composer.cursor());
        self.file_mention.refresh(t.as_str(), cursor)
    }

    /// Takes the files that fit a mention. `opened` says that the popup had just
    /// opened when the index was asked.
    pub fn set_matches(&mut self, found: Vec<String>, opened: bool)
        requires
            old(self).wf(),
        ensures
            final(self)@ == (InputData {
                mention: old(self)@.mention.answered(seqs::views(found@), opened),
                ..old(self)@
            }),
            final(self).wf(),
    {
        self.file_mention.set_matches(found, opened);
    }

    /// Takes the canonical form of a provider's name.
    pub fn vendor_resolved(&mut self, vendor: String)
        requires
            old(self).wf(),
        ensures
            final(self)@ == (InputData {
                setup: old(self)@.setup.resolved(vendor@),
                ..old(self)@
            }),
            final(self).wf(),
    {
        self.setup.vendor_resolved(vendor);
    }

    /// Opens the setup wizard.
    pub fn open_setup(&mut self) -> (ask: Option<MentionQuery>)
        requires
            old(self).wf(),
        ensures
            final(self)@ == (InputData {
                setup: old(self)@.setup.opened(),
                ..old(self)@
            }).with_text("/setup "@).refreshed(),
            ask is None,
            final(self).wf(),
    {
        self.setup.open();
        self.set_text("/setup ")
    }

    /// Takes pasted text: the wizard or the picker where one is open, else the
    /// editor.
    pub fn paste(&mut self, t: &str) -> (ask: Option<MentionQuery>)
        requires
            old(self).wf(),
        ensures
            final(self)@ == old(self)@.pasted(t@),
            mention_view(ask) == old(self)@.paste_asks(t@),
            final(self).wf(),
    {
        if self.setup.is_open() {
            self.setup.paste(t);
            return None;
        }
        if self.model_picker.is_open() {
            self.model_picker.paste(t);
            return None;
        }
        self.composer.insert(t);
        self.refresh_popups()
    }

    /// Replaces the text, with the cursor behind it.
    pub fn set_text(&mut self, t: &str) -> (ask: Option<MentionQuery>)
        requires
            old(self).wf(),
        ensures
            final(self)@ == old(self)@.with_text(t@).refreshed(),
            mention_view(ask) == old(self)@.with_text(t@).asks(),
            final(self).wf(),
    {
        let lines = text::split(t, '\n');
        let row: usize = lines.len() - 1;
        let col: usize = text::chars_of(lines[row].as_str()).len();
        proof {
            assert(seqs::views(lines@).last() == lines@[row as int]@);
            text::lemma_split_has_no_separator(t@, '\n');
        }
        self.composer.place(lines, row, col);
        self.refresh_popups()
    }

    fn splice(&mut self, before: &str, insert: &str, after: &str) -> (ask: Option<MentionQuery>)
        requires
            old(self).wf(),
        ensures
            final(self)@ == old(self)@.with_parts(before@, insert@, after@).refreshed(),
            mention_view(ask) == old(self)@.with_parts(before@, insert@, after@).asks(),
            final(self).wf(),
    {
        let prefix = text::concat(before, insert);
        let whole = text::concat(prefix.as_str(), after);
        let lines = text::split(whole.as_str(), '\n');
        let head = text::split(prefix.as_str(), '\n');
        let row: usize = head.len() - 1;
        let col: usize = text::chars_of(head[row].as_str()).len();
        proof {
            assert(seqs::views(head@).last() == head@[row as int]@);
            text::lemma_split_has_no_separator(whole@, '\n');
        }
        self.composer.place(lines, row, col);
        self.refresh_popups()
    }

    /// The style of the border.
    pub fn border_style(&self, state: &State) -> (style: Style)
        ensures
            style == self@.border(*state),
    {
        match state.mode {
            AgentMode::Plan => {
                return theme::mode();
            },
            AgentMode::Default => {},
        }
        let lines = self.composer.lines();
        let mut i: usize = 0;
        while i < lines.len()
            invariant
                i <= lines@.len(),
                seqs::views(lines@) == self@.edit.lines,
                !(state.mode is Plan),
                forall|j: int| 0 <= j < i ==> (#[trigger] self@.edit.lines[j]).len() == 0,
            decreases lines.len() - i,
        {
            assert(self@.edit.lines[i as int] == lines@[i as int]@);
            if !lines[i].as_str().is_empty() {
                return theme::border_active();
            }
            i += 1;
        }
        theme::border_idle()
    }

    /// Takes an event of the session.
    pub fn on_event(&mut self, ev: &AppEvent)
        requires
            old(self).wf(),
        ensures
            final(self)@ == old(self)@.after_event(*ev),
            final(self).wf(),
    {
        match ev {
            AppEvent::StateChanged(change) => match change {
                StateChange::ModelsChanged { models } => {
                    let copy = list::copy_pairs(models);
                    self.model_picker.update_models(copy);
                },
                StateChange::ProviderChanged { provider } => {
                    self.setup.set_current(provider.copy());
                },
                _ => {},
            },
            _ => {},
        }
    }

    fn setup_key(&mut self, key: &KeyEvent) -> (out: (KeyResult, Option<Lookup>))
        requires
            old(self).wf(),
        ensures
            (Outcome { next: final(self)@, result: out.0@, ask: lookup_view(out.1) })
                == old(self)@.setup_step(*key),
            final(self).wf(),
    {
        match self.setup.handle_key(key) {
            SetupWizardAction::Handled => (KeyResult::Handled, None),
            SetupWizardAction::Submit(t) => {
                self.clear();
                (submit_command(t), None)
            },
            SetupWizardAction::Close => {
                let ask = self.set_text("/setup");
                (KeyResult::Handled, lookup(ask))
            },
            SetupWizardAction::Resolve(name) => (KeyResult::Handled, Some(Lookup::Vendor(name))),
        }
    }

    fn picker_key(&mut self, key: &KeyEvent) -> (out: (KeyResult, Option<Lookup>))
        requires
            old(self).wf(),
        ensures
            (Outcome { next: final(self)@, result: out.0@, ask: lookup_view(out.1) })
                == old(self)@.picker_step(*key),
            final(self).wf(),
    {
        match self.model_picker.handle_key(key) {
            ModelPickerAction::Handled => (KeyResult::Handled, None),
            ModelPickerAction::Submit(t) => {
                self.clear();
                (submit_command(t), None)
            },
            ModelPickerAction::Close => {
                let ask = self.set_text("/model");
                (KeyResult::Handled, lookup(ask))
            },
        }
    }

    fn run_command(&mut self, t: String) -> (out: (KeyResult, Option<Lookup>))
        requires
            old(self).wf(),
        ensures
            (Outcome { next: final(self)@, result: out.0@, ask: lookup_view(out.1) })
                == old(self)@.command_step(t@),
            final(self).wf(),
    {
        if setup_opens(t.as_str()) {
            self.setup.open();
            let ask = self.set_text("/setup ");
            return (KeyResult::Action(Action::QuietSubmit(t)), lookup(ask));
        }
        match model_filter_from(t.as_str()) {
            Some(filter) => {
                self.model_picker.open(filter.as_str());
                let ask = self.set_text("/model ");
                if filter.as_str().is_empty() {
                    (KeyResult::Action(Action::QuietSubmit(t)), lookup(ask))
                } else {
                    (KeyResult::Handled, lookup(ask))
                }
            },
            None => {
                self.clear();
                (submit_command(t), None)
            },
        }
    }

    fn slash_action(&mut self, action: SlashCommandPopupAction) -> (out: (
        KeyResult,
        Option<Lookup>,
    ))
        requires
            old(self).wf(),
        ensures
            ({
                let made = Outcome {
                    next: final(self)@,
                    result: out.0@,
                    ask: lookup_view(out.1),
                };
                match action@ {
                    slash_command_popup::SlashActionView::Handled => made == old(self)@.done(
                        component::KeyResultView::Handled,
                    ),
                    slash_command_popup::SlashActionView::Fill(t) => made
                        == old(self)@.with_text(t).done_with(component::KeyResultView::Handled),
                    slash_command_popup::SlashActionView::Submit(t) => made
                        == old(self)@.command_step(t),
                }
            }),
            final(self).wf(),
    {
        match action {
            SlashCommandPopupAction::Handled => (KeyResult::Handled, None),
            SlashCommandPopupAction::Fill(t) => {
                let ask = self.set_text(t.as_str());
                (KeyResult::Handled, lookup(ask))
            },
            SlashCommandPopupAction::Submit(t) => self.run_command(t),
        }
    }

    fn enter(&mut self, busy: bool) -> (out: (KeyResult, Option<Lookup>))
        requires
            old(self).wf(),
        ensures
            (Outcome { next: final(self)@, result: out.0@, ask: lookup_view(out.1) })
                == old(self)@.enter_step(busy),
            final(self).wf(),
    {
        let whole = self.composer.text();
        let t = text::trim(whole.as_str());
        if t.as_str().is_empty() {
            return (KeyResult::Handled, None);
        }
        self.clear();
        if busy && !commands::is_model_or_setup(t.as_str()) {
            (KeyResult::Action(Action::Queue(t)), None)
        } else {
            (submit_command(t), None)
        }
    }

    /// Reacts to a key press, and says what has to be looked up because of it.
    /// The files of an open mention popup are those that were found last: where
    /// there is a file index, `refresh_popups` and its answer go before the key.
    pub fn handle_key(&mut self, key: &KeyEvent, state: &State) -> (out: (
        KeyResult,
        Option<Lookup>,
    ))
        requires
            old(self).wf(),
        ensures
            final(self).wf(),
            match old(self)@.refreshed().key_step(*key, state.busy) {
                Step::Done(outcome) => (Outcome {
                    next: final(self)@,
                    result: out.0@,
                    ask: lookup_view(out.1),
                }) == outcome,
                Step::Edit => {
                    let typed = InputData { edit: final(self)@.edit, ..old(self)@.refreshed() };
                    &&& final(self)@.edit == composer::pressed(old(self)@.edit, *key)
                    &&& composer::pressed_evenly(old(self)@.edit, *key, final(self)@.edit)
                    &&& final(self)@ == typed.refreshed()
                    &&& out.0@ == component::KeyResultView::Handled
                    &&& lookup_view(out.1) == typed.asks()
                },
            },
    {
        let _ = self.refresh_popups();
        let ghost v = self@;
        if self.setup.is_open() {
            return self.setup_key(key);
        }
        if self.model_picker.is_open() {
            return self.picker_key(key);
        }
        if self.slash_command.is_open() {
            let action = self.slash_command.handle_key(key);
            match action {
                Some(action) => {
                    assert(self@ =~= (InputData { slash: v.slash.after_key(*key), ..v }));
                    return self.slash_action(action);
                },
                None => {
                    assert(self@ =~= v);
                },
            }
        }
        if self.file_mention.is_open() {
            let action = self.file_mention.handle_key(key);
            match action {
                Some(FileMentionPopupAction::Handled) => {
                    return (KeyResult::Handled, None);
                },
                Some(FileMentionPopupAction::Fill { before, insert, after }) => {
                    assert(self@ =~= (InputData { mention: v.mention.after_key(*key), ..v }));
                    let ask = self.splice(before.as_str(), insert.as_str(), after.as_str());
                    return (KeyResult::Handled, lookup(ask));
                },
                None => {
                    assert(self@ =~= v);
                },
            }
        }
        match key.code {
            KeyCode::Enter => {
                if key.modifiers.alt {
                    self.composer.break_line();
                    return (KeyResult::Handled, None);
                }
                self.enter(state.busy)
            },
            _ => {
                self.composer.press(key);
                let ghost typed = self@;
                assert(typed =~= (InputData { edit: typed.edit, ..v }));
                let ask = self.refresh_popups();
                (KeyResult::Handled, lookup(ask))
            },
        }
    }
}

/// Bringing the popups up to date again changes nothing.
pub proof fn refreshing_is_idempotent(v: InputData)
    ensures
        v.refreshed().refreshed() == v.refreshed(),
{
    let once = v.refreshed();
    assert(once.slash.refreshed(v.edit.text()) =~= once.slash);
    assert(once.refreshed() =~= once);
}

/// A text that was set is read back as it was.
pub proof fn set_text_reads_back(v: InputData, t: Seq<char>)
    ensures
        v.with_text(t).refreshed().edit.text() == t,
        v.edit.wf() ==> v.with_text(t).edit.wf(),
{
    reveal_strlit("\n");
    text::join_undoes_split(t, '\n');
    text::lemma_split_has_no_separator(t, '\n');
    assert("\n"@ =~= seq!['\n']);
}

/// Where a slash command is typed, no mention popup is open.
pub proof fn commands_cover_mentions(v: InputData)
    ensures
        v.refreshed().slash.open ==> !v.refreshed().mention.is_open(),
        v.refreshed().overlay() is Mention ==> !slash_command_popup::is_command(v.edit.text()),
{
}

/// Enter hands out the whole text, without the whitespace around it, or leaves
/// the input line as it is.
pub proof fn enter_loses_nothing(v: InputData, busy: bool)
    ensures
        v.enter_step(busy).next == v || v.enter_step(busy).next == v.cleared(),
        v.enter_step(busy).next != v.cleared() ==> text::trimmed(v.edit.text()).len() == 0,
        match v.enter_step(busy).result {
            component::KeyResultView::Action(component::ActionView::Queue(t)) => busy && t
                == text::trimmed(v.edit.text()),
            component::KeyResultView::Action(component::ActionView::Submit(t)) => !busy && t
                == text::trimmed(v.edit.text()),
            component::KeyResultView::Action(component::ActionView::QuietSubmit(t)) => t
                == text::trimmed(v.edit.text()) && commands::is_quiet(t),
            component::KeyResultView::Handled => v.enter_step(busy).next == v,
            _ => false,
        },
{
}

/// While the wizard or the picker is open, no key and no paste changes the
/// text under it, unless the key closes it.
pub proof fn modal_popups_freeze_the_text(v: InputData, key: KeyEvent, t: Seq<char>, busy: bool)
    requires
        v.setup.open || v.picker.open,
    ensures
        v.pasted(t).edit == v.edit,
        v.key_step(key, busy) matches Step::Done(outcome) && (outcome.next.edit == v.edit || (
        if v.setup.open {
            !outcome.next.setup.open
        } else {
            !outcome.next.picker.open
        })),
{
}

proof fn lemma_line_end_at(s: Seq<char>, p: nat, e: nat)
    requires
        p <= e <= s.len(),
        forall|i: int| p <= i < e ==> s[i] != '\n',
        e == s.len() || s[e as int] == '\n',
    ensures
        line_end(s, p) == e,
    decreases e - p,
{
    if p < e {
        assert(s[p as int] != '\n');
        lemma_line_end_at(s, p + 1, e);
    }
}

/// What stands before the start of a line.
pub open spec fn above_line(lines: Seq<Seq<char>>, row: int) -> Seq<char> {
    text::joined(lines.take(row).push(Seq::empty()), "\n"@)
}

proof fn lemma_line_parts(lines: Seq<Seq<char>>, row: int)
    requires
        0 <= row < lines.len(),
        composer::unbroken(lines),
    ensures
        ({
            let s = text::joined(lines, "\n"@);
            let p = above_line(lines, row).len();
            let e = p + lines[row].len();
            &&& e <= s.len()
            &&& s.take(p as int) == above_line(lines, row)
            &&& s.subrange(p as int, e as int) == lines[row]
            &&& line_end(s, p) == e
            &&& (e < s.len() <==> row + 1 < lines.len())
            &&& row + 1 < lines.len() ==> above_line(lines, row + 1).len() == e + 1
        }),
{
    reveal_strlit("\n");
    let sep = "\n"@;
    let s = text::joined(lines, sep);
    let line = lines[row];
    let none = Seq::<char>::empty();
    let above = lines.take(row);
    let below = lines.skip(row + 1);
    let head = above_line(lines, row);
    assert(lines =~= above.push(none + line) + below) by {
        assert(none + line =~= line);
    }
    text::lemma_joined_cut(above, none, line, below, sep);
    text::lemma_joined_cut(Seq::empty(), line, none, below, sep);
    let tail = text::joined(seq![none] + below, sep);
    assert(line + none =~= line);
    assert(Seq::empty().push(line) + below =~= seq![line] + below);
    assert(Seq::empty().push(line) =~= seq![line]);
    assert(seq![line].drop_last() =~= Seq::empty());
    assert(text::joined(seq![line], sep) =~= line);
    assert(s == head + (line + tail));
    if below.len() == 0 {
        assert(seq![none] + below =~= seq![none]);
        assert(tail =~= none);
    } else {
        let rest = below.skip(1);
        let first = below[0];
        assert(seq![none] + below =~= seq![none].push(none + first) + rest) by {
            assert(none + first =~= first);
        }
        text::lemma_joined_cut(seq![none], none, first, rest, sep);
        let pair = seq![none].push(none);
        assert(pair.drop_last() =~= seq![none]);
        assert(text::joined(seq![none], sep) =~= none) by {
            assert(seq![none].drop_last() =~= Seq::empty());
        }
        assert(text::joined(pair, sep) =~= sep);
        assert(tail[0] == '\n');
        let next = lines.take(row + 1).push(none);
        assert(next.drop_last() =~= lines.take(row + 1));
        assert(lines.take(row + 1) =~= above.push(none + line)) by {
            assert(none + line =~= line);
        }
        text::lemma_joined_cut(above, none, line, Seq::empty(), sep);
        assert(above.push(none + line) + Seq::empty() =~= above.push(none + line));
        assert(seq![line] + Seq::empty() =~= seq![line]);
        assert(text::joined(lines.take(row + 1), sep) == head + line);
        assert(above_line(lines, row + 1) =~= head + line + sep + none);
    }
    let p = head.len();
    let e = p + line.len();
    assert(s.take(p as int) =~= head);
    assert(s.subrange(p as int, e as int) =~= line);
    assert forall|i: int| p <= i < e implies s[i] != '\n' by {
        assert(s[i] == line[i - p]);
        assert(line.contains(line[i - p]));
    }
    lemma_line_end_at(s, p, e);
}

proof fn lemma_line_start_at(lines: Seq<Seq<char>>, row: nat)
    requires
        row < lines.len(),
        composer::unbroken(lines),
    ensures
        line_start(text::joined(lines, "\n"@), row) == Some(above_line(lines, row as int).len()),
    decreases row,
{
    if row == 0 {
        assert(lines.take(0).push(Seq::empty()).drop_last() =~= Seq::empty());
        assert(above_line(lines, 0) =~= Seq::<char>::empty());
    } else {
        lemma_line_start_at(lines, (row - 1) as nat);
        lemma_line_parts(lines, row - 1);
    }
}

/// The cursor's place in the text: what stands before it is what the lines hold
/// up to it.
pub proof fn the_cursor_parts_the_text(e: EditView)
    requires
        e.wf(),
    ensures
        ({
            let at = cursor_char(e.text(), e.row, e.col);
            &&& at <= e.text().len()
            &&& e.text().take(at as int) == composer::text_before(e)
            &&& e.text().skip(at as int) == composer::text_behind(e)
            &&& byte_at(e.text(), e.row, e.col) == text::byte_len(composer::text_before(e))
        }),
{
    let sep = "\n"@;
    let none = Seq::<char>::empty();
    let above = e.lines.take(e.row as int);
    let below = e.lines.skip(e.row as int + 1);
    let head = e.line().take(e.col as int);
    let tail = e.line().skip(e.col as int);
    assert(head + tail =~= e.line());
    assert(e.lines =~= above.push(head + tail) + below);
    text::lemma_joined_cut(above, head, tail, below, sep);
    assert(none + head =~= head);
    text::lemma_joined_cut(above, none, head, Seq::empty(), sep);
    assert(above.push(head) + Seq::empty() =~= above.push(head));
    assert(seq![head] + Seq::empty() =~= seq![head]);
    assert(text::joined(seq![head], sep) =~= head) by {
        assert(seq![head].drop_last() =~= Seq::empty());
    }
    lemma_line_parts(e.lines, e.row as int);
    lemma_line_start_at(e.lines, e.row);
    let at = cursor_char(e.text(), e.row, e.col);
    assert(composer::text_before(e) == above_line(e.lines, e.row as int) + head);
    assert(at == composer::text_before(e).len());
    assert(e.text() == composer::text_before(e) + composer::text_behind(e));
    assert(e.text().take(at as int) =~= composer::text_before(e));
    assert(e.text().skip(at as int) =~= composer::text_behind(e));
}

/// The border takes one cell on each side of the input line, and without room for
/// it the line takes the whole area.
pub proof fn the_border_surrounds_the_line(area: Rect)
    requires
        area.x + area.width <= u16::MAX,
        area.y + area.height <= u16::MAX,
    ensures
        ({
            let inside = inner_area(area);
            &&& fits_border(area) ==> inside.x == area.x + 1 && inside.y == area.y + 1
            &&& fits_border(area) ==> inside.x + inside.width + 1 == area.x + area.width
            &&& fits_border(area) ==> inside.y + inside.height + 1 == area.y + area.height
            &&& fits_border(area) ==> inside.width > PROMPT_COLS && inside.height > 0
            &&& !fits_border(area) ==> inside == area
        }),
{
}

/// The line of a busy session has a mark of its own.
pub proof fn the_mark_tells_a_busy_session(busy: bool)
    ensures
        prompt_mark(busy) != prompt_mark(!busy),
        prompt_mark(busy).len() == PROMPT_COLS,
{
    reveal_strlit("⋅ ");
    reveal_strlit("› ");
    assert("⋅ "@[0] != "› "@[0]);
}

} // verus!
