//! The picker of a model and its reasoning effort.
use vstd::prelude::*;
use vstd::string::*;

use super::event;
use super::list;
use super::list::MAX_LIST_ROWS;
use super::slash_command_popup;
use super::theme;
use crate::keys::{KeyCode, KeyEvent};
use crate::seqs;
use crate::style::{Line, Style};
use crate::style;
use crate::text;

verus! {

broadcast use crate::seqs::views_push;

/// Result of a key consumed by the model picker.
#[derive(Debug)]
pub enum ModelPickerAction {
    /// The key was consumed without filling or submitting.
    Handled,
    /// Submit the composed `/model` command.
    Submit(String),
    /// Close the picker and restore the input line.
    Close,
}

/// What a key press did to the picker.
pub enum PickerActionView {
    Handled,
    Submit(Seq<char>),
    Close,
}

impl View for ModelPickerAction {
    type V = PickerActionView;

    open spec fn view(&self) -> PickerActionView {
        match self {
            ModelPickerAction::Handled => PickerActionView::Handled,
            ModelPickerAction::Submit(t) => PickerActionView::Submit(t@),
            ModelPickerAction::Close => PickerActionView::Close,
        }
    }
}

/// What the picker asks for.
#[derive(Clone, Copy, Debug, PartialEq, Eq, Structural)]
pub enum PickerStage {
    Models,
    Effort,
}

/// Reasoning efforts to choose from.
pub const EFFORT_COUNT: usize = 5;

/// The name and the description of the effort at a place of the list.
pub open spec fn effort_item(i: nat) -> (Seq<char>, Seq<char>) {
    if i == 0 {
        ("none"@, "Disable reasoning"@)
    } else if i == 1 {
        ("low"@, "Low reasoning effort"@)
    } else if i == 2 {
        ("medium"@, "Medium reasoning effort"@)
    } else if i == 3 {
        ("high"@, "High reasoning effort"@)
    } else {
        ("keep current"@, "Keep the current reasoning effort"@)
    }
}

/// The name and the description of the effort at a place of the list. The last
/// one keeps the effort as it is.
pub fn effort(i: usize) -> (item: (&'static str, &'static str))
    ensures
        item.0@ == effort_item(i as nat).0,
        item.1@ == effort_item(i as nat).1,
{
    if i == 0 {
        ("none", "Disable reasoning")
    } else if i == 1 {
        ("low", "Low reasoning effort")
    } else if i == 2 {
        ("medium", "Medium reasoning effort")
    } else if i == 3 {
        ("high", "High reasoning effort")
    } else {
        ("keep current", "Keep the current reasoning effort")
    }
}

/// Modal two-stage picker for `/model`: filter and select a model, then pick a
/// reasoning effort. It owns the keyboard while open.
pub struct ModelPicker {
    models: Vec<(String, String)>,
    filter: String,
    stage: PickerStage,
    selected: usize,
    model: Option<String>,
    open: bool,
}

/// What the picker holds.
#[verifier::ext_equal]
pub struct PickerView {
    pub models: Seq<(Seq<char>, Seq<char>)>,
    pub filter: Seq<char>,
    pub stage: PickerStage,
    pub selected: nat,
    pub model: Option<Seq<char>>,
    pub open: bool,
}

impl View for ModelPicker {
    type V = PickerView;

    closed spec fn view(&self) -> PickerView {
        PickerView {
            models: list::pair_views(self.models@),
            filter: self.filter@,
            stage: self.stage,
            selected: self.selected as nat,
            model: event::text_view(self.model),
            open: self.open,
        }
    }
}

/// Whether a key types a character: no modifier but Shift is held.
pub open spec fn types(key: KeyEvent) -> Option<char> {
    match key.code {
        KeyCode::Char(c) => if key.modifiers.control || key.modifiers.alt || key.modifiers.logo {
            None
        } else {
            Some(c)
        },
        _ => None,
    }
}

/// The character that a key types, if no modifier but Shift is held.
pub fn typing_char(key: &KeyEvent) -> (c: Option<char>)
    ensures
        c == types(*key),
{
    match key.code {
        KeyCode::Char(c) => if key.modifiers.control || key.modifiers.alt || key.modifiers.logo {
            None
        } else {
            Some(c)
        },
        _ => None,
    }
}

/// Where the first model with a name stands, from `i` on.
pub open spec fn find_model(
    models: Seq<(Seq<char>, Seq<char>)>,
    name: Option<Seq<char>>,
    i: nat,
) -> nat
    decreases models.len() - i,
{
    if i >= models.len() {
        0
    } else if name == Some(models[i as int].0) {
        i
    } else {
        find_model(models, name, i + 1)
    }
}

impl PickerView {
    /// Whether the selected effort is one of the list.
    pub open spec fn wf(self) -> bool {
        self.stage is Effort ==> self.selected < EFFORT_COUNT
    }

    /// The models that fit the filter.
    pub open spec fn fitting(self) -> Seq<usize> {
        list::prefix_matches(list::names_of(self.models), self.filter)
    }

    /// The entries of the list that is shown.
    pub open spec fn matches(self) -> Seq<usize> {
        match self.stage {
            PickerStage::Models => self.fitting(),
            PickerStage::Effort => Seq::new(EFFORT_COUNT as nat, |i: int| i as usize),
        }
    }

    /// The picker after it was closed.
    pub open spec fn closed_picker(self) -> Self {
        PickerView {
            models: self.models,
            filter: Seq::empty(),
            stage: PickerStage::Models,
            selected: 0,
            model: None,
            open: false,
        }
    }

    /// The picker after it was opened with a filter.
    pub open spec fn opened(self, filter: Seq<char>) -> Self {
        PickerView {
            models: self.models,
            filter: text::lowered(text::trimmed(filter)),
            stage: PickerStage::Models,
            selected: 0,
            model: None,
            open: true,
        }
    }

    /// The picker with other models.
    pub open spec fn with_models(self, models: Seq<(Seq<char>, Seq<char>)>) -> Self {
        PickerView {
            models,
            selected: if self.stage is Models {
                0
            } else {
                self.selected
            },
            ..self
        }
    }

    /// The picker after a paste: without whitespace, in lower case.
    pub open spec fn pasted(self, t: Seq<char>) -> Self {
        let cleaned = text::unspaced(t);
        if self.stage is Effort || cleaned.len() == 0 {
            self
        } else {
            PickerView { filter: self.filter + text::lowered(cleaned), selected: 0, ..self }
        }
    }

    /// The command that the selected effort makes.
    pub open spec fn command(self) -> Seq<char> {
        let line = "/model "@ + self.model->0;
        if self.selected == EFFORT_COUNT - 1 {
            line
        } else {
            line + " "@ + effort_item(self.selected).0
        }
    }

    /// The picker after a key press in the list of models.
    pub open spec fn after_models_key(self, key: KeyEvent) -> Self {
        match types(key) {
            Some(c) => PickerView { filter: self.filter.push(c), selected: 0, ..self },
            None => match key.code {
                KeyCode::Backspace => PickerView {
                    filter: text::shortened(self.filter),
                    selected: 0,
                    ..self
                },
                KeyCode::Up => PickerView {
                    selected: list::cycled(self.selected, self.fitting().len(), true),
                    ..self
                },
                KeyCode::Down => PickerView {
                    selected: list::cycled(self.selected, self.fitting().len(), false),
                    ..self
                },
                KeyCode::Enter => if key.modifiers.is_empty() && self.selected
                    < self.fitting().len() {
                    PickerView {
                        model: Some(self.models[self.fitting()[self.selected as int] as int].0),
                        stage: PickerStage::Effort,
                        selected: 0,
                        ..self
                    }
                } else {
                    self
                },
                KeyCode::Esc => self.closed_picker(),
                _ => self,
            },
        }
    }

    /// The picker after a key press in the list of efforts.
    pub open spec fn after_effort_key(self, key: KeyEvent) -> Self {
        match key.code {
            KeyCode::Up => PickerView {
                selected: list::cycled(self.selected, EFFORT_COUNT as nat, true),
                ..self
            },
            KeyCode::Down => PickerView {
                selected: list::cycled(self.selected, EFFORT_COUNT as nat, false),
                ..self
            },
            KeyCode::Enter => if key.modifiers.is_empty() && self.model is Some {
                self.closed_picker()
            } else {
                self
            },
            KeyCode::Esc => PickerView {
                stage: PickerStage::Models,
                model: None,
                filter: Seq::empty(),
                selected: find_model(self.models, self.model, 0),
                ..self
            },
            _ => self,
        }
    }

    /// The picker after a key press.
    pub open spec fn after_key(self, key: KeyEvent) -> Self {
        match self.stage {
            PickerStage::Models => self.after_models_key(key),
            PickerStage::Effort => self.after_effort_key(key),
        }
    }

    /// The picker after some key presses.
    pub open spec fn after_keys(self, keys: Seq<KeyEvent>) -> Self
        decreases keys.len(),
    {
        if keys.len() == 0 {
            self
        } else {
            self.after_keys(keys.drop_last()).after_key(keys.last())
        }
    }

    /// What a key press asks for.
    pub open spec fn answer(self, key: KeyEvent) -> PickerActionView {
        match self.stage {
            PickerStage::Models => if key.code is Esc {
                PickerActionView::Close
            } else {
                PickerActionView::Handled
            },
            PickerStage::Effort => if key.code is Enter && key.modifiers.is_empty()
                && self.model is Some {
                PickerActionView::Submit(self.command())
            } else {
                PickerActionView::Handled
            },
        }
    }

    /// Rows that the picker takes.
    pub open spec fn rows(self) -> nat {
        if !self.open {
            0
        } else if self.stage is Models {
            list::bounded(self.fitting().len()) + 1
        } else {
            EFFORT_COUNT as nat
        }
    }

    /// The models that the picker lists.
    pub open spec fn entries(self) -> Seq<(Seq<char>, Seq<char>)> {
        let n = if self.fitting().len() <= MAX_LIST_ROWS {
            self.fitting().len()
        } else {
            MAX_LIST_ROWS as nat
        };
        Seq::new(n, |i: int| self.models[self.fitting()[i] as int])
    }

    /// The lines that the picker is drawn as: the filter and the models that
    /// fit, or the efforts.
    pub open spec fn drawn(self) -> Seq<Seq<style::SpanView>> {
        match self.stage {
            PickerStage::Models => seq![
                seq![
                    style::SpanView { text: "filter: "@, style: theme::dim() },
                    style::SpanView { text: self.filter, style: Style::plain() },
                ],
            ] + (if self.fitting().len() == 0 {
                slash_command_popup::empty_note("no matching models"@)
            } else {
                list::plain_choices(self.entries(), self.selected)
            }),
            PickerStage::Effort => list::plain_choices(
                Seq::new(EFFORT_COUNT as nat, |i: int| effort_item(i as nat)),
                self.selected,
            ),
        }
    }
}

impl ModelPicker {
    /// A closed picker of the given models.
    pub fn new(models: Vec<(String, String)>) -> (p: Self)
        ensures
            p@ == (PickerView {
                models: list::pair_views(models@),
                filter: Seq::empty(),
                stage: PickerStage::Models,
                selected: 0,
                model: None,
                open: false,
            }),
            p@.wf(),
    {
        ModelPicker {
            models,
            filter: String::new(),
            stage: PickerStage::Models,
            selected: 0,
            model: None,
            open: false,
        }
    }

    /// Whether the picker is open.
    pub fn is_open(&self) -> (yes: bool)
        ensures
            yes == self@.open,
    {
        self.open
    }

    /// What the models are filtered by.
    pub fn filter(&self) -> (out: &str)
        ensures
            out@ == self@.filter,
    {
        self.filter.as_str()
    }

    /// Replaces the model list (e.g. after a provider switch).
    pub fn update_models(&mut self, models: Vec<(String, String)>)
        ensures
            final(self)@ == old(self)@.with_models(list::pair_views(models@)),
            old(self)@.wf() ==> final(self)@.wf(),
    {
        self.models = models;
        match self.stage {
            PickerStage::Models => {
                self.selected = 0;
            },
            PickerStage::Effort => {},
        }
    }

    /// Opens the picker, with the filter from the typed fragment.
    pub fn open(&mut self, filter: &str)
        ensures
            final(self)@ == old(self)@.opened(filter@),
            text::lowers_by_letter(text::trimmed(filter@)),
            final(self)@.wf(),
    {
        self.open = true;
        self.stage = PickerStage::Models;
        let trimmed = text::trim(filter);
        self.filter = text::to_lower(trimmed.as_str());
        self.model = None;
        self.selected = 0;
    }

    /// Closes the picker.
    pub fn close(&mut self)
        ensures
            final(self)@ == old(self)@.closed_picker(),
            final(self)@.wf(),
    {
        self.open = false;
        self.stage = PickerStage::Models;
        self.filter = String::new();
        self.model = None;
        self.selected = 0;
    }

    fn fitting(&self) -> (out: Vec<usize>)
        ensures
            out@ == self@.fitting(),
            forall|i: int| 0 <= i < out@.len() ==> #[trigger] out@[i] < self@.models.len(),
    {
        list::find_prefix_matches(&self.models, self.filter.as_str())
    }

    /// The entries of the list that is shown: the models that fit the filter, or
    /// the efforts.
    pub fn matches(&self) -> (out: Vec<usize>)
        ensures
            out@ == self@.matches(),
    {
        match self.stage {
            PickerStage::Models => self.fitting(),
            PickerStage::Effort => {
                let out: Vec<usize> = vec![0, 1, 2, 3, 4];
                assert(out@ =~= self@.matches());
                out
            },
        }
    }

    /// Rows that the picker takes, none while it is closed.
    pub fn height(&self) -> (rows: u16)
        ensures
            rows == self@.rows(),
    {
        if !self.open {
            return 0;
        }
        match self.stage {
            PickerStage::Models => list::bounded_rows(self.fitting().len()) + 1,
            PickerStage::Effort => EFFORT_COUNT as u16,
        }
    }

    /// The lines of the open picker.
    pub fn lines(&self) -> (out: Vec<Line>)
        ensures
            seqs::views(out@) == self@.drawn(),
    {
        match self.stage {
            PickerStage::Models => {
                let mut out = vec![
                    Line::pair(
                        "filter: ".to_owned(),
                        theme::dim(),
                        self.filter.clone(),
                        Style::plain(),
                    ),
                ];
                let mut rest = self.model_lines();
                let ghost a = out@;
                let ghost b = rest@;
                out.append(&mut rest);
                assert(seqs::views(a + b) =~= self@.drawn());
                out
            },
            PickerStage::Effort => {
                let mut items: Vec<(String, String)> = Vec::new();
                let ghost all = Seq::new(EFFORT_COUNT as nat, |i: int| effort_item(i as nat));
                let mut i: usize = 0;
                while i < EFFORT_COUNT
                    invariant
                        i <= EFFORT_COUNT,
                        items@.len() == i,
                        all == Seq::new(EFFORT_COUNT as nat, |i: int| effort_item(i as nat)),
                        forall|j: int| 0 <= j < i ==> list::pair_views(items@)[j] == all[j],
                    decreases EFFORT_COUNT - i,
                {
                    let item = effort(i);
                    items.push((item.0.to_owned(), item.1.to_owned()));
                    i += 1;
                }
                assert(list::pair_views(items@) =~= all);
                list::plain_choice_lines(&items, self.selected)
            },
        }
    }

    fn model_lines(&self) -> (out: Vec<Line>)
        ensures
            seqs::views(out@) == (if self@.fitting().len() == 0 {
                slash_command_popup::empty_note("no matching models"@)
            } else {
                list::plain_choices(self@.entries(), self@.selected)
            }),
    {
        let matches = self.fitting();
        if matches.len() == 0 {
            let out = vec![Line::of("no matching models".to_owned(), theme::dim())];
            assert(seqs::views(out@) =~= slash_command_popup::empty_note("no matching models"@));
            return out;
        }
        let n: usize = if matches.len() <= MAX_LIST_ROWS {
            matches.len()
        } else {
            MAX_LIST_ROWS
        };
        let mut items: Vec<(String, String)> = Vec::new();
        let mut i: usize = 0;
        while i < n
            invariant
                i <= n == self@.entries().len(),
                n <= matches@.len(),
                matches@ == self@.fitting(),
                forall|j: int|
                    0 <= j < matches@.len() ==> #[trigger] matches@[j] < self@.models.len(),
                items@.len() == i,
                forall|j: int| 0 <= j < i ==> list::pair_views(items@)[j] == self@.entries()[j],
            decreases n - i,
        {
            let idx: usize = matches[i];
            items.push((self.models[idx].0.clone(), self.models[idx].1.clone()));
            i += 1;
        }
        assert(list::pair_views(items@) =~= self@.entries());
        list::plain_choice_lines(&items, self.selected)
    }

    /// Takes pasted text as a part of the filter.
    pub fn paste(&mut self, t: &str)
        ensures
            final(self)@ == old(self)@.pasted(t@),
            old(self)@.stage is Models && text::unspaced(t@).len() > 0 ==> text::lowers_by_letter(
                text::unspaced(t@),
            ),
            old(self)@.wf() ==> final(self)@.wf(),
    {
        match self.stage {
            PickerStage::Effort => {
                return ;
            },
            PickerStage::Models => {},
        }
        let cleaned = text::strip_whitespace(t);
        if cleaned.as_str().is_empty() {
            return ;
        }
        let low = text::to_lower(cleaned.as_str());
        self.filter.append(low.as_str());
        self.selected = 0;
    }

    fn handle_models_key(&mut self, key: &KeyEvent) -> (action: ModelPickerAction)
        requires
            old(self)@.stage is Models,
        ensures
            final(self)@ == old(self)@.after_models_key(*key),
            action@ == old(self)@.answer(*key),
            final(self)@.wf(),
    {
        if let Some(c) = typing_char(key) {
            self.filter.push(c);
            self.selected = 0;
            return ModelPickerAction::Handled;
        }
        match key.code {
            KeyCode::Backspace => {
                self.filter = text::drop_last_char(self.filter.as_str());
                self.selected = 0;
                ModelPickerAction::Handled
            },
            KeyCode::Up => {
                let n: usize = self.fitting().len();
                list::cycle_selected(&mut self.selected, n, true);
                assert(self@ =~= old(self)@.after_models_key(*key));
                ModelPickerAction::Handled
            },
            KeyCode::Down => {
                let n: usize = self.fitting().len();
                list::cycle_selected(&mut self.selected, n, false);
                assert(self@ =~= old(self)@.after_models_key(*key));
                ModelPickerAction::Handled
            },
            KeyCode::Enter => {
                if key.modifiers.is_empty() {
                    let matches = self.fitting();
                    if self.selected < matches.len() {
                        let idx: usize = matches[self.selected];
                        self.model = Some(self.models[idx].0.clone());
                        self.stage = PickerStage::Effort;
                        self.selected = 0;
                    }
                }
                ModelPickerAction::Handled
            },
            KeyCode::Esc => {
                self.close();
                ModelPickerAction::Close
            },
            _ => ModelPickerAction::Handled,
        }
    }

    fn chosen_place(&self) -> (at: usize)
        ensures
            at == find_model(self@.models, self@.model, 0),
    {
        let mut i: usize = 0;
        while i < self.models.len()
            invariant
                i <= self.models@.len(),
                find_model(self@.models, self@.model, 0) == find_model(
                    self@.models,
                    self@.model,
                    i as nat,
                ),
            decreases self.models.len() - i,
        {
            let here = match &self.model {
                Some(name) => text::same_text(self.models[i].0.as_str(), name.as_str()),
                None => false,
            };
            if here {
                return i;
            }
            i += 1;
        }
        0
    }

    fn handle_effort_key(&mut self, key: &KeyEvent) -> (action: ModelPickerAction)
        requires
            old(self)@.stage is Effort,
            old(self)@.wf(),
        ensures
            final(self)@ == old(self)@.after_effort_key(*key),
            action@ == old(self)@.answer(*key),
            final(self)@.wf(),
    {
        match key.code {
            KeyCode::Up => {
                list::cycle_selected(&mut self.selected, EFFORT_COUNT, true);
                assert(self@ =~= old(self)@.after_effort_key(*key));
                ModelPickerAction::Handled
            },
            KeyCode::Down => {
                list::cycle_selected(&mut self.selected, EFFORT_COUNT, false);
                assert(self@ =~= old(self)@.after_effort_key(*key));
                ModelPickerAction::Handled
            },
            KeyCode::Enter => {
                if !key.modifiers.is_empty() {
                    return ModelPickerAction::Handled;
                }
                let mut line = "/model ".to_owned();
                match &self.model {
                    Some(name) => line.append(name.as_str()),
                    None => {
                        return ModelPickerAction::Handled;
                    },
                }
                if self.selected != EFFORT_COUNT - 1 {
                    line.append(" ");
                    line.append(effort(self.selected).0);
                }
                self.close();
                ModelPickerAction::Submit(line)
            },
            KeyCode::Esc => {
                let back: usize = self.chosen_place();
                self.stage = PickerStage::Models;
                self.model = None;
                self.filter = String::new();
                self.selected = back;
                ModelPickerAction::Handled
            },
            _ => ModelPickerAction::Handled,
        }
    }

    /// Handles keys while the picker is open. Every key is consumed, so the
    /// frozen input line is never edited.
    pub fn handle_key(&mut self, key: &KeyEvent) -> (action: ModelPickerAction)
        requires
            old(self)@.wf(),
        ensures
            final(self)@ == old(self)@.after_key(*key),
            action@ == old(self)@.answer(*key),
            final(self)@.wf(),
    {
        match self.stage {
            PickerStage::Models => self.handle_models_key(key),
            PickerStage::Effort => self.handle_effort_key(key),
        }
    }
}

/// Going back from the efforts, whichever of them was selected, selects the
/// model again that was chosen, in the list of all models.
pub proof fn going_back_finds_the_model(
    v: PickerView,
    enter: KeyEvent,
    arrows: Seq<KeyEvent>,
    esc: KeyEvent,
)
    requires
        v.stage is Models,
        v.selected < v.fitting().len(),
        v.models.len() <= usize::MAX,
        enter.code is Enter,
        enter.modifiers.is_empty(),
        forall|i: int|
            0 <= i < arrows.len() ==> (#[trigger] arrows[i]).code is Up || arrows[i].code is Down,
        esc.code is Esc,
    ensures
        v.after_key(enter).stage is Effort,
        ({
            let efforts = v.after_key(enter).after_keys(arrows);
            let back = efforts.after_key(esc);
            &&& efforts.answer(esc) is Handled
            &&& back.stage is Models
            &&& back.open == v.open
            &&& back.models == v.models
            &&& back.filter.len() == 0
            &&& back.matches() == Seq::new(v.models.len(), |i: int| i as usize)
            &&& back.selected < v.models.len()
            &&& v.models[back.selected as int].0
                == v.models[v.fitting()[v.selected as int] as int].0
        }),
{
    let names = list::names_of(v.models);
    lemma_matches_in_range(names, v.filter);
    let at = v.fitting()[v.selected as int];
    let name = Some(v.models[at as int].0);
    lemma_find_model(v.models, name, 0, at as nat);
    lemma_arrows_keep_the_model(v.after_key(enter), arrows);
    lemma_all_match(names);
}

proof fn lemma_arrows_keep_the_model(v: PickerView, arrows: Seq<KeyEvent>)
    requires
        v.stage is Effort,
        forall|i: int|
            0 <= i < arrows.len() ==> (#[trigger] arrows[i]).code is Up || arrows[i].code is Down,
    ensures
        v.after_keys(arrows) == (PickerView { selected: v.after_keys(arrows).selected, ..v }),
    decreases arrows.len(),
{
    if arrows.len() > 0 {
        assert(arrows.last() == arrows[arrows.len() - 1]);
        assert forall|i: int| 0 <= i < arrows.drop_last().len() implies (
        #[trigger] arrows.drop_last()[i]).code is Up || arrows.drop_last()[i].code is Down by {
            assert(arrows.drop_last()[i] == arrows[i]);
        }
        lemma_arrows_keep_the_model(v, arrows.drop_last());
    }
}

proof fn lemma_all_match(names: Seq<Seq<char>>)
    requires
        names.len() <= usize::MAX,
    ensures
        list::prefix_matches(names, Seq::empty()) =~= Seq::new(names.len(), |i: int| i as usize),
    decreases names.len(),
{
    if names.len() > 0 {
        lemma_all_match(names.drop_last());
        let none = Seq::<char>::empty();
        assert(text::lowered(names.last()).subrange(0, 0) =~= none);
        assert(none.is_prefix_of(text::lowered(names.last())));
    }
}

proof fn lemma_matches_in_range(names: Seq<Seq<char>>, prefix: Seq<char>)
    requires
        names.len() <= usize::MAX,
    ensures
        forall|i: int|
            0 <= i < list::prefix_matches(names, prefix).len() ==> #[trigger] list::prefix_matches(
                names,
                prefix,
            )[i] < names.len(),
    decreases names.len(),
{
    if names.len() > 0 {
        let before = list::prefix_matches(names.drop_last(), prefix);
        lemma_matches_in_range(names.drop_last(), prefix);
        assert forall|i: int|
            0 <= i < list::prefix_matches(names, prefix).len() implies #[trigger] list::prefix_matches(
            names,
            prefix,
        )[i] < names.len() by {
            if i < before.len() {
                assert(before[i] < names.len());
            }
        }
    }
}

proof fn lemma_find_model(
    models: Seq<(Seq<char>, Seq<char>)>,
    name: Option<Seq<char>>,
    i: nat,
    at: nat,
)
    requires
        i <= at < models.len(),
        name == Some(models[at as int].0),
    ensures
        find_model(models, name, i) < models.len(),
        name == Some(models[find_model(models, name, i) as int].0),
    decreases models.len() - i,
{
    if name != Some(models[i as int].0) {
        lemma_find_model(models, name, i + 1, at);
    }
}

/// The picker's list of efforts marks one row. Taking it submits the command that
/// names the model that was taken, and the effort that the marked row names; the
/// last row keeps the effort and adds none to the command.
pub proof fn the_marked_effort_is_submitted(v: PickerView, enter: KeyEvent, i: int)
    requires
        v.stage is Effort,
        v.wf(),
        v.model is Some,
        enter.code is Enter,
        enter.modifiers.is_empty(),
        0 <= i < v.drawn().len(),
        v.drawn()[i][0].style == theme::accent(),
    ensures
        v.drawn().len() == 5,
        i == v.selected,
        i < 4 ==> v.answer(enter) == PickerActionView::Submit(
            "/model "@ + v.model->0 + " "@ + v.drawn()[i][0].text,
        ),
        i == 4 ==> v.answer(enter) == PickerActionView::Submit("/model "@ + v.model->0),
        i == 4 ==> v.drawn()[i][0].text == "keep current"@,
        !v.after_key(enter).open,
{
    let items = Seq::new(EFFORT_COUNT as nat, |k: int| effort_item(k as nat));
    list::lists_show_their_entries(items, v.selected, i);
}

/// One row of the efforts is marked, and the arrows move the mark by one row,
/// around the ends.
pub proof fn arrows_move_the_marked_effort(v: PickerView, up: KeyEvent, down: KeyEvent)
    requires
        v.stage is Effort,
        v.wf(),
        up.code is Up,
        down.code is Down,
    ensures
        v.drawn()[v.selected as int][0].style == theme::accent(),
        ({
            let next = v.after_key(down);
            let at = if v.selected < 4 {
                v.selected + 1
            } else {
                0
            };
            &&& next.drawn()[at as int][0].style == theme::accent()
            &&& next.wf()
            &&& next == PickerView { selected: next.selected, ..v }
        }),
        ({
            let next = v.after_key(up);
            let at = if v.selected > 0 {
                v.selected - 1
            } else {
                4
            };
            &&& next.drawn()[at as int][0].style == theme::accent()
            &&& next.wf()
            &&& next == PickerView { selected: next.selected, ..v }
        }),
{
    list::cycling_moves_by_one(v.selected, EFFORT_COUNT as nat);
}

/// Taking a model takes the one that the marked row names, and asks for the
/// effort next, with the first effort marked.
pub proof fn the_marked_model_is_taken(v: PickerView, enter: KeyEvent, i: int)
    requires
        v.stage is Models,
        v.fitting().len() > 0,
        enter.code is Enter,
        enter.modifiers.is_empty(),
        1 <= i < v.drawn().len(),
        v.drawn()[i][0].style == theme::accent(),
    ensures
        v.after_key(enter).model == Some(v.drawn()[i][0].text),
        v.after_key(enter).stage is Effort,
        v.after_key(enter).selected == 0,
        v.after_key(enter).models == v.models,
        v.after_key(enter).open == v.open,
        v.answer(enter) is Handled,
{
    list::lists_show_their_entries(v.entries(), v.selected, i - 1);
}

/// The rows under the filter show models whose names start with what was typed,
/// in lower case, by name and description: the first six of them, in their
/// order.
pub proof fn rows_show_the_models_that_fit(v: PickerView, i: int)
    requires
        v.stage is Models,
        v.models.len() <= usize::MAX,
        0 <= i < v.fitting().len(),
        i < 6,
    ensures
        ({
            let at = v.fitting()[i] as int;
            &&& v.drawn().len() == 1 + if v.fitting().len() <= 6 {
                v.fitting().len()
            } else {
                6
            }
            &&& v.drawn()[0][1].text == v.filter
            &&& 0 <= at < v.models.len()
            &&& v.filter.is_prefix_of(text::lowered(v.models[at].0))
            &&& v.drawn()[i + 1][0].text == v.models[at].0
            &&& v.drawn()[i + 1][1].text == "  "@ + v.models[at].1
        }),
{
    let names = list::names_of(v.models);
    list::prefixes_find_their_entries(names, v.filter);
    let at = v.fitting()[i] as int;
    assert(v.fitting().contains(at as usize));
    let name = text::lowered(names[at]);
    assert(name.take(v.filter.len() as int) == v.filter);
    assert(name.subrange(0, v.filter.len() as int) =~= name.take(v.filter.len() as int));
    list::lists_show_their_entries(v.entries(), v.selected, i);
}

/// A model whose name starts with what was typed, in lower case, is among those
/// that fit.
pub proof fn models_that_fit_are_found(v: PickerView, k: int)
    requires
        v.models.len() <= usize::MAX,
        0 <= k < v.models.len(),
    ensures
        v.fitting().contains(k as usize) <==> v.filter.is_prefix_of(text::lowered(v.models[k].0)),
{
    let names = list::names_of(v.models);
    list::prefixes_find_their_entries(names, v.filter);
    let name = text::lowered(names[k]);
    let head = name.take(v.filter.len() as int);
    if v.filter.len() <= name.len() {
        assert(name.subrange(0, v.filter.len() as int) =~= head);
    }
}

/// Typing goes behind the filter, the delete key takes its last character, and
/// either starts again at the first model that fits. Leaving the models closes the
/// picker.
pub proof fn typing_filters_the_models(v: PickerView, key: KeyEvent, c: char)
    requires
        v.stage is Models,
    ensures
        types(key) == Some(c) ==> v.after_key(key).filter == v.filter.push(c)
            && v.after_key(key).selected == 0 && v.answer(key) is Handled,
        key.code is Backspace ==> v.after_key(key).filter == (if v.filter.len() == 0 {
            v.filter
        } else {
            v.filter.drop_last()
        }) && v.after_key(key).selected == 0,
        key.code is Esc ==> v.answer(key) is Close && !v.after_key(key).open,
        v.after_key(key).models == v.models,
{
}

} // verus!
