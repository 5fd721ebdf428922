//! The short wizard that sets up a model provider.
use vstd::prelude::*;
use vstd::string::*;

use crate::components::event;
use crate::components::event::{Protocol, ProviderConfig, ProviderView};
use crate::components::list;
use crate::components::model_picker;
use crate::components::model_picker::typing_char;
use crate::components::setup_wizard;
use crate::components::setup_wizard::{nonempty, protocol_text, push_argument};
use crate::components::theme;
use crate::keys::{KeyCode, KeyEvent};
use crate::seqs;
use crate::style::Line;
use crate::style;
use crate::text;

verus! {

broadcast use crate::seqs::views_push;

/// What a key press did to the wizard.
#[derive(Debug)]
pub enum SetupWizardAction {
    Handled,
    Submit(String),
    Close,
}

/// What a key press did to the wizard.
pub enum SetupActionView {
    Handled,
    Submit(Seq<char>),
    Close,
}

impl View for SetupWizardAction {
    type V = SetupActionView;

    open spec fn view(&self) -> SetupActionView {
        match self {
            SetupWizardAction::Handled => SetupActionView::Handled,
            SetupWizardAction::Submit(t) => SetupActionView::Submit(t@),
            SetupWizardAction::Close => SetupActionView::Close,
        }
    }
}

/// What the wizard asks for.
#[derive(Clone, Copy, Debug, PartialEq, Eq, Structural)]
pub enum Stage {
    Name,
    Kind,
    ApiKey,
}

/// An API format to choose.
#[derive(Clone, Copy, Debug, PartialEq, Eq, Structural)]
pub enum KindChoice {
    Use(Protocol),
    Keep,
}

impl KindChoice {
    /// The name and the description of an API format.
    pub open spec fn entry(self) -> (Seq<char>, Seq<char>) {
        match self {
            KindChoice::Use(p) => (p.word(), setup_wizard::protocol_desc(p)),
            KindChoice::Keep => ("keep current"@, "Keep the current API format"@),
        }
    }

    /// The name and the description of an API format.
    pub fn item(self) -> (item: (&'static str, &'static str))
        ensures
            item.0@ == self.entry().0,
            item.1@ == self.entry().1,
    {
        match self {
            KindChoice::Use(p) => (p.name(), protocol_text(p)),
            KindChoice::Keep => ("keep current", "Keep the current API format"),
        }
    }
}

/// Providers to choose from.
pub const NAME_COUNT: usize = 5;

/// The place of the current provider in the list of providers.
pub const KEEP: usize = 4;

/// The name and the description of a provider.
pub open spec fn name_entry(i: nat) -> (Seq<char>, Seq<char>) {
    if i == 0 {
        ("openai"@, "OpenAI"@)
    } else if i == 1 {
        ("deepseek"@, "DeepSeek"@)
    } else if i == 2 {
        ("zhipu"@, "Zhipu"@)
    } else if i == 3 {
        ("grok"@, "Grok"@)
    } else {
        ("keep current"@, "Keep the current provider"@)
    }
}

/// The name and the description of a provider.
pub fn name_item(i: usize) -> (item: (&'static str, &'static str))
    ensures
        item.0@ == name_entry(i as nat).0,
        item.1@ == name_entry(i as nat).1,
{
    if i == 0 {
        ("openai", "OpenAI")
    } else if i == 1 {
        ("deepseek", "DeepSeek")
    } else if i == 2 {
        ("zhipu", "Zhipu")
    } else if i == 3 {
        ("grok", "Grok")
    } else {
        ("keep current", "Keep the current provider")
    }
}

/// The API formats that a provider offers; without a provider, all of them and
/// the current one.
pub open spec fn formats(name: Option<Seq<char>>) -> Seq<KindChoice> {
    let completions = KindChoice::Use(Protocol::Completions);
    let responses = KindChoice::Use(Protocol::Responses);
    match name {
        Some(n) => if n == "openai"@ || n == "deepseek"@ {
            seq![completions, responses]
        } else if n == "moonshot"@ || n == "zhipu"@ {
            seq![completions]
        } else if n == "grok"@ {
            seq![responses]
        } else {
            seq![completions, responses, KindChoice::Keep]
        },
        None => seq![completions, responses, KindChoice::Keep],
    }
}

/// The API formats that a provider offers.
pub fn kinds_for(name: &Option<String>) -> (out: Vec<KindChoice>)
    ensures
        out@ == formats(event::text_view(*name)),
        out@.len() > 0,
{
    let completions = KindChoice::Use(Protocol::Completions);
    let responses = KindChoice::Use(Protocol::Responses);
    match name {
        Some(n) => {
            let n = n.as_str();
            if text::same_text(n, "openai") || text::same_text(n, "deepseek") {
                vec![completions, responses]
            } else if text::same_text(n, "moonshot") || text::same_text(n, "zhipu") {
                vec![completions]
            } else if text::same_text(n, "grok") {
                vec![responses]
            } else {
                vec![completions, responses, KindChoice::Keep]
            }
        },
        None => vec![completions, responses, KindChoice::Keep],
    }
}

/// Where an API format stands in a list, from `i` on.
pub open spec fn find_format(items: Seq<KindChoice>, p: Protocol, i: nat) -> Option<nat>
    decreases items.len() - i,
{
    if i >= items.len() {
        None
    } else if items[i as int] == KindChoice::Use(p) {
        Some(i)
    } else {
        find_format(items, p, i + 1)
    }
}

/// The API format that is selected at first: the current one where the provider
/// offers it, else the first.
pub open spec fn preselected_format(items: Seq<KindChoice>, current: Option<Protocol>) -> nat {
    match current {
        Some(p) => match find_format(items, p, 0) {
            Some(i) => i,
            None => 0,
        },
        None => 0,
    }
}

/// Where a provider stands in the list, from `i` on.
pub open spec fn find_name(slug: Seq<char>, i: nat) -> nat
    decreases NAME_COUNT - i,
{
    if i >= NAME_COUNT {
        KEEP as nat
    } else if name_entry(i).0 == slug {
        i
    } else {
        find_name(slug, i + 1)
    }
}

/// The name that a provider goes by.
pub open spec fn known_as(slug: Seq<char>) -> Seq<char> {
    if slug == "kimi"@ {
        "moonshot"@
    } else if slug == "glm"@ {
        "zhipu"@
    } else {
        slug
    }
}

/// The provider that is selected at first: the current one, where the list has
/// it.
pub open spec fn preselected(current: ProviderView) -> nat {
    match current.name {
        Some(name) => if name.len() == 0 {
            KEEP as nat
        } else {
            find_name(known_as(text::ascii_lowered(name)), 0)
        },
        None => KEEP as nat,
    }
}

/// Finds the provider that is selected at first.
pub fn preselect_name(current: &ProviderConfig) -> (at: usize)
    ensures
        at == preselected(current@),
        at < NAME_COUNT,
{
    match &current.name {
        Some(name) => {
            if name.as_str().is_empty() {
                return KEEP;
            }
            let low = text::to_ascii_lowercase(name.as_str());
            let slug = if text::same_text(low.as_str(), "kimi") {
                "moonshot".to_owned()
            } else if text::same_text(low.as_str(), "glm") {
                "zhipu".to_owned()
            } else {
                low
            };
            let mut i: usize = 0;
            while i < NAME_COUNT
                invariant
                    i <= NAME_COUNT,
                    current@.name == Some(name@),
                    name@.len() > 0,
                    slug@ == known_as(text::ascii_lowered(name@)),
                    find_name(slug@, 0) == find_name(slug@, i as nat),
                decreases NAME_COUNT - i,
            {
                if text::same_text(name_item(i).0, slug.as_str()) {
                    return i;
                }
                i += 1;
            }
            KEEP
        },
        None => KEEP,
    }
}

/// What is to be set up.
#[verifier::ext_equal]
pub struct DraftView {
    pub name: Option<Seq<char>>,
    pub kind: Option<Protocol>,
    pub api_key: Option<Seq<char>>,
}

/// A draft that says nothing.
pub open spec fn empty_draft() -> DraftView {
    DraftView { name: None, kind: None, api_key: None }
}

/// The command that sets up a draft; none for a draft that says nothing.
pub open spec fn composed(d: DraftView) -> Option<Seq<char>> {
    if d == empty_draft() {
        None
    } else {
        Some(
            "/setup"@ + setup_wizard::argument(" name="@, d.name) + setup_wizard::argument(
                " kind="@,
                setup_wizard::protocol_word(d.kind),
            ) + setup_wizard::argument(" api_key="@, d.api_key),
        )
    }
}

/// Writes the command that sets up a draft.
pub fn compose(name: &Option<String>, kind: Option<Protocol>, api_key: &Option<String>) -> (line:
    Option<String>)
    ensures
        event::text_view(line) == composed(
            DraftView {
                name: event::text_view(*name),
                kind,
                api_key: event::text_view(*api_key),
            },
        ),
{
    if name.is_none() && kind.is_none() && api_key.is_none() {
        return None;
    }
    let mut line = "/setup".to_owned();
    push_argument(&mut line, " name=", name);
    let word = match kind {
        Some(p) => Some(p.name().to_owned()),
        None => None,
    };
    assert(event::text_view(word) == setup_wizard::protocol_word(kind));
    push_argument(&mut line, " kind=", &word);
    push_argument(&mut line, " api_key=", api_key);
    Some(line)
}

/// The wizard that sets up a model provider. It owns the keyboard while open.
pub struct SetupWizard {
    current: ProviderConfig,
    name: Option<String>,
    kind: Option<Protocol>,
    stage: Stage,
    selected: usize,
    buffer: String,
    open: bool,
}

/// What the wizard holds.
#[verifier::ext_equal]
pub struct SetupView {
    pub current: ProviderView,
    pub name: Option<Seq<char>>,
    pub kind: Option<Protocol>,
    pub stage: Stage,
    pub selected: nat,
    pub buffer: Seq<char>,
    pub open: bool,
}

impl View for SetupWizard {
    type V = SetupView;

    closed spec fn view(&self) -> SetupView {
        SetupView {
            current: self.current@,
            name: event::text_view(self.name),
            kind: self.kind,
            stage: self.stage,
            selected: self.selected as nat,
            buffer: self.buffer@,
            open: self.open,
        }
    }
}

/// A wizard that was never opened.
pub open spec fn fresh_setup(current: ProviderView) -> SetupView {
    SetupView {
        current,
        name: None,
        kind: None,
        stage: Stage::Name,
        selected: 0,
        buffer: Seq::empty(),
        open: false,
    }
}

impl SetupView {
    /// Whether the selected entry is one of the list that is shown.
    pub open spec fn wf(self) -> bool {
        &&& self.stage is Name ==> self.selected < NAME_COUNT
        &&& self.stage is Kind ==> self.selected < formats(self.name).len()
    }

    /// The wizard at the start of a stage.
    pub open spec fn entered(self, stage: Stage) -> Self {
        SetupView {
            stage,
            selected: match stage {
                Stage::Name => preselected(self.current),
                Stage::Kind => preselected_format(formats(self.name), self.current.protocol),
                Stage::ApiKey => 0,
            },
            buffer: Seq::empty(),
            ..self
        }
    }

    /// The wizard after it was opened.
    pub open spec fn opened(self) -> Self {
        SetupView { open: true, name: None, kind: None, ..self }.entered(Stage::Name)
    }

    /// Whether the draft names another provider than the current one, so that a
    /// key has to be given.
    pub open spec fn needs_key(self) -> bool {
        self.name is Some && self.current.name != self.name
    }

    /// The wizard after a key press in the list of providers.
    pub open spec fn after_name_key(self, key: KeyEvent) -> Self {
        match key.code {
            KeyCode::Up => SetupView {
                selected: list::cycled(self.selected, NAME_COUNT as nat, true),
                ..self
            },
            KeyCode::Down => SetupView {
                selected: list::cycled(self.selected, NAME_COUNT as nat, false),
                ..self
            },
            KeyCode::Enter => if key.modifiers.is_empty() {
                SetupView {
                    name: if self.selected == KEEP {
                        None
                    } else {
                        Some(name_entry(self.selected).0)
                    },
                    ..self
                }.entered(Stage::Kind)
            } else {
                self
            },
            KeyCode::Esc => fresh_setup(self.current),
            _ => self,
        }
    }

    /// The wizard after a key press in the list of API formats.
    pub open spec fn after_kind_key(self, key: KeyEvent) -> Self {
        let items = formats(self.name);
        match key.code {
            KeyCode::Up => SetupView {
                selected: list::cycled(self.selected, items.len(), true),
                ..self
            },
            KeyCode::Down => SetupView {
                selected: list::cycled(self.selected, items.len(), false),
                ..self
            },
            KeyCode::Enter => if key.modifiers.is_empty() {
                SetupView {
                    kind: match items[self.selected as int] {
                        KindChoice::Use(p) => Some(p),
                        KindChoice::Keep => None,
                    },
                    ..self
                }.entered(Stage::ApiKey)
            } else {
                self
            },
            KeyCode::Esc => self.entered(Stage::Name),
            _ => self,
        }
    }

    /// The draft with the key that was typed.
    pub open spec fn keyed(self) -> DraftView {
        DraftView {
            name: self.name,
            kind: self.kind,
            api_key: setup_wizard::nonempty_text(text::trimmed(self.buffer)),
        }
    }

    /// Whether a key press ends the wizard.
    pub open spec fn finishes(self, key: KeyEvent) -> bool {
        key.code is Enter && key.modifiers.is_empty() && (text::trimmed(self.buffer).len() > 0
            || !self.needs_key())
    }

    /// The wizard after a key press in the stage for the key.
    pub open spec fn after_secret_key(self, key: KeyEvent) -> Self {
        match model_picker::types(key) {
            Some(c) => SetupView { buffer: self.buffer.push(c), ..self },
            None => match key.code {
                KeyCode::Backspace => SetupView { buffer: text::shortened(self.buffer), ..self },
                KeyCode::Enter => if self.finishes(key) {
                    fresh_setup(self.current)
                } else {
                    self
                },
                KeyCode::Esc => self.entered(Stage::Kind),
                _ => self,
            },
        }
    }

    /// The wizard after a key press.
    pub open spec fn after_key(self, key: KeyEvent) -> Self {
        match self.stage {
            Stage::Name => self.after_name_key(key),
            Stage::Kind => self.after_kind_key(key),
            Stage::ApiKey => self.after_secret_key(key),
        }
    }

    /// What a key press asks for.
    pub open spec fn answer(self, key: KeyEvent) -> SetupActionView {
        match self.stage {
            Stage::Name => if key.code is Esc {
                SetupActionView::Close
            } else {
                SetupActionView::Handled
            },
            Stage::Kind => SetupActionView::Handled,
            Stage::ApiKey => if self.finishes(key) {
                match composed(self.keyed()) {
                    Some(line) => SetupActionView::Submit(line),
                    None => SetupActionView::Close,
                }
            } else {
                SetupActionView::Handled
            },
        }
    }

    /// The wizard after a paste.
    pub open spec fn pasted(self, t: Seq<char>) -> Self {
        if self.stage is ApiKey {
            SetupView { buffer: self.buffer + text::unspaced(t), ..self }
        } else {
            self
        }
    }

    /// Rows that the wizard takes.
    pub open spec fn rows(self) -> nat {
        if !self.open {
            0
        } else {
            match self.stage {
                Stage::Name => NAME_COUNT as nat,
                Stage::Kind => formats(self.name).len(),
                Stage::ApiKey => 1,
            }
        }
    }

    /// What the input line shows of the key: an asterisk for each character.
    pub open spec fn mask(self) -> Option<Seq<char>> {
        if self.stage is ApiKey {
            Some(text::run_of('*', self.buffer.len()))
        } else {
            None
        }
    }

    /// What the input line shows where it shows no key.
    pub open spec fn hint(self) -> Seq<char> {
        match self.stage {
            Stage::Name => "choose a provider"@,
            Stage::Kind => "choose an API format"@,
            Stage::ApiKey => ""@,
        }
    }

    /// The lines that the wizard is drawn as.
    pub open spec fn drawn(self) -> Seq<Seq<style::SpanView>> {
        match self.stage {
            Stage::Name => list::plain_choices(
                Seq::new(NAME_COUNT as nat, |i: int| name_entry(i as nat)),
                self.selected,
            ),
            Stage::Kind => list::plain_choices(
                Seq::new(formats(self.name).len(), |i: int| formats(self.name)[i].entry()),
                self.selected,
            ),
            Stage::ApiKey => seq![
                seq![
                    style::SpanView {
                        text: if self.needs_key() {
                            "api_key · required · Enter to save · Esc to go back"@
                        } else {
                            "api_key · empty keeps current · Enter to save · Esc to go back"@
                        },
                        style: theme::dim(),
                    },
                ],
            ],
        }
    }
}

impl SetupWizard {
    /// A closed wizard beside the current settings.
    pub fn new(current: ProviderConfig) -> (w: Self)
        ensures
            w@ == fresh_setup(current@),
            w@.wf(),
    {
        SetupWizard {
            current,
            name: None,
            kind: None,
            stage: Stage::Name,
            selected: 0,
            buffer: String::new(),
            open: false,
        }
    }

    /// Whether the wizard is open.
    pub fn is_open(&self) -> (yes: bool)
        ensures
            yes == self@.open,
    {
        self.open
    }

    /// What the wizard asks for.
    pub fn stage(&self) -> (stage: Stage)
        ensures
            stage == self@.stage,
    {
        self.stage
    }

    /// What was typed in the stage.
    pub fn buffer(&self) -> (out: &str)
        ensures
            out@ == self@.buffer,
    {
        self.buffer.as_str()
    }

    /// Takes other settings as the current ones.
    pub fn set_current(&mut self, current: ProviderConfig)
        ensures
            final(self)@ == (SetupView { current: current@, ..old(self)@ }),
    {
        self.current = current;
    }

    /// Opens the wizard at its first stage.
    pub fn open(&mut self)
        ensures
            final(self)@ == old(self)@.opened(),
            final(self)@.wf(),
    {
        self.open = true;
        self.name = None;
        self.kind = None;
        self.enter_stage(Stage::Name);
    }

    /// Closes the wizard and drops what was typed.
    pub fn close(&mut self)
        ensures
            final(self)@ == fresh_setup(old(self)@.current),
            final(self)@.wf(),
    {
        self.open = false;
        self.name = None;
        self.kind = None;
        self.stage = Stage::Name;
        self.selected = 0;
        self.buffer = String::new();
    }

    /// The API formats to choose from.
    pub fn kind_items(&self) -> (out: Vec<KindChoice>)
        ensures
            out@ == formats(self@.name),
            out@.len() > 0,
    {
        kinds_for(&self.name)
    }

    /// Rows that the wizard takes, none while it is closed.
    pub fn height(&self) -> (rows: u16)
        ensures
            rows == self@.rows(),
    {
        if !self.open {
            return 0;
        }
        match self.stage {
            Stage::Name => NAME_COUNT as u16,
            Stage::Kind => self.kind_items().len() as u16,
            Stage::ApiKey => 1,
        }
    }

    /// What the input line shows where it shows no key.
    pub fn prompt_hint(&self) -> (out: &'static str)
        ensures
            out@ == self@.hint(),
    {
        match self.stage {
            Stage::Name => "choose a provider",
            Stage::Kind => "choose an API format",
            Stage::ApiKey => "",
        }
    }

    /// What the input line shows of the key: an asterisk for each character.
    pub fn prompt_mask(&self) -> (out: Option<String>)
        ensures
            event::text_view(out) == self@.mask(),
    {
        match self.stage {
            Stage::ApiKey => {
                let cs = text::chars_of(self.buffer.as_str());
                Some(text::repeat_char('*', cs.len()))
            },
            _ => None,
        }
    }

    /// The lines of the open wizard.
    pub fn lines(&self) -> (out: Vec<Line>)
        ensures
            seqs::views(out@) == self@.drawn(),
    {
        match self.stage {
            Stage::Name => {
                let ghost all = Seq::new(NAME_COUNT as nat, |i: int| name_entry(i as nat));
                let mut items: Vec<(String, String)> = Vec::new();
                let mut i: usize = 0;
                while i < NAME_COUNT
                    invariant
                        i <= NAME_COUNT,
                        items@.len() == i,
                        all == Seq::new(NAME_COUNT as nat, |i: int| name_entry(i as nat)),
                        forall|j: int| 0 <= j < i ==> list::pair_views(items@)[j] == all[j],
                    decreases NAME_COUNT - i,
                {
                    let item = name_item(i);
                    items.push((item.0.to_owned(), item.1.to_owned()));
                    i += 1;
                }
                assert(list::pair_views(items@) =~= all);
                list::plain_choice_lines(&items, self.selected)
            },
            Stage::Kind => {
                let kinds = self.kind_items();
                let ghost all = Seq::new(kinds@.len(), |i: int| kinds@[i].entry());
                let mut items: Vec<(String, String)> = Vec::new();
                let mut i: usize = 0;
                while i < kinds.len()
                    invariant
                        i <= kinds@.len(),
                        items@.len() == i,
                        all == Seq::new(kinds@.len(), |i: int| kinds@[i].entry()),
                        forall|j: int| 0 <= j < i ==> list::pair_views(items@)[j] == all[j],
                    decreases kinds.len() - i,
                {
                    let item = kinds[i].item();
                    items.push((item.0.to_owned(), item.1.to_owned()));
                    i += 1;
                }
                assert(list::pair_views(items@) =~= Seq::new(
                    formats(self@.name).len(),
                    |i: int| formats(self@.name)[i].entry(),
                ));
                list::plain_choice_lines(&items, self.selected)
            },
            Stage::ApiKey => {
                let label = if self.requires_new_key() {
                    "api_key · required · Enter to save · Esc to go back"
                } else {
                    "api_key · empty keeps current · Enter to save · Esc to go back"
                };
                let out = vec![Line::of(label.to_owned(), theme::dim())];
                assert(seqs::views(out@) =~= self@.drawn());
                out
            },
        }
    }

    /// Takes pasted text, without its whitespace.
    pub fn paste(&mut self, t: &str)
        ensures
            final(self)@ == old(self)@.pasted(t@),
            old(self)@.wf() ==> final(self)@.wf(),
    {
        match self.stage {
            Stage::ApiKey => {
                let cleaned = text::strip_whitespace(t);
                self.buffer.append(cleaned.as_str());
            },
            _ => {},
        }
    }

    fn preselect_kind(&self) -> (at: usize)
        ensures
            at == preselected_format(formats(self@.name), self@.current.protocol),
            at < formats(self@.name).len(),
    {
        let items = self.kind_items();
        match self.current.protocol {
            Some(p) => {
                let mut i: usize = 0;
                while i < items.len()
                    invariant
                        i <= items@.len(),
                        items@ == formats(self@.name),
                        items@.len() > 0,
                        self@.current.protocol == Some(p),
                        find_format(items@, p, 0) == find_format(items@, p, i as nat),
                    decreases items.len() - i,
                {
                    if items[i] == KindChoice::Use(p) {
                        return i;
                    }
                    i += 1;
                }
                0
            },
            None => 0,
        }
    }

    /// Starts a stage.
    pub fn enter_stage(&mut self, stage: Stage)
        ensures
            final(self)@ == old(self)@.entered(stage),
            final(self)@.wf(),
    {
        self.stage = stage;
        self.selected = 0;
        self.buffer = String::new();
        match stage {
            Stage::Name => {
                self.selected = preselect_name(&self.current);
            },
            Stage::Kind => {
                self.selected = self.preselect_kind();
            },
            Stage::ApiKey => {},
        }
    }

    fn requires_new_key(&self) -> (yes: bool)
        ensures
            yes == self@.needs_key(),
    {
        match &self.name {
            Some(name) => match &self.current.name {
                Some(current) => !text::same_text(current.as_str(), name.as_str()),
                None => true,
            },
            None => false,
        }
    }

    fn handle_name_key(&mut self, key: &KeyEvent) -> (action: SetupWizardAction)
        requires
            old(self)@.stage is Name,
            old(self)@.wf(),
        ensures
            final(self)@ == old(self)@.after_key(*key),
            action@ == old(self)@.answer(*key),
            final(self)@.wf(),
    {
        match key.code {
            KeyCode::Up => {
                list::cycle_selected(&mut self.selected, NAME_COUNT, true);
                assert(self@ =~= old(self)@.after_key(*key));
                SetupWizardAction::Handled
            },
            KeyCode::Down => {
                list::cycle_selected(&mut self.selected, NAME_COUNT, false);
                assert(self@ =~= old(self)@.after_key(*key));
                SetupWizardAction::Handled
            },
            KeyCode::Enter => {
                if key.modifiers.is_empty() {
                    self.name = if self.selected == KEEP {
                        None
                    } else {
                        Some(name_item(self.selected).0.to_owned())
                    };
                    self.enter_stage(Stage::Kind);
                }
                SetupWizardAction::Handled
            },
            KeyCode::Esc => {
                self.close();
                SetupWizardAction::Close
            },
            _ => SetupWizardAction::Handled,
        }
    }

    fn handle_kind_key(&mut self, key: &KeyEvent) -> (action: SetupWizardAction)
        requires
            old(self)@.stage is Kind,
            old(self)@.wf(),
        ensures
            final(self)@ == old(self)@.after_key(*key),
            action@ == old(self)@.answer(*key),
            final(self)@.wf(),
    {
        let items = self.kind_items();
        match key.code {
            KeyCode::Up => {
                list::cycle_selected(&mut self.selected, items.len(), true);
                assert(self@ =~= old(self)@.after_key(*key));
                SetupWizardAction::Handled
            },
            KeyCode::Down => {
                list::cycle_selected(&mut self.selected, items.len(), false);
                assert(self@ =~= old(self)@.after_key(*key));
                SetupWizardAction::Handled
            },
            KeyCode::Enter => {
                if key.modifiers.is_empty() {
                    self.kind = match items[self.selected] {
                        KindChoice::Use(p) => Some(p),
                        KindChoice::Keep => None,
                    };
                    self.enter_stage(Stage::ApiKey);
                }
                SetupWizardAction::Handled
            },
            KeyCode::Esc => {
                self.enter_stage(Stage::Name);
                SetupWizardAction::Handled
            },
            _ => SetupWizardAction::Handled,
        }
    }

    fn handle_api_key(&mut self, key: &KeyEvent) -> (action: SetupWizardAction)
        requires
            old(self)@.stage is ApiKey,
        ensures
            final(self)@ == old(self)@.after_key(*key),
            action@ == old(self)@.answer(*key),
            final(self)@.wf(),
    {
        if let Some(c) = typing_char(key) {
            self.buffer.push(c);
            return SetupWizardAction::Handled;
        }
        match key.code {
            KeyCode::Backspace => {
                self.buffer = text::drop_last_char(self.buffer.as_str());
                SetupWizardAction::Handled
            },
            KeyCode::Enter => {
                if !key.modifiers.is_empty() {
                    return SetupWizardAction::Handled;
                }
                let value = text::trim(self.buffer.as_str());
                if value.as_str().is_empty() && self.requires_new_key() {
                    return SetupWizardAction::Handled;
                }
                let api_key = nonempty(value.as_str());
                let line = compose(&self.name, self.kind, &api_key);
                self.close();
                match line {
                    Some(line) => SetupWizardAction::Submit(line),
                    None => SetupWizardAction::Close,
                }
            },
            KeyCode::Esc => {
                self.enter_stage(Stage::Kind);
                SetupWizardAction::Handled
            },
            _ => SetupWizardAction::Handled,
        }
    }

    /// Handles keys while the wizard is open.
    pub fn handle_key(&mut self, key: &KeyEvent) -> (action: SetupWizardAction)
        requires
            old(self)@.wf(),
        ensures
            final(self)@ == old(self)@.after_key(*key),
            action@ == old(self)@.answer(*key),
            final(self)@.wf(),
    {
        match self.stage {
            Stage::Name => self.handle_name_key(key),
            Stage::Kind => self.handle_kind_key(key),
            Stage::ApiKey => self.handle_api_key(key),
        }
    }
}

/// A provider other than the current one is never set up without a key.
pub proof fn switching_needs_a_key(v: SetupView, key: KeyEvent)
    requires
        v.stage is ApiKey,
        v.needs_key(),
        v.answer(key) is Submit,
    ensures
        v.keyed().api_key is Some,
        v.answer(key) == SetupActionView::Submit(composed(v.keyed())->0),
{
}

/// The wizard never asks for an API format that the provider does not offer.
pub proof fn only_offered_formats(v: SetupView, key: KeyEvent)
    requires
        v.stage is Kind,
        v.wf(),
        v.after_key(key).stage is ApiKey,
    ensures
        v.after_key(key).kind matches Some(p) ==> formats(v.name).contains(KindChoice::Use(p)),
        v.after_key(key).kind is None ==> formats(v.name).contains(KindChoice::Keep),
{
    let items = formats(v.name);
    assert(items.contains(items[v.selected as int]));
}

/// Taking the marked provider takes the one that its row names, or keeps the
/// current one in the last row, and asks for the API format next.
pub proof fn the_marked_provider_is_taken(v: SetupView, enter: KeyEvent, i: int)
    requires
        v.stage is Name,
        v.wf(),
        enter.code is Enter,
        enter.modifiers.is_empty(),
        0 <= i < v.drawn().len(),
        v.drawn()[i][0].style == theme::accent(),
    ensures
        ({
            let next = v.after_key(enter);
            &&& v.drawn().len() == 5
            &&& i < 4 ==> next.name == Some(v.drawn()[i][0].text)
            &&& i == 4 ==> next.name is None && v.drawn()[i][0].text == "keep current"@
            &&& next.stage is Kind
            &&& next.open == v.open
        }),
{
    let items = Seq::new(NAME_COUNT as nat, |k: int| name_entry(k as nat));
    list::lists_show_their_entries(items, v.selected, i);
}

/// Taking the marked format takes the one that its row names, or keeps the current
/// one, and asks for the key next.
pub proof fn the_marked_format_is_taken(v: SetupView, enter: KeyEvent, i: int)
    requires
        v.stage is Kind,
        v.wf(),
        enter.code is Enter,
        enter.modifiers.is_empty(),
        0 <= i < v.drawn().len(),
        v.drawn()[i][0].style == theme::accent(),
    ensures
        ({
            let next = v.after_key(enter);
            &&& (next.kind matches Some(p) ==> p.word() == v.drawn()[i][0].text)
            &&& next.kind is None ==> v.drawn()[i][0].text == "keep current"@
            &&& next.stage is ApiKey
            &&& next.name == v.name
        }),
{
    let items = Seq::new(formats(v.name).len(), |k: int| formats(v.name)[k].entry());
    list::lists_show_their_entries(items, v.selected, i);
}

/// What is typed or pasted as a key ends the command that is submitted, without
/// whitespace around it.
pub proof fn typed_keys_are_taken(v: SetupView, enter: KeyEvent, t: Seq<char>)
    requires
        v.stage is ApiKey,
        enter.code is Enter,
        enter.modifiers.is_empty(),
        text::trimmed(v.buffer).len() > 0,
    ensures
        v.answer(enter) matches SetupActionView::Submit(line) && (" api_key="@ + text::trimmed(
            v.buffer,
        )).is_suffix_of(line),
        v.pasted(t).buffer == v.buffer + text::unspaced(t),
        !v.after_key(enter).open,
{
    let d = v.keyed();
    let line = composed(d)->0;
    let tail = " api_key="@ + text::trimmed(v.buffer);
    assert(setup_wizard::argument(" api_key="@, d.api_key) == tail);
    assert(line.subrange(line.len() - tail.len(), line.len() as int) =~= tail);
}

/// The command that sets up a draft has one word for each value that the draft
/// gives, behind its label, and none for the others.
pub proof fn the_command_names_each_value(d: DraftView)
    requires
        d != empty_draft(),
        setup_wizard::is_word(d.name),
        setup_wizard::is_word(d.api_key),
    ensures
        composed(d) matches Some(line) && text::words_of(line) == seq!["/setup"@]
            + setup_wizard::labelled("name="@, d.name) + setup_wizard::labelled(
            "kind="@,
            setup_wizard::protocol_word(d.kind),
        ) + setup_wizard::labelled("api_key="@, d.api_key),
{
    reveal_strlit("/setup");
    reveal_strlit(" name=");
    reveal_strlit("name=");
    reveal_strlit(" kind=");
    reveal_strlit("kind=");
    reveal_strlit(" api_key=");
    reveal_strlit("api_key=");
    reveal_strlit("completions");
    reveal_strlit("responses");
    let a = "/setup"@;
    text::unbroken_texts_are_words(a);
    assert(" name="@ =~= seq![' '] + "name="@);
    assert(" kind="@ =~= seq![' '] + "kind="@);
    assert(" api_key="@ =~= seq![' '] + "api_key="@);
    let b = a + setup_wizard::argument(" name="@, d.name);
    let c = b + setup_wizard::argument(" kind="@, setup_wizard::protocol_word(d.kind));
    setup_wizard::lemma_argument(a, " name="@, "name="@, d.name);
    setup_wizard::lemma_argument(b, " kind="@, "kind="@, setup_wizard::protocol_word(d.kind));
    setup_wizard::lemma_argument(c, " api_key="@, "api_key="@, d.api_key);
}

/// Esc goes one stage back, keeping what was chosen so far, and from the providers
/// closes the wizard.
pub proof fn esc_goes_a_stage_back(v: SetupView, esc: KeyEvent)
    requires
        esc.code is Esc,
    ensures
        v.stage is Name ==> v.answer(esc) is Close && !v.after_key(esc).open,
        v.stage is Kind ==> v.after_key(esc).stage is Name,
        v.stage is ApiKey ==> v.after_key(esc).stage is Kind,
        !(v.stage is Name) ==> v.after_key(esc).name == v.name && v.after_key(esc).kind == v.kind
            && v.after_key(esc).open == v.open && v.answer(esc) is Handled,
{
}

/// The arrows move the mark by one row, around the ends.
pub proof fn arrows_move_the_mark(v: SetupView, key: KeyEvent)
    requires
        v.wf(),
        v.stage is Name || v.stage is Kind,
        key.code is Up || key.code is Down,
    ensures
        ({
            let next = v.after_key(key);
            let n = v.drawn().len();
            &&& key.code is Down ==> next.selected == if v.selected + 1 < n {
                v.selected + 1
            } else {
                0
            }
            &&& key.code is Up ==> next.selected == if v.selected > 0 {
                v.selected - 1
            } else {
                n - 1
            }
            &&& next == SetupView { selected: next.selected, ..v }
        }),
{
    list::cycling_moves_by_one(v.selected, v.drawn().len());
}

/// A finished or closed wizard keeps nothing of what was typed, and a key is shown
/// as asterisks alone.
pub proof fn keys_are_not_kept(v: SetupView, key: KeyEvent)
    ensures
        v.answer(key) is Submit || v.answer(key) is Close ==> v.after_key(key) == fresh_setup(
            v.current,
        ),
        v.stage is ApiKey ==> (v.mask() matches Some(shown) && shown.len() == v.buffer.len()
            && forall|i: int| 0 <= i < shown.len() ==> shown[i] == '*'),
{
}

} // verus!
