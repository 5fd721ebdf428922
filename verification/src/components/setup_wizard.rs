//! The wizard that sets up a model provider.
use vstd::prelude::*;
use vstd::string::*;

use super::event;
use super::event::{Protocol, ProviderConfig, ProviderView};
use super::list;
use super::model_picker;
use super::model_picker::typing_char;
use super::theme;
use crate::keys::{KeyCode, KeyEvent};
use crate::seqs;
use crate::style::Line;
use crate::style;
use crate::text;

verus! {

broadcast use crate::seqs::views_push;

/// What a key press did to the wizard.
#[derive(Debug)]
pub enum SetupWizardAction {
    Handled,
    Submit(String),
    Close,
    /// The canonical form of a provider's name is wanted; the answer goes to
    /// `vendor_resolved`.
    Resolve(String),
}

/// What a key press did to the wizard.
pub enum SetupActionView {
    Handled,
    Submit(Seq<char>),
    Close,
    Resolve(Seq<char>),
}

impl View for SetupWizardAction {
    type V = SetupActionView;

    open spec fn view(&self) -> SetupActionView {
        match self {
            SetupWizardAction::Handled => SetupActionView::Handled,
            SetupWizardAction::Submit(t) => SetupActionView::Submit(t@),
            SetupWizardAction::Close => SetupActionView::Close,
            SetupWizardAction::Resolve(t) => SetupActionView::Resolve(t@),
        }
    }
}

/// What the wizard asks for.
#[derive(Clone, Copy, Debug, PartialEq, Eq, Structural)]
pub enum Stage {
    Name,
    CustomName,
    BaseUrl,
    Protocol,
    ApiKey,
}

/// Providers to choose from.
pub const NAME_COUNT: usize = 6;

/// The place of the gateway in the list of providers.
pub const CUSTOM: usize = 4;

/// The place of the current provider in the list of providers.
pub const KEEP: usize = 5;

/// Protocols to choose from.
pub const PROTOCOL_COUNT: usize = 2;

/// The name and the description of a provider.
pub open spec fn name_entry(i: nat) -> (Seq<char>, Seq<char>) {
    if i == 0 {
        ("openai"@, "OpenAI"@)
    } else if i == 1 {
        ("deepseek"@, "DeepSeek"@)
    } else if i == 2 {
        ("zhipu"@, "Zhipu (GLM)"@)
    } else if i == 3 {
        ("xai"@, "Grok"@)
    } else if i == 4 {
        ("custom"@, "Custom gateway"@)
    } else {
        ("keep current"@, "Keep the current provider"@)
    }
}

/// The name and the description of a provider.
pub fn name_item(i: usize) -> (item: (&'static str, &'static str))
    ensures
        item.0@ == name_entry(i as nat).0,
        item.1@ == name_entry(i as nat).1,
{
    if i == 0 {
        ("openai", "OpenAI")
    } else if i == 1 {
        ("deepseek", "DeepSeek")
    } else if i == 2 {
        ("zhipu", "Zhipu (GLM)")
    } else if i == 3 {
        ("xai", "Grok")
    } else if i == 4 {
        ("custom", "Custom gateway")
    } else {
        ("keep current", "Keep the current provider")
    }
}

/// The protocol at a place of the list.
#[verifier::allow_in_spec]
pub fn protocol_at(i: usize) -> Protocol
    returns
        (if i == 0 {
            Protocol::Completions
        } else {
            Protocol::Responses
        }),
{
    if i == 0 {
        Protocol::Completions
    } else {
        Protocol::Responses
    }
}

/// The description of a protocol.
pub open spec fn protocol_desc(p: Protocol) -> Seq<char> {
    match p {
        Protocol::Completions => "OpenAI Chat Completions"@,
        Protocol::Responses => "OpenAI Responses API"@,
    }
}

/// The description of a protocol.
pub fn protocol_text(p: Protocol) -> (out: &'static str)
    ensures
        out@ == protocol_desc(p),
{
    match p {
        Protocol::Completions => "OpenAI Chat Completions",
        Protocol::Responses => "OpenAI Responses API",
    }
}

/// What is to be set up.
#[derive(Debug)]
pub struct Draft {
    pub name: Option<String>,
    pub base_url: Option<String>,
    pub protocol: Option<Protocol>,
    pub api_key: Option<String>,
}

/// What is to be set up.
#[verifier::ext_equal]
pub struct DraftView {
    pub name: Option<Seq<char>>,
    pub base_url: Option<Seq<char>>,
    pub protocol: Option<Protocol>,
    pub api_key: Option<Seq<char>>,
}

impl View for Draft {
    type V = DraftView;

    open spec fn view(&self) -> DraftView {
        DraftView {
            name: event::text_view(self.name),
            base_url: event::text_view(self.base_url),
            protocol: self.protocol,
            api_key: event::text_view(self.api_key),
        }
    }
}

/// A draft that says nothing.
pub open spec fn empty_draft() -> DraftView {
    DraftView { name: None, base_url: None, protocol: None, api_key: None }
}

impl Draft {
    /// A draft that says nothing.
    pub fn empty() -> (d: Draft)
        ensures
            d@ == empty_draft(),
    {
        Draft { name: None, base_url: None, protocol: None, api_key: None }
    }
}

/// An argument of a command, where there is a value for it.
pub open spec fn argument(label: Seq<char>, value: Option<Seq<char>>) -> Seq<char> {
    match value {
        Some(v) => label + v,
        None => Seq::empty(),
    }
}

/// Appends an argument of a command, where there is a value for it.
pub fn push_argument(line: &mut String, label: &str, value: &Option<String>)
    ensures
        final(line)@ == old(line)@ + argument(label@, event::text_view(*value)),
{
    match value {
        Some(v) => {
            line.append(label);
            line.append(v.as_str());
            assert(line@ =~= old(line)@ + (label@ + v@));
        },
        None => {
            assert(line@ =~= old(line)@ + Seq::<char>::empty());
        },
    }
}

/// The word of a protocol, where there is one.
pub open spec fn protocol_word(p: Option<Protocol>) -> Option<Seq<char>> {
    match p {
        Some(p) => Some(p.word()),
        None => None,
    }
}

/// The command that sets up a draft; none for a draft that says nothing.
pub open spec fn composed(d: DraftView) -> Option<Seq<char>> {
    if d == empty_draft() {
        None
    } else {
        Some(
            "/setup"@ + argument(" name="@, d.name) + argument(" base_url="@, d.base_url)
                + argument(" protocol="@, protocol_word(d.protocol)) + argument(
                " api_key="@,
                d.api_key,
            ),
        )
    }
}

/// Writes the command that sets up a draft.
pub fn compose(draft: &Draft) -> (line: Option<String>)
    ensures
        event::text_view(line) == composed(draft@),
{
    if draft.name.is_none() && draft.base_url.is_none() && draft.protocol.is_none()
        && draft.api_key.is_none() {
        return None;
    }
    let mut line = "/setup".to_owned();
    push_argument(&mut line, " name=", &draft.name);
    push_argument(&mut line, " base_url=", &draft.base_url);
    let protocol = match draft.protocol {
        Some(p) => Some(p.name().to_owned()),
        None => None,
    };
    assert(event::text_view(protocol) == protocol_word(draft.protocol));
    push_argument(&mut line, " protocol=", &protocol);
    push_argument(&mut line, " api_key=", &draft.api_key);
    Some(line)
}

/// The text, unless it is empty.
pub open spec fn nonempty_text(value: Seq<char>) -> Option<Seq<char>> {
    if value.len() == 0 {
        None
    } else {
        Some(value)
    }
}

/// The text, unless it is empty.
pub fn nonempty(value: &str) -> (out: Option<String>)
    ensures
        event::text_view(out) == nonempty_text(value@),
{
    if value.is_empty() {
        None
    } else {
        Some(value.to_owned())
    }
}

/// Where a provider stands in the list, from `i` on.
pub open spec fn find_name(slug: Seq<char>, i: nat) -> nat
    decreases NAME_COUNT - i,
{
    if i >= NAME_COUNT {
        KEEP as nat
    } else if name_entry(i).0 == slug {
        i
    } else {
        find_name(slug, i + 1)
    }
}

/// The provider that is selected at first: the current one, where the list has
/// it.
pub open spec fn preselected(current: ProviderView) -> nat {
    match current.vendor {
        Some(slug) => if slug.len() == 0 {
            KEEP as nat
        } else {
            find_name(slug, 0)
        },
        None => KEEP as nat,
    }
}

/// Finds the provider that is selected at first.
pub fn preselect_name(current: &ProviderConfig) -> (at: usize)
    ensures
        at == preselected(current@),
        at < NAME_COUNT,
{
    match &current.vendor {
        Some(slug) => {
            if slug.as_str().is_empty() {
                return KEEP;
            }
            let mut i: usize = 0;
            while i < NAME_COUNT
                invariant
                    i <= NAME_COUNT,
                    current@.vendor == Some(slug@),
                    slug@.len() > 0,
                    find_name(slug@, 0) == find_name(slug@, i as nat),
                decreases NAME_COUNT - i,
            {
                if text::same_text(name_item(i).0, slug.as_str()) {
                    return i;
                }
                i += 1;
            }
            KEEP
        },
        None => KEEP,
    }
}

/// The wizard that sets up a model provider. It owns the keyboard while open.
pub struct SetupWizard {
    current: ProviderConfig,
    draft: Draft,
    stage: Stage,
    selected: usize,
    buffer: String,
    open: bool,
}

/// What the wizard holds.
#[verifier::ext_equal]
pub struct SetupView {
    pub current: ProviderView,
    pub draft: DraftView,
    pub stage: Stage,
    pub selected: nat,
    pub buffer: Seq<char>,
    pub open: bool,
}

impl View for SetupWizard {
    type V = SetupView;

    closed spec fn view(&self) -> SetupView {
        SetupView {
            current: self.current@,
            draft: self.draft@,
            stage: self.stage,
            selected: self.selected as nat,
            buffer: self.buffer@,
            open: self.open,
        }
    }
}

/// A wizard that was never opened.
pub open spec fn fresh_setup(current: ProviderView) -> SetupView {
    SetupView {
        current,
        draft: empty_draft(),
        stage: Stage::Name,
        selected: 0,
        buffer: Seq::empty(),
        open: false,
    }
}

impl SetupView {
    /// Whether the selected entry is one of the list that is shown.
    pub open spec fn wf(self) -> bool {
        &&& self.stage is Name ==> self.selected < NAME_COUNT
        &&& self.stage is Protocol ==> self.selected < PROTOCOL_COUNT
    }

    /// The wizard at the start of a stage.
    pub open spec fn entered(self, stage: Stage) -> Self {
        SetupView {
            stage,
            selected: if stage is Name {
                preselected(self.current)
            } else {
                0
            },
            buffer: Seq::empty(),
            ..self
        }
    }

    /// The wizard after it was opened.
    pub open spec fn opened(self) -> Self {
        SetupView { open: true, draft: empty_draft(), ..self }.entered(Stage::Name)
    }

    /// Whether the draft names another provider than the current one, so that a
    /// key has to be given.
    pub open spec fn needs_key(self) -> bool {
        self.draft.name is Some && self.current.name != self.draft.name
    }

    /// The wizard with another character typed.
    pub open spec fn with_char(self, c: char) -> Self {
        SetupView { buffer: self.buffer.push(c), ..self }
    }

    /// The wizard with the last character taken back.
    pub open spec fn with_less(self) -> Self {
        SetupView { buffer: text::shortened(self.buffer), ..self }
    }

    /// The wizard after a key press in the list of providers.
    pub open spec fn after_name_key(self, key: KeyEvent) -> Self {
        match key.code {
            KeyCode::Up => SetupView {
                selected: list::cycled(self.selected, NAME_COUNT as nat, true),
                ..self
            },
            KeyCode::Down => SetupView {
                selected: list::cycled(self.selected, NAME_COUNT as nat, false),
                ..self
            },
            KeyCode::Enter => if !key.modifiers.is_empty() {
                self
            } else if self.selected == KEEP {
                SetupView {
                    draft: DraftView { name: None, ..self.draft },
                    ..self
                }.entered(Stage::ApiKey)
            } else if self.selected == CUSTOM {
                self.entered(Stage::CustomName)
            } else {
                SetupView {
                    draft: DraftView { name: Some(name_entry(self.selected).0), ..self.draft },
                    ..self
                }.entered(Stage::ApiKey)
            },
            KeyCode::Esc => fresh_setup(self.current),
            _ => self,
        }
    }

    /// The wizard after a key press in a text stage.
    pub open spec fn after_text_key(self, key: KeyEvent) -> Self {
        match model_picker::types(key) {
            Some(c) => self.with_char(c),
            None => match key.code {
                KeyCode::Backspace => self.with_less(),
                KeyCode::Enter => if key.modifiers.is_empty() && self.stage is BaseUrl
                    && text::trimmed(self.buffer).len() > 0 {
                    SetupView {
                        draft: DraftView {
                            base_url: Some(text::trimmed(self.buffer)),
                            ..self.draft
                        },
                        ..self
                    }.entered(Stage::Protocol)
                } else {
                    self
                },
                KeyCode::Esc => if self.stage is BaseUrl {
                    self.entered(Stage::CustomName)
                } else {
                    self.entered(Stage::Name)
                },
                _ => self,
            },
        }
    }

    /// The wizard after a key press in the list of protocols.
    pub open spec fn after_protocol_key(self, key: KeyEvent) -> Self {
        match key.code {
            KeyCode::Up => SetupView {
                selected: list::cycled(self.selected, PROTOCOL_COUNT as nat, true),
                ..self
            },
            KeyCode::Down => SetupView {
                selected: list::cycled(self.selected, PROTOCOL_COUNT as nat, false),
                ..self
            },
            KeyCode::Enter => if key.modifiers.is_empty() {
                SetupView {
                    draft: DraftView {
                        protocol: Some(protocol_at(self.selected as usize)),
                        ..self.draft
                    },
                    ..self
                }.entered(Stage::ApiKey)
            } else {
                self
            },
            KeyCode::Esc => self.entered(Stage::BaseUrl),
            _ => self,
        }
    }

    /// The draft with the key that was typed.
    pub open spec fn keyed(self) -> DraftView {
        DraftView { api_key: nonempty_text(text::trimmed(self.buffer)), ..self.draft }
    }

    /// Whether a key press ends the wizard.
    pub open spec fn finishes(self, key: KeyEvent) -> bool {
        key.code is Enter && key.modifiers.is_empty() && (text::trimmed(self.buffer).len() > 0
            || !self.needs_key())
    }

    /// The wizard after a key press in the stage for the key.
    pub open spec fn after_secret_key(self, key: KeyEvent) -> Self {
        match model_picker::types(key) {
            Some(c) => self.with_char(c),
            None => match key.code {
                KeyCode::Backspace => self.with_less(),
                KeyCode::Enter => if self.finishes(key) {
                    fresh_setup(self.current)
                } else {
                    self
                },
                KeyCode::Esc => if self.draft.base_url is Some {
                    self.entered(Stage::Protocol)
                } else {
                    self.entered(Stage::Name)
                },
                _ => self,
            },
        }
    }

    /// The wizard after a key press.
    pub open spec fn after_key(self, key: KeyEvent) -> Self {
        match self.stage {
            Stage::Name => self.after_name_key(key),
            Stage::CustomName | Stage::BaseUrl => self.after_text_key(key),
            Stage::Protocol => self.after_protocol_key(key),
            Stage::ApiKey => self.after_secret_key(key),
        }
    }

    /// What a key press asks for.
    pub open spec fn answer(self, key: KeyEvent) -> SetupActionView {
        match self.stage {
            Stage::Name => if key.code is Esc {
                SetupActionView::Close
            } else {
                SetupActionView::Handled
            },
            Stage::CustomName => if key.code is Enter && key.modifiers.is_empty()
                && text::trimmed(self.buffer).len() > 0 {
                SetupActionView::Resolve(text::trimmed(self.buffer))
            } else {
                SetupActionView::Handled
            },
            Stage::ApiKey => if self.finishes(key) {
                match composed(self.keyed()) {
                    Some(line) => SetupActionView::Submit(line),
                    None => SetupActionView::Close,
                }
            } else {
                SetupActionView::Handled
            },
            _ => SetupActionView::Handled,
        }
    }

    /// The wizard once the canonical form of the typed name is known.
    pub open spec fn resolved(self, vendor: Seq<char>) -> Self {
        if self.stage is CustomName {
            SetupView {
                draft: DraftView { name: Some(vendor), ..self.draft },
                ..self
            }.entered(Stage::BaseUrl)
        } else {
            self
        }
    }

    /// Whether the wizard takes text.
    pub open spec fn takes_text(self) -> bool {
        self.stage is CustomName || self.stage is BaseUrl || self.stage is ApiKey
    }

    /// The wizard after a paste.
    pub open spec fn pasted(self, t: Seq<char>) -> Self {
        if self.takes_text() {
            SetupView { buffer: self.buffer + text::unspaced(t), ..self }
        } else {
            self
        }
    }

    /// Rows that the wizard takes.
    pub open spec fn rows(self) -> nat {
        if !self.open {
            0
        } else {
            match self.stage {
                Stage::Name => NAME_COUNT as nat,
                Stage::Protocol => PROTOCOL_COUNT as nat,
                _ => 1,
            }
        }
    }

    /// What the input line shows while the wizard is open; a key is shown as
    /// asterisks.
    pub open spec fn echo(self) -> Option<Seq<char>> {
        match self.stage {
            Stage::CustomName | Stage::BaseUrl => Some(self.buffer),
            Stage::ApiKey => Some(text::run_of('*', self.buffer.len())),
            _ => None,
        }
    }

    /// What the input line shows where it echoes nothing.
    pub open spec fn hint(self) -> Seq<char> {
        match self.stage {
            Stage::Name => "choose a provider"@,
            Stage::Protocol => "choose an API protocol"@,
            _ => ""@,
        }
    }

    /// The heading of a text stage.
    pub open spec fn label(self) -> Seq<char> {
        match self.stage {
            Stage::CustomName =>
                "name · gateway id (e.g. my-proxy) · Enter to continue · Esc to go back"@,
            Stage::BaseUrl => "base_url · required · Enter to continue · Esc to go back"@,
            _ => if self.needs_key() {
                "api_key · required · Enter to save · Esc to go back"@
            } else {
                "api_key · empty keeps current · Enter to save · Esc to go back"@
            },
        }
    }

    /// The lines that the wizard is drawn as.
    pub open spec fn drawn(self) -> Seq<Seq<style::SpanView>> {
        match self.stage {
            Stage::Name => list::choices(
                Seq::new(NAME_COUNT as nat, |i: int| name_entry(i as nat)),
                self.selected,
            ),
            Stage::Protocol => list::choices(
                Seq::new(
                    PROTOCOL_COUNT as nat,
                    |i: int|
                        (protocol_at(i as usize).word(), protocol_desc(protocol_at(i as usize))),
                ),
                self.selected,
            ),
            _ => seq![seq![style::SpanView { text: self.label(), style: theme::dim() }]],
        }
    }
}

impl SetupWizard {
    /// A closed wizard beside the current settings.
    pub fn new(current: ProviderConfig) -> (w: Self)
        ensures
            w@ == fresh_setup(current@),
            w@.wf(),
    {
        SetupWizard {
            current,
            draft: Draft::empty(),
            stage: Stage::Name,
            selected: 0,
            buffer: String::new(),
            open: false,
        }
    }

    /// Whether the wizard is open.
    pub fn is_open(&self) -> (yes: bool)
        ensures
            yes == self@.open,
    {
        self.open
    }

    /// What the wizard asks for.
    pub fn stage(&self) -> (stage: Stage)
        ensures
            stage == self@.stage,
    {
        self.stage
    }

    /// The selected entry of the list that is shown.
    pub fn selected(&self) -> (at: usize)
        ensures
            at == self@.selected,
    {
        self.selected
    }

    /// What was typed in the stage.
    pub fn buffer(&self) -> (out: &str)
        ensures
            out@ == self@.buffer,
    {
        self.buffer.as_str()
    }

    /// Takes other settings as the current ones.
    pub fn set_current(&mut self, current: ProviderConfig)
        ensures
            final(self)@ == (SetupView { current: current@, ..old(self)@ }),
    {
        self.current = current;
    }

    /// Opens the wizard at its first stage.
    pub fn open(&mut self)
        ensures
            final(self)@ == old(self)@.opened(),
            final(self)@.wf(),
    {
        self.open = true;
        self.draft = Draft::empty();
        self.enter_stage(Stage::Name);
    }

    /// Closes the wizard and drops what was typed.
    pub fn close(&mut self)
        ensures
            final(self)@ == fresh_setup(old(self)@.current),
            final(self)@.wf(),
    {
        self.open = false;
        self.draft = Draft::empty();
        self.stage = Stage::Name;
        self.selected = 0;
        self.buffer = String::new();
    }

    /// Rows that the wizard takes, none while it is closed.
    pub fn height(&self) -> (rows: u16)
        ensures
            rows == self@.rows(),
    {
        if !self.open {
            return 0;
        }
        match self.stage {
            Stage::Name => NAME_COUNT as u16,
            Stage::Protocol => PROTOCOL_COUNT as u16,
            Stage::CustomName | Stage::BaseUrl | Stage::ApiKey => 1,
        }
    }

    /// What the input line shows where it echoes nothing.
    pub fn prompt_hint(&self) -> (out: &'static str)
        ensures
            out@ == self@.hint(),
    {
        match self.stage {
            Stage::Name => "choose a provider",
            Stage::Protocol => "choose an API protocol",
            Stage::CustomName | Stage::BaseUrl | Stage::ApiKey => "",
        }
    }

    /// What the input line echoes; a key is shown as asterisks.
    pub fn prompt_value(&self) -> (out: Option<String>)
        ensures
            event::text_view(out) == self@.echo(),
    {
        match self.stage {
            Stage::CustomName | Stage::BaseUrl => Some(self.buffer.clone()),
            Stage::ApiKey => {
                let cs = text::chars_of(self.buffer.as_str());
                Some(text::repeat_char('*', cs.len()))
            },
            Stage::Name | Stage::Protocol => None,
        }
    }

    /// The lines of the open wizard.
    pub fn lines(&self) -> (out: Vec<Line>)
        ensures
            seqs::views(out@) == self@.drawn(),
    {
        match self.stage {
            Stage::Name => {
                let ghost all = Seq::new(NAME_COUNT as nat, |i: int| name_entry(i as nat));
                let mut items: Vec<(String, String)> = Vec::new();
                let mut i: usize = 0;
                while i < NAME_COUNT
                    invariant
                        i <= NAME_COUNT,
                        items@.len() == i,
                        all == Seq::new(NAME_COUNT as nat, |i: int| name_entry(i as nat)),
                        forall|j: int| 0 <= j < i ==> list::pair_views(items@)[j] == all[j],
                    decreases NAME_COUNT - i,
                {
                    let item = name_item(i);
                    items.push((item.0.to_owned(), item.1.to_owned()));
                    i += 1;
                }
                assert(list::pair_views(items@) =~= all);
                list::choice_lines(&items, self.selected)
            },
            Stage::Protocol => {
                let items = vec![
                    (
                        Protocol::Completions.name().to_owned(),
                        protocol_text(Protocol::Completions).to_owned(),
                    ),
                    (
                        Protocol::Responses.name().to_owned(),
                        protocol_text(Protocol::Responses).to_owned(),
                    ),
                ];
                assert(list::pair_views(items@) =~= Seq::new(
                    PROTOCOL_COUNT as nat,
                    |i: int|
                        (protocol_at(i as usize).word(), protocol_desc(protocol_at(i as usize))),
                ));
                list::choice_lines(&items, self.selected)
            },
            Stage::CustomName => self.label_lines(
                "name · gateway id (e.g. my-proxy) · Enter to continue · Esc to go back",
            ),
            Stage::BaseUrl => self.label_lines(
                "base_url · required · Enter to continue · Esc to go back",
            ),
            Stage::ApiKey => if self.requires_new_key() {
                self.label_lines("api_key · required · Enter to save · Esc to go back")
            } else {
                self.label_lines("api_key · empty keeps current · Enter to save · Esc to go back")
            },
        }
    }

    fn label_lines(&self, label: &str) -> (out: Vec<Line>)
        ensures
            seqs::views(out@) == seq![seq![style::SpanView { text: label@, style: theme::dim() }]],
    {
        let out = vec![Line::of(label.to_owned(), theme::dim())];
        assert(seqs::views(out@) =~= seq![
            seq![style::SpanView { text: label@, style: theme::dim() }],
        ]);
        out
    }

    /// Takes pasted text, without its whitespace.
    pub fn paste(&mut self, t: &str)
        ensures
            final(self)@ == old(self)@.pasted(t@),
            old(self)@.wf() ==> final(self)@.wf(),
    {
        match self.stage {
            Stage::Name | Stage::Protocol => {},
            Stage::CustomName | Stage::BaseUrl | Stage::ApiKey => {
                let cleaned = text::strip_whitespace(t);
                self.buffer.append(cleaned.as_str());
            },
        }
    }

    /// Starts a stage.
    pub fn enter_stage(&mut self, stage: Stage)
        ensures
            final(self)@ == old(self)@.entered(stage),
            final(self)@.wf(),
    {
        self.stage = stage;
        self.selected = 0;
        self.buffer = String::new();
        match stage {
            Stage::Name => {
                self.selected = preselect_name(&self.current);
            },
            _ => {},
        }
    }

    fn requires_new_key(&self) -> (yes: bool)
        ensures
            yes == self@.needs_key(),
    {
        match &self.draft.name {
            Some(name) => match &self.current.name {
                Some(current) => !text::same_text(current.as_str(), name.as_str()),
                None => true,
            },
            None => false,
        }
    }

    fn handle_name_key(&mut self, key: &KeyEvent) -> (action: SetupWizardAction)
        requires
            old(self)@.stage is Name,
            old(self)@.wf(),
        ensures
            final(self)@ == old(self)@.after_key(*key),
            action@ == old(self)@.answer(*key),
            final(self)@.wf(),
    {
        match key.code {
            KeyCode::Up => {
                list::cycle_selected(&mut self.selected, NAME_COUNT, true);
                assert(self@ =~= old(self)@.after_key(*key));
                SetupWizardAction::Handled
            },
            KeyCode::Down => {
                list::cycle_selected(&mut self.selected, NAME_COUNT, false);
                assert(self@ =~= old(self)@.after_key(*key));
                SetupWizardAction::Handled
            },
            KeyCode::Enter => {
                if key.modifiers.is_empty() {
                    if self.selected == KEEP {
                        self.draft.name = None;
                        self.enter_stage(Stage::ApiKey);
                    } else if self.selected == CUSTOM {
                        self.enter_stage(Stage::CustomName);
                    } else {
                        self.draft.name = Some(name_item(self.selected).0.to_owned());
                        self.enter_stage(Stage::ApiKey);
                    }
                }
                SetupWizardAction::Handled
            },
            KeyCode::Esc => {
                self.close();
                SetupWizardAction::Close
            },
            _ => SetupWizardAction::Handled,
        }
    }

    fn handle_text_stage(&mut self, key: &KeyEvent) -> (action: SetupWizardAction)
        requires
            old(self)@.stage is CustomName || old(self)@.stage is BaseUrl,
        ensures
            final(self)@ == old(self)@.after_key(*key),
            action@ == old(self)@.answer(*key),
            final(self)@.wf(),
    {
        if let Some(c) = typing_char(key) {
            self.buffer.push(c);
            return SetupWizardAction::Handled;
        }
        match key.code {
            KeyCode::Backspace => {
                self.buffer = text::drop_last_char(self.buffer.as_str());
                SetupWizardAction::Handled
            },
            KeyCode::Enter => {
                if !key.modifiers.is_empty() {
                    return SetupWizardAction::Handled;
                }
                let value = text::trim(self.buffer.as_str());
                if value.as_str().is_empty() {
                    return SetupWizardAction::Handled;
                }
                match self.stage {
                    Stage::CustomName => SetupWizardAction::Resolve(value),
                    _ => {
                        self.draft.base_url = Some(value);
                        self.enter_stage(Stage::Protocol);
                        SetupWizardAction::Handled
                    },
                }
            },
            KeyCode::Esc => {
                match self.stage {
                    Stage::BaseUrl => self.enter_stage(Stage::CustomName),
                    _ => self.enter_stage(Stage::Name),
                }
                SetupWizardAction::Handled
            },
            _ => SetupWizardAction::Handled,
        }
    }

    /// Takes the canonical form of the provider's name that was typed.
    pub fn vendor_resolved(&mut self, vendor: String)
        ensures
            final(self)@ == old(self)@.resolved(vendor@),
            old(self)@.wf() ==> final(self)@.wf(),
    {
        match self.stage {
            Stage::CustomName => {
                self.draft.name = Some(vendor);
                self.enter_stage(Stage::BaseUrl);
            },
            _ => {},
        }
    }

    fn handle_protocol_key(&mut self, key: &KeyEvent) -> (action: SetupWizardAction)
        requires
            old(self)@.stage is Protocol,
            old(self)@.wf(),
        ensures
            final(self)@ == old(self)@.after_key(*key),
            action@ == old(self)@.answer(*key),
            final(self)@.wf(),
    {
        match key.code {
            KeyCode::Up => {
                list::cycle_selected(&mut self.selected, PROTOCOL_COUNT, true);
                assert(self@ =~= old(self)@.after_key(*key));
                SetupWizardAction::Handled
            },
            KeyCode::Down => {
                list::cycle_selected(&mut self.selected, PROTOCOL_COUNT, false);
                assert(self@ =~= old(self)@.after_key(*key));
                SetupWizardAction::Handled
            },
            KeyCode::Enter => {
                if key.modifiers.is_empty() {
                    self.draft.protocol = Some(protocol_at(self.selected));
                    self.enter_stage(Stage::ApiKey);
                }
                SetupWizardAction::Handled
            },
            KeyCode::Esc => {
                self.enter_stage(Stage::BaseUrl);
                SetupWizardAction::Handled
            },
            _ => SetupWizardAction::Handled,
        }
    }

    fn handle_api_key(&mut self, key: &KeyEvent) -> (action: SetupWizardAction)
        requires
            old(self)@.stage is ApiKey,
        ensures
            final(self)@ == old(self)@.after_key(*key),
            action@ == old(self)@.answer(*key),
            final(self)@.wf(),
    {
        if let Some(c) = typing_char(key) {
            self.buffer.push(c);
            return SetupWizardAction::Handled;
        }
        match key.code {
            KeyCode::Backspace => {
                self.buffer = text::drop_last_char(self.buffer.as_str());
                SetupWizardAction::Handled
            },
            KeyCode::Enter => {
                if !key.modifiers.is_empty() {
                    return SetupWizardAction::Handled;
                }
                let value = text::trim(self.buffer.as_str());
                if value.as_str().is_empty() && self.requires_new_key() {
                    return SetupWizardAction::Handled;
                }
                self.draft.api_key = nonempty(value.as_str());
                let line = compose(&self.draft);
                assert(self.draft@ =~= old(self)@.keyed());
                self.close();
                match line {
                    Some(line) => SetupWizardAction::Submit(line),
                    None => SetupWizardAction::Close,
                }
            },
            KeyCode::Esc => {
                if self.draft.base_url.is_some() {
                    self.enter_stage(Stage::Protocol);
                } else {
                    self.enter_stage(Stage::Name);
                }
                SetupWizardAction::Handled
            },
            _ => SetupWizardAction::Handled,
        }
    }

    /// Handles keys while the wizard is open.
    pub fn handle_key(&mut self, key: &KeyEvent) -> (action: SetupWizardAction)
        requires
            old(self)@.wf(),
        ensures
            final(self)@ == old(self)@.after_key(*key),
            action@ == old(self)@.answer(*key),
            final(self)@.wf(),
    {
        match self.stage {
            Stage::Name => self.handle_name_key(key),
            Stage::CustomName | Stage::BaseUrl => self.handle_text_stage(key),
            Stage::Protocol => self.handle_protocol_key(key),
            Stage::ApiKey => self.handle_api_key(key),
        }
    }
}

/// A provider other than the current one is never set up without a key.
pub proof fn switching_needs_a_key(v: SetupView, key: KeyEvent)
    requires
        v.stage is ApiKey,
        v.needs_key(),
        v.answer(key) is Submit,
    ensures
        v.keyed().api_key is Some,
        v.answer(key) == SetupActionView::Submit(composed(v.keyed())->0),
{
}

/// A wizard that submits or closes is closed, and keeps nothing of what was
/// typed.
pub proof fn a_finished_wizard_forgets(v: SetupView, key: KeyEvent)
    requires
        v.answer(key) is Submit || v.answer(key) is Close,
    ensures
        v.after_key(key) == fresh_setup(v.current),
{
}

/// A key is never echoed: the input line shows one asterisk for each of its
/// characters.
pub proof fn keys_are_masked(v: SetupView)
    requires
        v.stage is ApiKey,
    ensures
        v.echo() matches Some(shown) && shown.len() == v.buffer.len() && forall|i: int|
            0 <= i < shown.len() ==> shown[i] == '*',
{
}

/// Taking the marked provider takes the one that its row names and asks for the
/// key; the gateway asks for its name first, and the last row keeps the provider.
pub proof fn the_marked_provider_is_taken(v: SetupView, enter: KeyEvent, i: int)
    requires
        v.stage is Name,
        v.wf(),
        enter.code is Enter,
        enter.modifiers.is_empty(),
        0 <= i < v.drawn().len(),
        v.drawn()[i][0].text == "▸ "@,
    ensures
        ({
            let next = v.after_key(enter);
            &&& v.drawn().len() == 6
            &&& i < 4 ==> next.draft.name == Some(v.drawn()[i][1].text) && next.stage is ApiKey
            &&& i == 4 ==> next.stage is CustomName && next.draft == v.draft
            &&& i == 5 ==> next.draft.name is None && next.stage is ApiKey
            &&& next.draft.base_url == v.draft.base_url
            &&& next.draft.protocol == v.draft.protocol
            &&& next.buffer.len() == 0
            &&& next.open == v.open
            &&& v.answer(enter) is Handled
        }),
{
    let items = Seq::new(NAME_COUNT as nat, |k: int| name_entry(k as nat));
    list::lists_show_their_entries(items, v.selected, i);
}

/// Taking the marked protocol takes the one that its row names, and asks for the
/// key.
pub proof fn the_marked_protocol_is_taken(v: SetupView, enter: KeyEvent, i: int)
    requires
        v.stage is Protocol,
        v.wf(),
        enter.code is Enter,
        enter.modifiers.is_empty(),
        0 <= i < v.drawn().len(),
        v.drawn()[i][0].text == "▸ "@,
    ensures
        ({
            let next = v.after_key(enter);
            &&& next.draft.protocol matches Some(p) && p.word() == v.drawn()[i][1].text
            &&& next.stage is ApiKey
            &&& next.draft.name == v.draft.name
            &&& next.draft.base_url == v.draft.base_url
        }),
{
    let items = Seq::new(
        PROTOCOL_COUNT as nat,
        |k: int| (protocol_at(k as usize).word(), protocol_desc(protocol_at(k as usize))),
    );
    list::lists_show_their_entries(items, v.selected, i);
}

/// The arrows move the mark by one row, around the ends.
pub proof fn arrows_move_the_mark(v: SetupView, key: KeyEvent)
    requires
        v.wf(),
        v.stage is Name || v.stage is Protocol,
        key.code is Up || key.code is Down,
    ensures
        ({
            let next = v.after_key(key);
            let n = if v.stage is Name {
                6
            } else {
                2int
            };
            &&& key.code is Down ==> next.selected == if v.selected + 1 < n {
                v.selected + 1
            } else {
                0
            }
            &&& key.code is Up ==> next.selected == if v.selected > 0 {
                v.selected - 1
            } else {
                n - 1
            }
            &&& next == SetupView { selected: next.selected, ..v }
        }),
{
    list::cycling_moves_by_one(
        v.selected,
        if v.stage is Name {
            NAME_COUNT as nat
        } else {
            PROTOCOL_COUNT as nat
        },
    );
}

/// What is typed or pasted is taken over, without whitespace around it: the address
/// of a gateway into the draft, its name to be looked up, and the key into the
/// command.
pub proof fn typed_values_are_taken(v: SetupView, enter: KeyEvent, c: char, t: Seq<char>)
    requires
        enter.code is Enter,
        enter.modifiers.is_empty(),
        text::trimmed(v.buffer).len() > 0,
    ensures
        v.stage is BaseUrl ==> {
            &&& v.after_key(enter).draft.base_url == Some(text::trimmed(v.buffer))
            &&& v.after_key(enter).draft.name == v.draft.name
            &&& v.after_key(enter).stage is Protocol
        },
        v.stage is CustomName ==> v.answer(enter) == SetupActionView::Resolve(
            text::trimmed(v.buffer),
        ),
        v.stage is CustomName ==> v.resolved(t).draft.name == Some(t) && v.resolved(
            t,
        ).stage is BaseUrl,
        v.stage is ApiKey ==> (v.answer(enter) matches SetupActionView::Submit(line) && (
        " api_key="@ + text::trimmed(v.buffer)).is_suffix_of(line)),
        v.with_char(c).buffer == v.buffer.push(c),
        v.takes_text() ==> v.pasted(t).buffer == v.buffer + text::unspaced(t),
        !v.takes_text() ==> v.pasted(t) == v,
{
    if v.stage is ApiKey {
        let d = v.keyed();
        let line = composed(d)->0;
        let tail = " api_key="@ + text::trimmed(v.buffer);
        assert(argument(" api_key="@, d.api_key) == tail);
        assert(line.subrange(line.len() - tail.len(), line.len() as int) =~= tail);
    }
}

/// A value of the command, where there is one, and whether it is one word.
pub open spec fn is_word(value: Option<Seq<char>>) -> bool {
    value matches Some(v) ==> forall|k: int| 0 <= k < v.len() ==> !text::is_white(#[trigger] v[k])
}

/// A value of the command behind its label, where there is one.
pub open spec fn labelled(label: Seq<char>, value: Option<Seq<char>>) -> Seq<Seq<char>> {
    match value {
        Some(v) => seq![label + v],
        None => Seq::empty(),
    }
}

pub proof fn lemma_argument(
    line: Seq<char>,
    spaced: Seq<char>,
    label: Seq<char>,
    value: Option<Seq<char>>,
)
    requires
        spaced == seq![' '] + label,
        label.len() > 0,
        forall|k: int| 0 <= k < label.len() ==> !text::is_white(#[trigger] label[k]),
        is_word(value),
    ensures
        text::words_of(line + argument(spaced, value)) == text::words_of(line) + labelled(
            label,
            value,
        ),
{
    match value {
        Some(v) => {
            let word = label + v;
            assert(line + argument(spaced, value) =~= line.push(' ') + word);
            text::white_parts_words(line, ' ', word);
            assert forall|k: int| 0 <= k < word.len() implies !text::is_white(
                #[trigger] word[k],
            ) by {
                if k < label.len() {
                    assert(word[k] == label[k]);
                } else {
                    assert(word[k] == v[k - label.len()]);
                }
            }
            text::unbroken_texts_are_words(word);
        },
        None => {
            assert(line + argument(spaced, value) =~= line);
            assert(text::words_of(line) + labelled(label, value) =~= text::words_of(line));
        },
    }
}

/// The command that sets up a draft has one word for each value that the draft
/// gives, behind its label, and none for the others.
pub proof fn the_command_names_each_value(d: DraftView)
    requires
        d != empty_draft(),
        is_word(d.name),
        is_word(d.base_url),
        is_word(d.api_key),
    ensures
        composed(d) matches Some(line) && text::words_of(line) == seq!["/setup"@] + labelled(
            "name="@,
            d.name,
        ) + labelled("base_url="@, d.base_url) + labelled("protocol="@, protocol_word(d.protocol))
            + labelled("api_key="@, d.api_key),
{
    reveal_strlit("/setup");
    reveal_strlit(" name=");
    reveal_strlit("name=");
    reveal_strlit(" base_url=");
    reveal_strlit("base_url=");
    reveal_strlit(" protocol=");
    reveal_strlit("protocol=");
    reveal_strlit(" api_key=");
    reveal_strlit("api_key=");
    reveal_strlit("completions");
    reveal_strlit("responses");
    let a = "/setup"@;
    text::unbroken_texts_are_words(a);
    assert(" name="@ =~= seq![' '] + "name="@);
    assert(" base_url="@ =~= seq![' '] + "base_url="@);
    assert(" protocol="@ =~= seq![' '] + "protocol="@);
    assert(" api_key="@ =~= seq![' '] + "api_key="@);
    let b = a + argument(" name="@, d.name);
    let c = b + argument(" base_url="@, d.base_url);
    let e = c + argument(" protocol="@, protocol_word(d.protocol));
    lemma_argument(a, " name="@, "name="@, d.name);
    lemma_argument(b, " base_url="@, "base_url="@, d.base_url);
    lemma_argument(c, " protocol="@, "protocol="@, protocol_word(d.protocol));
    lemma_argument(e, " api_key="@, "api_key="@, d.api_key);
}

/// Esc goes one stage back, keeping what was set up so far, and from the providers
/// closes the wizard.
pub proof fn esc_goes_a_stage_back(v: SetupView, esc: KeyEvent)
    requires
        esc.code is Esc,
    ensures
        v.stage is Name ==> v.answer(esc) is Close && !v.after_key(esc).open,
        v.stage is CustomName ==> v.after_key(esc).stage is Name,
        v.stage is BaseUrl ==> v.after_key(esc).stage is CustomName,
        v.stage is Protocol ==> v.after_key(esc).stage is BaseUrl,
        v.stage is ApiKey && v.draft.base_url is Some ==> v.after_key(esc).stage is Protocol,
        v.stage is ApiKey && v.draft.base_url is None ==> v.after_key(esc).stage is Name,
        !(v.stage is Name) ==> v.after_key(esc).draft == v.draft && v.after_key(esc).open == v.open
            && v.answer(esc) is Handled && v.after_key(esc).buffer.len() == 0,
{
}

/// Where the wizard opens, the current provider is marked; one that the list does
/// not have, or none, marks the row that keeps it. Nothing is set up yet.
pub proof fn the_current_provider_is_marked(v: SetupView, i: nat)
    requires
        i < 6,
    ensures
        ({
            let next = v.opened();
            &&& next.open
            &&& next.stage is Name
            &&& next.draft == empty_draft()
            &&& next.wf()
            &&& next.drawn()[next.selected as int][0].text == "▸ "@
            &&& (v.current.vendor matches Some(slug) ==> slug.len() > 0 ==> {
                ||| next.drawn()[next.selected as int][1].text == slug
                ||| next.selected == 5 && next.drawn()[i as int][1].text != slug
            })
            &&& v.current.vendor is None ==> next.selected == 5
        }),
{
    let next = v.opened();
    if let Some(slug) = v.current.vendor {
        lemma_find_name(slug, 0, i);
    }
    let items = Seq::new(NAME_COUNT as nat, |k: int| name_entry(k as nat));
    list::lists_show_their_entries(items, next.selected, i as int);
    list::lists_show_their_entries(items, next.selected, next.selected as int);
}

proof fn lemma_find_name(slug: Seq<char>, from: nat, i: nat)
    requires
        from <= 6,
        i < 6,
    ensures
        find_name(slug, from) < 6,
        name_entry(find_name(slug, from)).0 == slug || find_name(slug, from) == 5 && (i >= from
            ==> name_entry(i).0 != slug),
    decreases 6 - from,
{
    if from < 6 && name_entry(from).0 != slug {
        lemma_find_name(slug, from + 1, i);
    }
}

} // verus!
