//! What the session tells the widgets.
use vstd::prelude::*;

verus! {

/// How the agent may act.
#[derive(Clone, Copy, Debug, PartialEq, Eq, Structural)]
pub enum AgentMode {
    Default,
    Plan,
}

impl AgentMode {
    /// The other mode.
    #[verifier::allow_in_spec]
    pub fn toggle(self) -> AgentMode
        returns
            (match self {
                AgentMode::Default => AgentMode::Plan,
                AgentMode::Plan => AgentMode::Default,
            }),
    {
        match self {
            AgentMode::Default => AgentMode::Plan,
            AgentMode::Plan => AgentMode::Default,
        }
    }

    /// The word that the status bar shows.
    pub open spec fn label_text(self) -> Seq<char> {
        match self {
            AgentMode::Default => "agent"@,
            AgentMode::Plan => "plan"@,
        }
    }

    /// The word that the status bar shows.
    pub fn label(self) -> (out: &'static str)
        ensures
            out@ == self.label_text(),
    {
        match self {
            AgentMode::Default => "agent",
            AgentMode::Plan => "plan",
        }
    }
}

/// How much a model reasons before it answers.
#[derive(Clone, Copy, Debug, PartialEq, Eq, Structural)]
pub enum ReasoningEffort {
    Off,
    Low,
    Medium,
    High,
}

impl ReasoningEffort {
    /// The word for the effort.
    pub open spec fn word(self) -> Seq<char> {
        match self {
            ReasoningEffort::Off => "none"@,
            ReasoningEffort::Low => "low"@,
            ReasoningEffort::Medium => "medium"@,
            ReasoningEffort::High => "high"@,
        }
    }

    /// The word for the effort.
    pub fn name(self) -> (out: &'static str)
        ensures
            out@ == self.word(),
    {
        match self {
            ReasoningEffort::Off => "none",
            ReasoningEffort::Low => "low",
            ReasoningEffort::Medium => "medium",
            ReasoningEffort::High => "high",
        }
    }
}

/// Tokens that a turn used.
#[derive(Clone, Copy, Debug, PartialEq, Eq, Structural)]
pub struct Usage {
    pub input_tokens: u32,
    pub output_tokens: u32,
    pub cache_read_tokens: u32,
    pub reasoning_tokens: u32,
}

impl Usage {
    /// No tokens at all.
    #[verifier::allow_in_spec]
    pub fn zero() -> Usage
        returns
            (Usage {
                input_tokens: 0,
                output_tokens: 0,
                cache_read_tokens: 0,
                reasoning_tokens: 0,
            }),
    {
        Usage { input_tokens: 0, output_tokens: 0, cache_read_tokens: 0, reasoning_tokens: 0 }
    }
}

/// How a tool call is shown: a summary line, a body such as a diff, and
/// whether it shares a row with its neighbours.
#[derive(Debug)]
pub struct ToolView {
    pub summary: String,
    pub detail: Option<String>,
    pub collapse: bool,
}

/// How a tool call ended.
#[allow(inconsistent_fields)]
#[derive(Debug)]
pub enum ToolResult {
    Success { output: String },
    Failed { error: String, output: Option<String> },
    Rejected { reason: String },
    Cancelled,
}

/// One entry of the session's task list.
#[derive(Debug)]
pub struct TodoItem {
    pub id: String,
    pub content: String,
    pub status: TodoStatus,
}

/// How far a task is.
#[derive(Clone, Copy, Debug, PartialEq, Eq, Structural)]
pub enum TodoStatus {
    Pending,
    InProgress,
    Completed,
    Cancelled,
}

/// What the agent reports while it works.
#[derive(Debug)]
pub enum AgentEvent {
    ThinkingDelta { text: String },
    ThinkingDone { duration_ms: u64 },
    TextDelta { text: String },
    ApprovalRequested { view: ToolView },
    ToolStarted { call_id: u64, view: ToolView },
    ToolOutputDelta,
    ToolFinished { call_id: u64, result: ToolResult },
    TurnStarted,
    LoopLimitReached { max_iters: usize },
    Completed { usage: Usage },
    Cancelled,
    Failed { message: String },
    UsageReported,
    TodosChanged { items: Vec<TodoItem> },
}

/// What became of a shell command.
#[derive(Debug)]
pub enum ShellEvent {
    Started,
    Finished { output: String, exit_code: i32 },
    Failed { error: String, output: String },
}

/// The wire protocol of a provider.
#[derive(Clone, Copy, Debug, PartialEq, Eq, Structural)]
pub enum Protocol {
    Completions,
    Responses,
}

impl Protocol {
    /// The word for the protocol.
    pub open spec fn word(self) -> Seq<char> {
        match self {
            Protocol::Completions => "completions"@,
            Protocol::Responses => "responses"@,
        }
    }

    /// The word for the protocol.
    pub fn name(self) -> (out: &'static str)
        ensures
            out@ == self.word(),
    {
        match self {
            Protocol::Completions => "completions",
            Protocol::Responses => "responses",
        }
    }
}

/// The settings of the model provider that the widgets read: its name as it was
/// written, the canonical form of that name, and the wire protocol.
#[derive(Debug)]
pub struct ProviderConfig {
    pub name: Option<String>,
    pub vendor: Option<String>,
    pub protocol: Option<Protocol>,
}

/// The characters of a text that may be there.
pub open spec fn text_view(t: Option<String>) -> Option<Seq<char>> {
    match t {
        Some(t) => Some(t@),
        None => None,
    }
}

/// A copy of a text that may be there.
pub fn copy_text(t: &Option<String>) -> (out: Option<String>)
    ensures
        text_view(out) == text_view(*t),
{
    match t {
        Some(t) => Some(t.clone()),
        None => None,
    }
}

/// The settings of the model provider.
#[verifier::ext_equal]
pub struct ProviderView {
    pub name: Option<Seq<char>>,
    pub vendor: Option<Seq<char>>,
    pub protocol: Option<Protocol>,
}

impl View for ProviderConfig {
    type V = ProviderView;

    open spec fn view(&self) -> ProviderView {
        ProviderView {
            name: text_view(self.name),
            vendor: text_view(self.vendor),
            protocol: self.protocol,
        }
    }
}

impl ProviderConfig {
    /// Settings that say nothing.
    pub fn empty() -> (c: ProviderConfig)
        ensures
            c@ == (ProviderView { name: None, vendor: None, protocol: None }),
    {
        ProviderConfig { name: None, vendor: None, protocol: None }
    }

    /// A copy of the settings.
    pub fn copy(&self) -> (c: ProviderConfig)
        ensures
            c@ == self@,
    {
        ProviderConfig {
            name: copy_text(&self.name),
            vendor: copy_text(&self.vendor),
            protocol: self.protocol,
        }
    }
}

/// A part of the session's state that changed.
#[derive(Debug)]
pub enum StateChange {
    ModelsChanged { models: Vec<(String, String)> },
    ProviderChanged { provider: ProviderConfig },
    UsageChanged { usage: Usage },
    HistoryChanged,
    ModelChanged { model: String, reasoning_effort: Option<ReasoningEffort> },
    ModeChanged { mode: AgentMode },
}

/// Something the session tells the widgets.
#[derive(Debug)]
pub enum AppEvent {
    Agent(AgentEvent),
    Shell(ShellEvent),
    CompactionStarted,
    CompactionCompleted,
    StateChanged(StateChange),
    Exited,
    Idle,
    Rewound,
    Notification { text: String },
    Error { message: String },
}

/// Who a message of the history is from.
#[derive(Clone, Copy, Debug, PartialEq, Eq, Structural)]
pub enum Role {
    System,
    User,
    Assistant,
    Tool,
}

/// A piece of a message. A shell command that the user ran is kept as a piece
/// of its own.
#[derive(Debug)]
pub enum ContentBlock {
    Text { text: String },
    Shell { command: String, output: String, ok: bool },
    Thinking { thinking: String },
    ToolUse { id: String, view: ToolView },
    ToolResult { tool_use_id: String, content: Vec<ContentBlock>, is_error: bool },
    Image,
}

/// A message of the history.
#[derive(Debug)]
pub struct Message {
    pub role: Role,
    pub content: Vec<ContentBlock>,
    /// How long the reasoning in it took, where that is known.
    pub thinking_ms: Option<u64>,
}

/// The mode toggle leads to another mode, named otherwise, and back.
pub proof fn toggling_a_mode_comes_back(m: AgentMode)
    ensures
        m.toggle() != m,
        m.toggle().toggle() == m,
        m.toggle().label_text() != m.label_text(),
{
    reveal_strlit("agent");
    reveal_strlit("plan");
    assert("agent"@.len() != "plan"@.len());
}

} // verus!
