//! What the session tells the plain widgets.
use vstd::prelude::*;
use vstd::string::*;

use crate::components::event;
use crate::text;
use crate::components::event::{ProviderConfig, ReasoningEffort, Role, TodoItem, Usage};

verus! {

/// A JSON value of the `serde_json` crate.
#[verifier::external_type_specification]
#[verifier::external_body]
pub struct ExJson(serde_json::Value);

/// The members of a JSON object that are strings; none for a value that is no
/// object.
pub uninterp spec fn text_members(v: serde_json::Value) -> Map<Seq<char>, Seq<char>>;

/// `Value::get` of the `serde_json` crate with `Value::as_str` on what it finds:
/// the string that an object holds under `key`, nothing where it holds none or
/// holds something else, or where the value is no object.
#[verifier::external_body]
pub(crate) fn text_member(v: &serde_json::Value, key: &str) -> (out: Option<String>)
    ensures
        match out {
            Some(t) => text_members(*v).contains_key(key@) && t@ == text_members(*v)[key@],
            None => !text_members(*v).contains_key(key@),
        },
{
    v.get(key).and_then(|m| m.as_str()).map(|t| t.to_owned())
}

/// What a call of a tool is shown as: the command that a shell call runs, else
/// the tool's name.
pub open spec fn call_text(name: Seq<char>, command: Option<Seq<char>>) -> Seq<char> {
    match command {
        Some(c) => if name == "bash"@ && text::trimmed(c).len() > 0 {
            text::trimmed(c)
        } else {
            name
        },
        None => name,
    }
}

/// The command that a call of a tool names, if any.
pub open spec fn command_of(input: serde_json::Value) -> Option<Seq<char>> {
    if text_members(input).contains_key("command"@) {
        Some(text_members(input)["command"@])
    } else {
        None
    }
}

/// Writes a call of a tool that names `command`.
pub fn display_call(name: &str, command: &Option<String>) -> (out: String)
    ensures
        out@ == call_text(name@, event::text_view(*command)),
{
    if text::same_text(name, "bash") {
        if let Some(c) = command {
            let c = text::trim(c.as_str());
            if !c.as_str().is_empty() {
                return c;
            }
        }
    }
    name.to_owned()
}

/// Writes a call of a tool with its input.
pub fn tool_display(name: &str, input: &serde_json::Value) -> (out: String)
    ensures
        out@ == call_text(name@, command_of(*input)),
{
    let command = text_member(input, "command");
    assert(event::text_view(command) == command_of(*input));
    display_call(name, &command)
}

/// What the agent reports while it works.
#[derive(Debug)]
pub enum AgentEvent {
    ThinkingDelta { text: String },
    TextDelta { text: String },
    ToolStart { name: String, input: serde_json::Value },
    ToolEnd { ok: bool, output: String },
    Done { text: String, usage: Usage },
    Cancelled,
    HistoryCleared,
    ModelChanged { model: String, reasoning_effort: Option<ReasoningEffort> },
    TodoUpdated { items: Vec<TodoItem> },
}

/// Something the session tells the widgets.
#[allow(inconsistent_fields)]
#[derive(Debug)]
pub enum AppEvent {
    Agent { event: AgentEvent },
    ModelsUpdated { models: Vec<(String, String)> },
    ProviderUpdated { provider: ProviderConfig },
    Exit,
    Notify { text: String },
    Rewound { text: Option<String>, messages: Vec<Message>, usage: Usage },
    Idle,
    Error { message: String },
}

/// A piece of a message.
#[derive(Debug)]
pub enum ContentBlock {
    Text { text: String },
    Thinking { thinking: String },
    ToolUse { name: String, input: serde_json::Value },
    ToolResult { content: Vec<ContentBlock>, is_error: bool },
    Image,
}

/// A message of the history.
#[derive(Debug)]
pub struct Message {
    pub role: Role,
    pub content: Vec<ContentBlock>,
}

/// A shell call with a command shows that command but for the white space around
/// it; any other call shows the tool's name.
pub proof fn shell_calls_show_their_command(name: Seq<char>, command: Option<Seq<char>>)
    ensures
        ({
            let shown = call_text(name, command);
            &&& name != "bash"@ ==> shown == name
            &&& command is None ==> shown == name
            &&& (name == "bash"@ && command is Some && exists|i: int|
                0 <= i < command->0.len() && !text::is_white(#[trigger] command->0[i])) ==> {
                &&& exists|a: int, b: int|
                    #![trigger command->0.subrange(a, b)]
                    0 <= a < b <= command->0.len() && shown == command->0.subrange(a, b) && (
                    forall|i: int|
                        0 <= i < command->0.len() && !text::is_white(#[trigger] command->0[i]) ==> a
                            <= i < b)
                &&& !text::is_white(shown[0])
                &&& !text::is_white(shown.last())
            }
        }),
{
    if name == "bash"@ && command is Some {
        text::trimming_loses_only_white(command->0);
    }
}

} // verus!
