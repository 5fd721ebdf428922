use oven_tui::components::component::{Action, KeyResult};
use oven_tui::components::event::{
    AgentEvent, AppEvent, ContentBlock, Message, Role, ShellEvent, ToolResult, ToolView, Usage,
};
use oven_tui::components::theme;
use oven_tui::components::transcript::collapsible::Section;
use oven_tui::components::transcript::kinds::{
    LineKind, COLLAPSED_MARKER, LINE_INDENT, LINE_PREFIX_WIDTH, MESSAGE_INDENT,
};
use oven_tui::components::transcript::selection::{
    extract_line_range, highlight_line, slice_cols,
};
use oven_tui::components::transcript::widget::{Transcript, LOOP_LIMIT_REACHED};
use oven_tui::components::transcript::wrap::{
    apply_thinking_shimmer, format_lines, format_thought, line_display_width, shimmer_len,
    tail_lines, MAX_LIVE_BODY_LINES, MAX_SHELL_DISPLAY_LINES, RESULT_LABEL, THINKING_LABEL,
    THOUGHT_LABEL,
};
use oven_tui::keys::{
    KeyCode, KeyEvent, KeyModifiers, MouseButton, MouseEvent, MouseEventKind,
};
use oven_tui::style::{Color, Line, Rect, Style};
use serde_json::Value;
use unicode_width::{UnicodeWidthChar, UnicodeWidthStr};

const THOUGHT_0: &str = "Thought for 0s";
const THOUGHT_1_5S: &str = "Thought for 1.5s";
const THOUGHT_1M_1S: &str = "Thought for 1m 1s";
const EARLIER_4: &str = "… 4 earlier lines";
const EARLIER_2_CALLS: &str = "… 2 earlier calls";
const EDIT_SUCCESS: &str = "edited src/main.rs: replaced 1 occurrence(s), 3 bytes -> 3 bytes";
const EDIT_ERROR: &str = "old_string not found";

fn wide(t: &mut Transcript) {
    t.area.width = 80;
    t.rewrap_all();
}

fn fill(t: &mut Transcript, n: usize) {
    for i in 0..n {
        t.push_row(LineKind::Text, &format!("line {i}"));
    }
}

fn ready(t: &mut Transcript, area: Rect) {
    t.area = area;
    t.rewrap_all();
}

/// Lays the transcript out and gives the lines on the screen.
fn draw(t: &mut Transcript, area: Rect, frame: u64) -> Vec<Line> {
    t.lay_out(area);
    t.screen_lines(frame, &shades(t.shimmer_len(), 0.0))
}

/// Shades of gray along a label, as a wave at `phase` of its period.
fn shades(n: usize, phase: f32) -> Vec<u8> {
    (0..n)
        .map(|i| {
            let angle = (i as f32 / n as f32 - phase) * std::f32::consts::TAU;
            let wave = angle.cos() * 0.5 + 0.5;
            (100.0 + 100.0 * wave) as u8
        })
        .collect()
}

fn line_body(kind: LineKind, text: &str) -> String {
    format_lines(kind, text)[0]
        .spans
        .iter()
        .skip(1)
        .map(|s| s.content.as_str())
        .collect()
}

fn line_text(line: &Line) -> String {
    line.spans.iter().map(|s| s.content.as_str()).collect()
}

fn mouse(kind: MouseEventKind, column: u16, row: u16) -> MouseEvent {
    MouseEvent { kind, column, row }
}

fn double_click(t: &mut Transcript, column: u16, row: u16) {
    for kind in [
        MouseEventKind::Down(MouseButton::Left),
        MouseEventKind::Up(MouseButton::Left),
        MouseEventKind::Down(MouseButton::Left),
    ] {
        assert!(matches!(t.handle_mouse(&mouse(kind, column, row), 0, true), KeyResult::Handled));
    }
}

fn json(source: &str) -> Value {
    serde_json::from_str(source).expect("json")
}

/// How the agent presents a call of one of its tools.
fn present_tool(name: &str, input: &Value) -> ToolView {
    let arg = |key: &str| input.get(key).and_then(Value::as_str).unwrap_or("");
    let marked = |mark: &str, text: &str| {
        text.lines().map(|line| format!("{mark} {line}")).collect::<Vec<_>>().join("\n")
    };
    let (summary, detail, collapse) = match name {
        "bash" => (format!("Ran {}", arg("command")), None, true),
        "file_read" => (format!("Read {}", arg("path")), None, true),
        "grep" => (format!("Search {} in {}", arg("pattern"), arg("path")), None, true),
        "glob" => (format!("Find {} in {}", arg("pattern"), arg("path")), None, true),
        "file_edit" => (
            format!("Edit {}", arg("path")),
            Some(format!(
                "{}\n{}",
                marked("-", arg("old_string")),
                marked("+", arg("new_string"))
            )),
            true,
        ),
        "file_write" => (
            format!("Write {}", arg("path")),
            Some(marked("+", arg("content"))),
            true,
        ),
        _ => {
            let todos = input.get("todos").and_then(Value::as_array).map_or(0, Vec::len);
            (format!("{name} · {todos} todos (0 in_progress, 0 completed)"), None, false)
        }
    };
    ToolView { summary, detail, collapse }
}

fn todo_input() -> Value {
    json(r#"{ "todos": [{"id": "a", "content": "one", "status": "pending"}] }"#)
}

fn file_edit_input() -> Value {
    json(r#"{ "path": "src/main.rs", "old_string": "old", "new_string": "new" }"#)
}

fn file_edit_input_at(path: &str) -> Value {
    json(&format!(
        r#"{{ "path": "{path}", "old_string": "libold", "new_string": "libnew" }}"#
    ))
}

fn file_write_input() -> Value {
    json(r#"{ "path": "out.txt", "content": "line one\nline two" }"#)
}

fn text(text: &str) -> ContentBlock {
    ContentBlock::Text { text: text.to_string() }
}

fn shell(command: &str, output: &str, ok: bool) -> ContentBlock {
    ContentBlock::Shell { command: command.to_string(), output: output.to_string(), ok }
}

fn tool_use(id: &str, name: &str, input: Value) -> ContentBlock {
    ContentBlock::ToolUse { id: id.to_string(), view: present_tool(name, &input) }
}

fn user(content: Vec<ContentBlock>) -> Message {
    Message { role: Role::User, content, thinking_ms: None }
}

fn user_text(t: &str) -> Message {
    user(vec![text(t)])
}

fn assistant(content: Vec<ContentBlock>) -> Message {
    Message { role: Role::Assistant, content, thinking_ms: None }
}

fn thought_for(ms: u64, message: Message) -> Message {
    Message { thinking_ms: Some(ms), ..message }
}

fn tool_result(id: &str, output: &str, is_error: bool) -> Message {
    Message {
        role: Role::Tool,
        content: vec![ContentBlock::ToolResult {
            tool_use_id: id.to_string(),
            content: vec![text(output)],
            is_error,
        }],
        thinking_ms: None,
    }
}

fn agent(event: AgentEvent) -> AppEvent {
    AppEvent::Agent(event)
}

fn tool_start(call_id: u64, name: &str, input: Value) -> AppEvent {
    agent(AgentEvent::ToolStarted { call_id, view: present_tool(name, &input) })
}

fn tool_end(call_id: u64, ok: bool, output: &str) -> AppEvent {
    let result = if ok {
        ToolResult::Success { output: output.to_string() }
    } else {
        ToolResult::Failed { error: output.to_string(), output: Some(output.to_string()) }
    };
    agent(AgentEvent::ToolFinished { call_id, result })
}

fn text_delta(text: &str) -> AppEvent {
    agent(AgentEvent::TextDelta { text: text.to_string() })
}

fn thinking(text: &str) -> AppEvent {
    agent(AgentEvent::ThinkingDelta { text: text.to_string() })
}

fn thinking_done(duration_ms: u64) -> AppEvent {
    agent(AgentEvent::ThinkingDone { duration_ms })
}

fn stream_thinking(t: &mut Transcript, lines: usize) {
    for i in 1..=lines {
        let delta = format!("t{i:02}\n");
        t.on_event(&thinking(&delta));
    }
}

fn started() -> AppEvent {
    agent(AgentEvent::TurnStarted)
}

fn completed() -> AppEvent {
    agent(AgentEvent::Completed { usage: Usage::zero() })
}

fn cancelled() -> AppEvent {
    agent(AgentEvent::Cancelled)
}

fn loop_limit_reached(max_iters: usize) -> AppEvent {
    agent(AgentEvent::LoopLimitReached { max_iters })
}

fn kinds_of(t: &Transcript) -> Vec<LineKind> {
    t.rows.iter().map(|r| r.kind).collect()
}

fn all_details_collapsed(t: &Transcript) -> bool {
    t.rows
        .iter()
        .filter_map(|row| row.collapsible.as_ref())
        .all(|detail| !detail.is_expanded())
}

/// Diff calls of a burst row as `(item title, item body)` pairs.
fn diff_items(t: &Transcript) -> Vec<(String, String)> {
    t.rows[0]
        .collapsible
        .as_ref()
        .expect("burst detail")
        .visible_sections(None)
        .1
        .iter()
        .filter_map(|section| match section {
            Section::Item { title, detail, .. } => Some((title.clone(), detail.body())),
            Section::Text(_) => None,
        })
        .collect()
}

fn wrapped_row_of(t: &Transcript, needle: &str) -> u16 {
    t.wrapped
        .iter()
        .position(|line| line_text(line).contains(needle))
        .map(|idx| u16::try_from(idx).expect("screen row"))
        .expect("wrapped line")
}

#[test]
fn thinking_format_hides_content() {
    assert_eq!(line_body(LineKind::Thinking, "secret plan"), THOUGHT_LABEL);
    assert_eq!(
        line_body(LineKind::Thinking, THINKING_LABEL),
        THINKING_LABEL
    );
}

#[test]
fn thinking_header_has_no_gutter() {
    let mut t = Transcript::new();
    t.on_event(&thinking("secret chain"));
    t.on_event(&text_delta("answer"));
    wide(&mut t);
    let header = line_text(&t.wrapped[0]);
    let marker = format!("{MESSAGE_INDENT}{COLLAPSED_MARKER}");
    assert!(header.starts_with(&marker), "{header:?}");
}

#[test]
fn thinking_shimmer_preserves_label_and_shifts() {
    let line = format_lines(LineKind::Thinking, THINKING_LABEL)
        .pop()
        .unwrap();
    let a = apply_thinking_shimmer(&line, &shades(shimmer_len(&line), 0.0));
    let b = apply_thinking_shimmer(&line, &shades(shimmer_len(&line), 0.5));
    let body: String = a.spans.iter().skip(1).map(|s| s.content.as_str()).collect();
    assert_eq!(body, THINKING_LABEL);
    assert_eq!(a.spans.len(), 1 + THINKING_LABEL.chars().count());
    assert_ne!(a.spans[1].style.fg, b.spans[1].style.fg);
}

#[test]
fn tests_all_gutters_are_two_wide() {
    let kinds = [
        LineKind::User,
        LineKind::Shell,
        LineKind::Thinking,
        LineKind::Text,
        LineKind::Tool,
        LineKind::Diff,
        LineKind::ToolResult(true),
        LineKind::ToolResult(false),
        LineKind::ShellResult(true),
        LineKind::ShellResult(false),
        LineKind::Error,
        LineKind::System,
    ];
    for kind in kinds {
        assert_eq!(kind.gutter().width(), LINE_PREFIX_WIDTH);
        for ch in kind.gutter().chars() {
            assert_eq!(ch.width().unwrap_or(0), 1, "{ch:?} must be single-width");
        }
    }
}

#[test]
fn tests_assistant_gutter_is_bullet() {
    let lines = format_lines(LineKind::Text, "hi");
    assert_eq!(lines[0].spans[0].content, " ∙ ");
}

#[test]
fn assistant_gutter_is_drawn_once() {
    let lines = format_lines(LineKind::Text, "first\nsecond");
    assert_eq!(lines[0].spans[0].content, " ∙ ");
    assert_eq!(lines[1].spans[0].content, "   ");
    assert_eq!(
        lines[0].spans[0].content.width(),
        lines[1].spans[0].content.width()
    );
}

#[test]
fn wrapped_assistant_gutter_is_drawn_once() {
    let mut t = Transcript::new();
    t.push_row(LineKind::Text, "abcdefgh");
    ready(&mut t, Rect::new(0, 0, 7, 5));
    let rows: Vec<String> = t.wrapped.iter().map(line_text).collect();
    assert_eq!(rows, vec![" ∙ abcd", "   efgh"]);
}

#[test]
fn wrapped_streamed_assistant_gutter_is_drawn_once() {
    const WIDTH: u16 = 7;
    let mut t = Transcript::new();
    t.push_stream(LineKind::Text, "abcdefgh");
    let rows = draw(&mut t, Rect::new(0, 0, WIDTH, 3), 0);
    let row = |y: usize| rows[y].text();
    assert!(row(0).starts_with(" ∙ abcd"), "{:?}", row(0));
    assert!(row(1).starts_with("   efgh"), "{:?}", row(1));
}

#[test]
fn wrapped_shell_gutter_repeats() {
    let mut t = Transcript::new();
    t.push_row(LineKind::Shell, "abcdefgh");
    ready(&mut t, Rect::new(0, 0, 7, 5));
    let rows: Vec<String> = t.wrapped.iter().map(line_text).collect();
    assert_eq!(rows, vec![" $ abcd", " $ efgh"]);
}

#[test]
fn non_user_rows_share_one_message_indent() {
    let mut t = Transcript::new();
    for (kind, text) in [
        (LineKind::Text, "assistant text that is long enough to wrap"),
        (LineKind::Shell, "$ command that is long enough to wrap"),
        (LineKind::System, "system note"),
        (LineKind::Error, "failure note"),
        (LineKind::Tool, "tool summary"),
        (LineKind::ToolResult(false), "tool output"),
        (LineKind::Thinking, THOUGHT_LABEL),
    ] {
        t.push_row(kind, text);
    }
    for row in &mut t.rows {
        if let Some(collapsible) = row.collapsible.as_mut() {
            collapsible.toggle();
        }
    }
    ready(&mut t, Rect::new(0, 0, 20, 40));
    let indent = MESSAGE_INDENT.width() + LINE_PREFIX_WIDTH;
    for line in &t.wrapped {
        let text = line_text(line);
        if text.trim().is_empty() {
            continue;
        }
        let prefix = line.spans.first().map_or("", |s| s.content.as_str());
        assert_eq!(
            prefix.width(),
            indent,
            "{:?} must indent every non-user row by {indent}",
            text
        );
    }
}

#[test]
fn shell_command_gutter_is_dollar() {
    let lines = format_lines(LineKind::Shell, "ls");
    assert_eq!(lines[0].spans[0].content, " $ ");
    assert_eq!(lines[0].spans[0].style.fg, theme::shell().fg);
    assert_eq!(lines[0].spans[1].content, "ls");
    assert_eq!(lines[0].spans[1].style.fg, theme::shell().fg);
}

#[test]
fn regular_text_keeps_default_body_style() {
    let lines = format_lines(LineKind::Text, "hello");
    assert_eq!(lines[0].spans[1].style, Style::plain());
}

#[test]
fn diff_lines_have_add_remove_backgrounds() {
    let lines = format_lines(LineKind::Diff, "Edit file.txt\n- old\n+ new");
    assert_eq!(
        lines[1].spans[1].style.bg,
        Some(Color::LightRed)
    );
    assert_eq!(
        lines[2].spans[1].style.bg,
        Some(Color::LightGreen)
    );
}

#[test]
fn tests_tool_result_gutters() {
    let ok = format_lines(LineKind::ToolResult(true), "out");
    assert_eq!(ok[0].spans[0].content, "   ");
    let fail = format_lines(LineKind::ToolResult(false), "boom");
    assert_eq!(fail[0].spans[0].content, "   ");
}

#[test]
fn tests_streaming_does_not_yank_scrolled_view() {
    let mut t = Transcript::new();
    wide(&mut t);
    t.area.height = 3;
    fill(&mut t, 10);
    t.scroll_up(2);
    let anchored = t.top;
    assert!(anchored.is_some());
    t.push_stream(LineKind::Text, "more");
    assert_eq!(t.top, anchored, "reading position must not move");
}

#[test]
fn tests_streaming_follows_when_pinned() {
    let mut t = Transcript::new();
    wide(&mut t);
    t.area.height = 3;
    fill(&mut t, 10);
    assert!(t.top.is_none());
    t.push_stream(LineKind::Text, "more");
    assert!(t.top.is_none());
    t.rewrap_stream();
    assert_eq!(
        t.current_top(),
        t.total_lines().saturating_sub(t.area.height as usize)
    );
}

#[test]
fn tests_scroll_down_returns_to_bottom() {
    let mut t = Transcript::new();
    wide(&mut t);
    t.area.height = 3;
    fill(&mut t, 10);
    t.scroll_up(5);
    assert!(t.top.is_some());
    t.scroll_down(5);
    assert!(t.top.is_none());
}

#[test]
fn user_input_pins_to_bottom() {
    let mut t = Transcript::new();
    wide(&mut t);
    t.area.height = 3;
    fill(&mut t, 10);
    t.scroll_up(5);
    assert!(t.top.is_some());
    t.push_user("hello");
    assert!(t.top.is_none());
    assert_eq!(
        t.current_top(),
        t.total_lines().saturating_sub(t.area.height as usize)
    );
}

#[test]
fn shell_command_pins_to_bottom() {
    let mut t = Transcript::new();
    wide(&mut t);
    t.area.height = 3;
    fill(&mut t, 10);
    t.scroll_up(5);
    assert!(t.top.is_some());
    t.push_shell_command("ls");
    assert!(t.top.is_none());
}

#[test]
fn tool_end_updates_summary_without_result_row() {
    let mut t = Transcript::new();
    t.on_event(&tool_start(
        1,
        "bash",
        json(r#"{ "command": "ls" }"#),
    ));
    t.on_event(&tool_end(1, false, "boom\n"));
    let row = t.rows.last().unwrap();
    assert_eq!(row.kind, LineKind::Tool);
    assert_eq!(row.text, "Ran 1 command, 1 failed");
    assert_eq!(t.rows.len(), 1);
}

#[test]
fn tests_empty_ok_tool_end_renders_nothing() {
    let mut t = Transcript::new();
    let n = t.rows.len();
    t.on_event(&tool_end(1, true, ""));
    assert_eq!(t.rows.len(), n);
}

#[test]
fn unmatched_failed_tool_end_pushes_reason() {
    const REASON: &str = "tool 'file_write' is unavailable in Ask mode";
    let mut t = Transcript::new();
    t.on_event(&tool_end(1, false, REASON));
    assert_eq!(kinds_of(&t), vec![LineKind::System]);
    assert_eq!(t.rows[0].text, REASON);
}

#[test]
fn unmatched_rejected_tool_end_pushes_reason() {
    const REASON: &str = "tool execution was not performed: the user declined permission";
    let mut t = Transcript::new();
    t.on_event(&agent(AgentEvent::ToolFinished { call_id: 1, result: ToolResult::Rejected {
            reason: REASON.to_string(),
        } }));
    assert_eq!(kinds_of(&t), vec![LineKind::System]);
    assert_eq!(t.rows[0].text, REASON);
}

#[test]
fn tests_seed_renders_persisted_messages() {
    let mut t = Transcript::new();
    let messages = vec![
        user_text("hello"),
        assistant(vec![
            ContentBlock::Thinking {
                thinking: "hmm".to_string(),
            },
            ContentBlock::Text {
                text: "hi there".to_string(),
            },
            tool_use("c1", "bash", json(r#"{ "command": "ls" }"#)),
        ]),
        tool_result("c1", "done", false),
        user(vec![
            ContentBlock::Text {
                text: "thanks".to_string(),
            },
            ContentBlock::ToolResult {
                tool_use_id: "c1".to_string(),
                content: vec![text("boom")],
                is_error: true,
            },
        ]),
    ];
    t.seed(&messages);

    let kinds: Vec<LineKind> = t.rows.iter().map(|r| r.kind).collect();
    assert_eq!(
        kinds,
        vec![
            LineKind::User,
            LineKind::Thinking,
            LineKind::Text,
            LineKind::Tool,
            LineKind::User,
        ]
    );
    assert_eq!(t.rows[0].text, "hello");
    assert_eq!(t.rows[1].text, THOUGHT_LABEL);
    assert_eq!(t.rows[3].text, "Ran 1 command");
}

#[test]
fn tests_seed_empty_history_is_empty() {
    let mut t = Transcript::new();
    t.seed(&vec![]);
    assert!(t.rows.is_empty());
}

#[test]
fn tests_reply_event_does_not_append_to_transcript() {
    let mut t = Transcript::new();
    t.push_user("/model");
    let n = t.rows.len();
    t.on_event(&AppEvent::Notification { text: "current model: gpt-4o".to_string() });
    assert_eq!(t.rows.len(), n);
}

#[test]
fn tests_seed_mirrors_empty_tool_result_handling() {
    let mut t = Transcript::new();
    t.seed(&vec![tool_result("c1", "", false)]);
    assert!(t.rows.is_empty(), "orphan ok result is dropped");

    let mut t = Transcript::new();
    t.seed(&vec![tool_result("c1", "", true)]);
    assert!(t.rows.is_empty(), "orphan error result is dropped");
}

#[test]
fn tool_end_adds_no_extra_row() {
    let mut t = Transcript::new();
    t.push_user("q");
    t.on_event(&tool_start(
        1,
        "bash",
        json(r#"{ "command": "ls" }"#),
    ));
    t.on_event(&tool_end(1, true, "done"));
    assert_eq!(kinds_of(&t), vec![LineKind::User, LineKind::Tool,]);
    assert_eq!(t.rows[1].text, "Ran 1 command");
}

#[test]
fn loop_limit_reached_appends_system_line() {
    let mut t = Transcript::new();
    t.push_user("q");
    t.on_event(&loop_limit_reached(100));
    assert_eq!(kinds_of(&t), vec![LineKind::User, LineKind::System]);
    let expected = format!("{LOOP_LIMIT_REACHED} (100 iterations)");
    assert_eq!(t.rows.last().unwrap().text, expected);
}

#[test]
fn cancelled_appends_system_line() {
    let mut t = Transcript::new();
    t.push_user("q");
    t.on_event(&cancelled());
    assert_eq!(kinds_of(&t), vec![LineKind::User, LineKind::System]);
    assert_eq!(t.rows.last().map(|r| r.text.as_str()), Some("cancelled"));
}

#[test]
fn thinking_delta_shows_label_not_content() {
    let mut t = Transcript::new();
    t.on_event(&thinking("secret chain of thought"));
    t.on_event(&thinking(" more secrets"));
    t.on_event(&text_delta("answer"));
    t.on_event(&completed());
    assert_eq!(kinds_of(&t), vec![LineKind::Thinking, LineKind::Text]);
    assert_eq!(t.rows[0].text, THOUGHT_LABEL);
    assert_eq!(t.rows[1].text, "answer");
    assert!(t.rows.iter().all(|r| !r.text.contains("secret")));
}

#[test]
fn thinking_label_until_the_agent_reports_the_duration() {
    let mut t = Transcript::new();
    t.on_event(&thinking("planning"));
    assert_eq!(t.rows[0].text, THINKING_LABEL);

    t.on_event(&thinking_done(1_500));
    assert_eq!(t.rows[0].text, THOUGHT_1_5S);
    assert_eq!(t.rows[0].collapsible.as_ref().unwrap().body(), "planning");
}

#[test]
fn thinking_duration_lands_on_its_own_row() {
    const NOTICE: &str = "approval required";
    let mut t = Transcript::new();
    t.on_event(&thinking("planning"));
    t.push_row(LineKind::System, NOTICE);
    t.on_event(&thinking_done(1_500));

    assert_eq!(t.rows[0].text, THOUGHT_1_5S);
    assert_eq!(t.rows[1].text, NOTICE);
}

#[test]
fn reported_thinking_duration_survives_the_answer() {
    let mut t = Transcript::new();
    t.push_user("q");
    t.on_event(&thinking("planning"));
    t.on_event(&thinking_done(1_500));
    t.on_event(&text_delta("answer"));
    t.on_event(&completed());

    assert_eq!(
        kinds_of(&t),
        vec![LineKind::User, LineKind::Thinking, LineKind::Text]
    );
    assert_eq!(t.rows[1].text, THOUGHT_1_5S);
}

#[test]
fn reported_thinking_duration_survives_the_tool_it_led_to() {
    let mut t = Transcript::new();
    t.on_event(&thinking("planning"));
    t.on_event(&thinking_done(1_500));
    t.on_event(&tool_start(
        1,
        "bash",
        json(r#"{ "command": "ls" }"#),
    ));

    assert_eq!(t.rows[0].text, THOUGHT_1_5S);
    assert_eq!(t.rows[1].kind, LineKind::Tool);
}

#[test]
fn seeded_reasoning_renders_before_the_answer_it_precedes() {
    let mut t = Transcript::new();
    t.seed_timed(&vec![
        user_text("q"),
        thought_for(
            1_500,
            assistant(vec![
                ContentBlock::Text {
                    text: "answer".to_string(),
                },
                ContentBlock::Thinking {
                    thinking: "reasoning".to_string(),
                },
            ]),
        ),
    ]);

    assert_eq!(
        kinds_of(&t),
        vec![LineKind::User, LineKind::Thinking, LineKind::Text]
    );
    assert_eq!(t.rows[1].text, THOUGHT_1_5S);
    assert_eq!(t.rows[2].text, "answer");
}

#[test]
fn tool_result_double_click_toggles_detail() {
    const OUTPUT: &str = "updated\nmore lines of output";

    let mut t = Transcript::new();
    t.on_event(&tool_start(10, "todo_write", todo_input()));
    t.on_event(&tool_end(10, true, OUTPUT));
    ready(&mut t, Rect::new(0, 0, 80, 10));

    let detail = t.rows[1].collapsible.as_ref().expect("tool result detail");
    assert_eq!(detail.body(), OUTPUT);
    assert!(detail.is_expanded());
    assert!(
        t.wrapped
            .iter()
            .any(|line| line_text(line).contains("more lines of output"))
    );

    let header_y = t
        .wrapped
        .iter()
        .position(|line| line_text(line).contains(RESULT_LABEL))
        .expect("result header") as u16;
    double_click(&mut t, 2, header_y);

    assert!(
        !t.rows[1]
            .collapsible
            .as_ref()
            .expect("tool result detail")
            .is_expanded()
    );
    assert!(
        t.wrapped
            .iter()
            .all(|line| !line_text(line).contains("more lines of output"))
    );

    t.handle_mouse(&mouse(MouseEventKind::Up(MouseButton::Left), 2, header_y), 0, true);
    double_click(&mut t, 2, header_y);
    assert!(
        t.rows[1]
            .collapsible
            .as_ref()
            .expect("tool result detail")
            .is_expanded()
    );
}

#[test]
fn thinking_double_click_toggles_detail() {
    const THINKING: &str = "inspect the implementation";

    let mut t = Transcript::new();
    t.on_event(&thinking(THINKING));
    t.on_event(&completed());
    ready(&mut t, Rect::new(0, 0, 80, 8));

    let detail = t.rows[0].collapsible.as_ref().expect("thinking detail");
    assert_eq!(detail.body(), THINKING);
    assert!(!detail.is_expanded());
    assert!(t.wrapped.iter().all(|line| {
        !line
            .spans
            .iter()
            .any(|span| span.content.contains(THINKING))
    }));

    double_click(&mut t, 2, 0);

    assert!(
        t.rows[0]
            .collapsible
            .as_ref()
            .expect("thinking detail")
            .is_expanded()
    );
    assert!(t.wrapped.iter().any(|line| {
        line.spans
            .iter()
            .any(|span| span.content.contains(THINKING))
    }));

    t.handle_mouse(&mouse(MouseEventKind::Up(MouseButton::Left), 2, 0), 0, true);
    double_click(&mut t, 2, 0);
    assert!(
        !t.rows[0]
            .collapsible
            .as_ref()
            .expect("thinking detail")
            .is_expanded()
    );
}

#[test]
fn expanding_a_block_grows_downward_and_keeps_its_header() {
    const DETAIL: &str = "body one\nbody two\nbody three";

    let mut t = Transcript::new();
    for i in 0..8 {
        t.push_row(LineKind::Text, &format!("line {i}"));
    }
    t.push_row(LineKind::ToolResult(true), DETAIL);
    for i in 0..2 {
        t.push_row(LineKind::Text, &format!("tail {i}"));
    }
    ready(&mut t, Rect::new(0, 0, 80, 6));
    let detail = t.rows[8].collapsible.as_ref().expect("result detail");
    assert!(!detail.is_expanded(), "a later row collapsed it");

    let header = t.rows[8].headers[0].line;
    let top = t.current_top();
    assert!(t.top.is_none(), "the view follows the bottom");
    assert!(top <= header && header < top + 6, "header is on screen");

    double_click(&mut t, 2, u16::try_from(header - top).expect("screen row"));

    assert!(
        t.rows[8]
            .collapsible
            .as_ref()
            .expect("result detail")
            .is_expanded()
    );
    assert_eq!(
        t.current_top(),
        top,
        "the header must stay where it was clicked"
    );
    assert!(t.top.is_some(), "the anchor pins the view");
    let start = t.current_top();
    assert!(start <= header && header < start + 6);
    assert!(
        t.wrapped
            .iter()
            .any(|line| line_text(line).contains("body two"))
    );
}

#[test]
fn next_message_collapses_previous_details() {
    let mut t = Transcript::new();
    t.on_event(&thinking("plan"));
    assert!(t.rows[0].collapsible.as_ref().unwrap().is_expanded());

    t.on_event(&tool_start(1, "file_edit", file_edit_input()));
    t.on_event(&tool_end(1, true, "edited"));
    assert!(!t.rows[0].collapsible.as_ref().unwrap().is_expanded());
    assert!(t.rows[1].collapsible.as_ref().unwrap().is_expanded());

    t.on_event(&text_delta("done"));
    assert!(!t.rows[1].collapsible.as_ref().unwrap().is_expanded());
}

#[test]
fn expanding_during_generation_stays_open() {
    let mut t = Transcript::new();
    t.on_event(&thinking("plan"));
    t.on_event(&text_delta("ans"));
    assert!(!t.rows[0].collapsible.as_ref().unwrap().is_expanded());

    t.rows[0]
        .collapsible
        .as_mut()
        .expect("thinking detail")
        .toggle();
    t.on_event(&text_delta("wer"));
    t.on_event(&completed());
    assert!(
        t.rows[0].collapsible.as_ref().unwrap().is_expanded(),
        "manual expand must survive later tokens in the same message"
    );
}

#[test]
fn manual_expand_survives_next_thinking() {
    let mut t = Transcript::new();
    t.on_event(&thinking("one"));
    t.on_event(&tool_start(1, "file_edit", file_edit_input()));
    t.on_event(&tool_end(1, true, "edited"));
    assert!(!t.rows[0].collapsible.as_ref().unwrap().is_expanded());

    t.rows[0]
        .collapsible
        .as_mut()
        .expect("thinking detail")
        .toggle();
    t.on_event(&thinking("two"));

    assert!(t.rows[0].collapsible.as_ref().unwrap().is_expanded());
    assert!(
        t.rows
            .last()
            .unwrap()
            .collapsible
            .as_ref()
            .unwrap()
            .is_expanded()
    );
}

#[test]
fn ended_stream_collapses_its_details() {
    let mut t = Transcript::new();
    t.on_event(&thinking("plan"));
    t.on_event(&thinking_done(1_500));
    assert!(
        !t.rows[0].collapsible.as_ref().unwrap().is_expanded(),
        "streaming ended, so the windowed body is gone"
    );

    t.on_event(&started());
    t.push_user("next");
    assert!(!t.rows[0].collapsible.as_ref().unwrap().is_expanded());
}

#[test]
fn seed_collapsibles_stay_collapsed() {
    let mut t = Transcript::new();
    t.seed(&vec![
        assistant(vec![
            ContentBlock::Thinking {
                thinking: "one".to_string(),
            },
            tool_use("e1", "file_edit", file_edit_input()),
        ]),
        tool_result(
            "e1",
            "edited src/main.rs: replaced 1 occurrence(s), 3 bytes -> 3 bytes",
            false,
        ),
    ]);
    assert!(all_details_collapsed(&t));
}

#[test]
fn thinking_hover_paints_gray_background() {
    let hover_bg = theme::hover().bg.expect("hover bg");

    let mut t = Transcript::new();
    t.push_user("q");
    t.on_event(&thinking("secret"));
    t.on_event(&completed());
    let area = Rect::new(0, 0, 40, 6);
    ready(&mut t, area);

    let header_y: usize = 2;

    t.handle_mouse(&mouse(MouseEventKind::Moved, 3, header_y as u16), 0, true);
    let rows = draw(&mut t, area, 0);
    assert!(rows[header_y].spans.iter().all(|span| span.style.bg == Some(hover_bg)));
    assert_eq!(
        line_display_width(&rows[header_y]),
        area.width as usize,
        "hover must cover trailing blank cells"
    );
    assert!(rows[0].spans.iter().all(|span| span.style.bg != Some(hover_bg)));

    t.handle_mouse(&mouse(MouseEventKind::Moved, 3, 0), 0, true);
    let rows = draw(&mut t, area, 0);
    assert!(rows[header_y].spans.iter().all(|span| span.style.bg != Some(hover_bg)));
}

#[test]
fn seed_collapses_consecutive_thinking() {
    let mut t = Transcript::new();
    t.seed(&vec![assistant(vec![
        ContentBlock::Thinking {
            thinking: "one".to_string(),
        },
        ContentBlock::Thinking {
            thinking: "two".to_string(),
        },
        ContentBlock::Text { text: "hi".to_string() },
    ])]);
    assert_eq!(kinds_of(&t), vec![LineKind::Thinking, LineKind::Text]);
    assert_eq!(t.rows[0].text, THOUGHT_LABEL);
    assert_eq!(
        t.rows[0]
            .collapsible
            .as_ref()
            .expect("thinking detail")
            .body(),
        "onetwo"
    );
}

#[test]
fn seed_without_thinking_record_keeps_thought_label() {
    let mut t = Transcript::new();
    t.seed_timed(&vec![assistant(vec![ContentBlock::Thinking {
        thinking: "plan".to_string(),
    }])]);
    assert_eq!(t.rows[0].text, THOUGHT_LABEL);
}

#[test]
fn seed_timed_shows_thought_duration() {
    let mut t = Transcript::new();
    t.seed_timed(&vec![thought_for(
        1_500,
        assistant(vec![
            ContentBlock::Thinking {
                thinking: "plan".to_string(),
            },
            ContentBlock::Text { text: "ok".to_string() },
        ]),
    )]);
    assert_eq!(t.rows[0].kind, LineKind::Thinking);
    assert_eq!(t.rows[0].text, THOUGHT_1_5S);
}

#[test]
fn live_tools_aggregate_counts_and_failures() {
    let mut t = Transcript::new();
    t.on_event(&tool_start(
        1,
        "bash",
        json(r#"{ "command": "ls" }"#),
    ));
    t.on_event(&tool_end(1, true, "ok"));
    t.on_event(&tool_start(
        2,
        "bash",
        json(r#"{ "command": "pwd" }"#),
    ));
    t.on_event(&tool_end(2, false, "boom"));
    t.on_event(&tool_start(
        3,
        "file_read",
        json(r#"{ "path": "a" }"#),
    ));
    t.on_event(&tool_end(3, true, "hi"));
    assert_eq!(kinds_of(&t), vec![LineKind::Tool]);
    assert_eq!(t.rows[0].text, "Ran 2 commands, Read 1 file, 1 failed");
    assert_eq!(
        t.rows[0].collapsible.as_ref().expect("burst detail").body(),
        "Ran ls\nRan pwd\nRead a"
    );
}

#[test]
fn live_tool_end_rewrites_same_summary_row() {
    let mut t = Transcript::new();
    t.on_event(&tool_start(
        1,
        "bash",
        json(r#"{ "command": "ls" }"#),
    ));
    assert_eq!(t.rows.len(), 1);
    assert_eq!(t.rows[0].text, "Ran 1 command");
    t.on_event(&tool_end(1, false, "boom"));
    assert_eq!(t.rows.len(), 1);
    assert_eq!(t.rows[0].kind, LineKind::Tool);
    assert_eq!(t.rows[0].text, "Ran 1 command, 1 failed");
}

#[test]
fn burst_keeps_its_own_row_when_another_row_interleaves() {
    let mut t = Transcript::new();
    t.on_event(&tool_start(
        1,
        "bash",
        json(r#"{ "command": "ls" }"#),
    ));
    t.on_event(&tool_end(1, true, "ok"));
    t.on_event(&agent(AgentEvent::ApprovalRequested { view: present_tool("bash", &json(r#"{ "command": "rm -rf /" }"#)) }));
    t.on_event(&tool_start(
        2,
        "bash",
        json(r#"{ "command": "pwd" }"#),
    ));
    t.on_event(&tool_end(2, true, "ok"));

    assert_eq!(kinds_of(&t), vec![LineKind::Tool, LineKind::System]);
    assert_eq!(t.rows[0].text, "Ran 2 commands");
    assert_eq!(
        t.rows[0].collapsible.as_ref().expect("burst detail").body(),
        "Ran ls\nRan pwd"
    );
    assert_eq!(t.rows[1].text, "approval required: Ran rm -rf /");
}

#[test]
fn burst_collapses_once_the_next_row_arrives() {
    let mut t = Transcript::new();
    t.on_event(&tool_start(
        1,
        "grep",
        json(r#"{ "pattern": "todo", "path": "src" }"#),
    ));
    t.on_event(&tool_end(1, true, "src/main.rs:1:todo"));
    assert!(
        t.rows[0]
            .collapsible
            .as_ref()
            .expect("burst detail")
            .is_expanded()
    );

    t.on_event(&text_delta("done"));
    assert!(
        !t.rows[0]
            .collapsible
            .as_ref()
            .expect("burst detail")
            .is_expanded()
    );
}

#[test]
fn burst_double_click_toggles_call_list() {
    let mut t = Transcript::new();
    t.on_event(&tool_start(
        1,
        "file_read",
        json(r#"{ "path": "src/main.rs" }"#),
    ));
    t.on_event(&tool_end(1, true, "hi"));
    t.on_event(&text_delta("done"));
    ready(&mut t, Rect::new(0, 0, 80, 10));

    assert!(
        t.wrapped
            .iter()
            .all(|line| !line_text(line).contains("Read src/main.rs"))
    );
    let header_y = t
        .wrapped
        .iter()
        .position(|line| line_text(line).contains("Read 1 file"))
        .expect("burst header") as u16;
    double_click(&mut t, 2, header_y);

    assert!(
        t.wrapped
            .iter()
            .any(|line| line_text(line).contains("Read src/main.rs"))
    );
}

#[test]
fn live_thinking_body_windows_to_the_newest_lines() {
    let mut t = Transcript::new();
    stream_thinking(&mut t, MAX_LIVE_BODY_LINES + 4);
    ready(&mut t, Rect::new(0, 0, 80, 24));
    let has = |needle: &str| {
        t.wrapped
            .iter()
            .any(|line| line_text(line).contains(needle))
    };

    assert!(has(EARLIER_4), "{:?}", t.wrapped);
    assert!(has("t12"));
    assert!(!has("t04"));

    t.on_event(&thinking_done(1_500));
    let has = |needle: &str| {
        t.wrapped
            .iter()
            .any(|line| line_text(line).contains(needle))
    };
    assert!(!has(EARLIER_4));
    assert!(!has("t12"), "no gap is left before the next row");

    double_click(&mut t, 2, 0);
    let has = |needle: &str| {
        t.wrapped
            .iter()
            .any(|line| line_text(line).contains(needle))
    };
    assert!(!has(EARLIER_4));
    assert!(has("t01"));
    assert!(has("t12"));
}

#[test]
fn live_reasoning_of_one_long_line_is_capped_by_its_rows() {
    let mut t = Transcript::new();
    ready(&mut t, Rect::new(0, 0, 20, 24));
    let before = t.wrapped.len();
    t.on_event(&AppEvent::Agent(AgentEvent::ThinkingDelta { text: "x".repeat(400) + "end" }));
    t.rewrap_all();
    let shown: Vec<String> = t.wrapped[before..].iter().map(line_text).collect();
    assert_eq!(shown.len(), 1 + 1 + MAX_LIVE_BODY_LINES, "{shown:?}");
    assert!(shown[1].contains("earlier lines"), "{shown:?}");
    assert!(shown.last().is_some_and(|line| line.ends_with("end")), "{shown:?}");

    t.on_event(&thinking_done(1_500));
    double_click(&mut t, 2, 0);
    assert!(t.wrapped.len() > 2 + MAX_LIVE_BODY_LINES);
    assert!(!t.wrapped.iter().any(|line| line_text(line).contains("earlier lines")));
}

#[test]
fn seeding_without_times_leaves_them_out() {
    let thinking = "plan".to_string();
    let messages = vec![thought_for(1_500, assistant(vec![ContentBlock::Thinking { thinking }]))];
    let mut timed = Transcript::new();
    timed.seed_timed(&messages);
    let mut t = Transcript::new();
    t.seed(&messages);
    assert_eq!(t.rows[0].text, THOUGHT_LABEL);
    assert_eq!(timed.rows[0].text, THOUGHT_1_5S);
}

#[test]
fn open_tool_burst_body_windows_to_the_newest_calls() {
    let mut t = Transcript::new();
    for i in 1..=(MAX_LIVE_BODY_LINES + 2) as u64 {
        t.on_event(&tool_start(
            i,
            "bash",
            json(&format!(r#"{{ "command": "c{i:02}" }}"#)),
        ));
    }
    ready(&mut t, Rect::new(0, 0, 80, 24));
    let has = |needle: &str| {
        t.wrapped
            .iter()
            .any(|line| line_text(line).contains(needle))
    };

    assert!(has(EARLIER_2_CALLS), "{:?}", t.wrapped);
    assert!(has("c10"));
    assert!(!has("c01"));

    t.on_event(&completed());
    let has = |needle: &str| {
        t.wrapped
            .iter()
            .any(|line| line_text(line).contains(needle))
    };
    assert!(!has(EARLIER_2_CALLS));
    assert!(!has("c10"), "the burst closes once the turn moves on");

    let header = t
        .wrapped
        .iter()
        .position(|line| line_text(line).contains("Ran 10 commands"))
        .expect("burst header") as u16;
    double_click(&mut t, 2, header);
    let has = |needle: &str| {
        t.wrapped
            .iter()
            .any(|line| line_text(line).contains(needle))
    };
    assert!(!has(EARLIER_2_CALLS));
    assert!(has("c01"));
    assert!(has("c10"));
}

#[test]
fn live_diff_burst_windows_to_the_newest_calls() {
    let mut t = Transcript::new();
    for i in 1..=(MAX_LIVE_BODY_LINES + 2) {
        t.on_event(&tool_start(
            i as u64,
            "file_edit",
            json(&format!(
                r#"{{ "path": "src/f{i:02}.rs", "old_string": "old", "new_string": "new" }}"#
            )),
        ));
    }
    ready(&mut t, Rect::new(0, 0, 80, 40));
    let has = |needle: &str| {
        t.wrapped
            .iter()
            .any(|line| line_text(line).contains(needle))
    };

    assert!(has(EARLIER_2_CALLS), "{:?}", t.wrapped);
    assert!(has("Edit src/f10.rs"));
    assert!(!has("Edit src/f01.rs"));
    assert!(has("- old"), "a visible item still shows its diff");

    t.on_event(&completed());
    let has = |needle: &str| {
        t.wrapped
            .iter()
            .any(|line| line_text(line).contains(needle))
    };
    assert!(!has(EARLIER_2_CALLS));
    assert!(
        !has("Edit src/f10.rs"),
        "the burst closes once the turn moves on"
    );

    let row = wrapped_row_of(&t, "Edited 10 files");
    double_click(&mut t, 2, row);
    let has = |needle: &str| {
        t.wrapped
            .iter()
            .any(|line| line_text(line).contains(needle))
    };
    assert!(has("Edit src/f01.rs") && has("Edit src/f10.rs"));
}

#[test]
fn file_edit_aggregates_with_a_nested_diff() {
    let mut t = Transcript::new();
    t.on_event(&tool_start(1, "file_edit", file_edit_input()));
    t.on_event(&tool_end(1, true, EDIT_SUCCESS));

    assert_eq!(kinds_of(&t), vec![LineKind::Tool]);
    assert_eq!(t.rows[0].text, "Edited 1 file");
    let burst = t.rows[0].collapsible.as_ref().expect("burst detail");
    assert!(burst.is_expanded());
    assert_eq!(burst.body(), "");
    assert_eq!(
        diff_items(&t),
        [("Edit src/main.rs".to_string(), "- old\n+ new".to_string())]
    );
    assert!(
        t.wrapped
            .iter()
            .all(|line| !line_text(line).contains("replaced 1 occurrence"))
    );
}

#[test]
fn file_write_aggregates_with_a_nested_diff() {
    let mut t = Transcript::new();
    t.on_event(&tool_start(2, "file_write", file_write_input()));
    t.on_event(&tool_end(2, true, "wrote 17 bytes to out.txt"));

    assert_eq!(kinds_of(&t), vec![LineKind::Tool]);
    assert_eq!(t.rows[0].text, "Wrote 1 file");
    assert_eq!(
        diff_items(&t),
        [(
            "Write out.txt".to_string(),
            "+ line one\n+ line two".to_string()
        )]
    );
}

#[test]
fn mixed_burst_keeps_calls_in_invocation_order() {
    let mut t = Transcript::new();
    t.on_event(&tool_start(1, "file_edit", file_edit_input()));
    t.on_event(&tool_start(
        2,
        "bash",
        json(r#"{ "command": "cargo test" }"#),
    ));
    t.on_event(&tool_end(1, true, EDIT_SUCCESS));
    t.on_event(&tool_end(2, true, "ok"));

    assert_eq!(t.rows[0].text, "Edited 1 file, Ran 1 command");
    assert_eq!(
        diff_items(&t),
        [("Edit src/main.rs".to_string(), "- old\n+ new".to_string())]
    );
    assert_eq!(
        t.rows[0].collapsible.as_ref().expect("burst detail").body(),
        "Ran cargo test"
    );
}

#[test]
fn failed_edit_counts_and_explains_itself() {
    let mut t = Transcript::new();
    t.on_event(&tool_start(1, "file_edit", file_edit_input()));
    t.on_event(&tool_end(1, false, EDIT_ERROR));

    assert_eq!(kinds_of(&t), vec![LineKind::Tool]);
    assert_eq!(t.rows[0].text, "Edited 1 file, 1 failed");
    assert_eq!(
        diff_items(&t),
        [(
            "Edit src/main.rs".to_string(),
            format!("- old\n+ new\n{EDIT_ERROR}")
        )]
    );
}

#[test]
fn seed_file_edit_aggregates_with_a_nested_diff() {
    let mut t = Transcript::new();
    t.seed(&vec![
        assistant(vec![tool_use("e1", "file_edit", file_edit_input())]),
        tool_result("e1", EDIT_SUCCESS, false),
    ]);
    assert_eq!(kinds_of(&t), vec![LineKind::Tool]);
    assert_eq!(t.rows[0].text, "Edited 1 file");
    assert_eq!(
        diff_items(&t),
        [("Edit src/main.rs".to_string(), "- old\n+ new".to_string())]
    );
    assert!(!t.rows[0].collapsible.as_ref().unwrap().is_expanded());
}

#[test]
fn diff_double_click_toggles_burst_detail() {
    let mut t = Transcript::new();
    t.on_event(&tool_start(1, "file_edit", file_edit_input()));
    t.on_event(&tool_end(1, true, EDIT_SUCCESS));
    t.on_event(&text_delta("done"));
    ready(&mut t, Rect::new(0, 0, 80, 10));
    let has = |t: &Transcript| {
        t.wrapped
            .iter()
            .any(|line| line_text(line).contains("- old"))
    };
    assert!(!has(&t), "the burst collapses once the turn moves on");

    let row = wrapped_row_of(&t, "Edited 1 file");
    double_click(&mut t, 2, row);
    assert!(
        t.rows[0]
            .collapsible
            .as_ref()
            .expect("burst detail")
            .is_expanded()
    );
    assert!(
        !has(&t),
        "a reopened burst lists its diffs as titles, not their contents"
    );
    assert!(
        t.wrapped
            .iter()
            .any(|line| line_text(line).contains("Edit src/main.rs"))
    );

    let row = wrapped_row_of(&t, "Edit src/main.rs");
    double_click(&mut t, 2, row);
    assert!(has(&t));

    let row = wrapped_row_of(&t, "Edit src/main.rs");
    double_click(&mut t, 2, row);
    assert!(!has(&t));
    assert!(
        t.rows[0]
            .collapsible
            .as_ref()
            .expect("burst detail")
            .is_expanded(),
        "the burst itself stays expanded"
    );
}

#[test]
fn nested_item_double_click_toggles_only_its_own_diff() {
    let mut t = Transcript::new();
    t.on_event(&tool_start(1, "file_edit", file_edit_input()));
    t.on_event(&tool_start(
        2,
        "file_edit",
        file_edit_input_at("src/lib.rs"),
    ));
    t.on_event(&tool_end(1, true, EDIT_SUCCESS));
    t.on_event(&tool_end(2, true, EDIT_SUCCESS));
    t.on_event(&text_delta("done"));
    ready(&mut t, Rect::new(0, 0, 80, 12));
    let has = |needle: &str, t: &Transcript| {
        t.wrapped
            .iter()
            .any(|line| line_text(line).contains(needle))
    };
    assert!(!has("- old", &t) && !has("- libold", &t));

    let row = wrapped_row_of(&t, "Edited 2 files");
    double_click(&mut t, 2, row);
    assert!(
        !has("- old", &t) && !has("- libold", &t),
        "items stay folded"
    );
    assert!(has("Edit src/main.rs", &t) && has("Edit src/lib.rs", &t));

    let row = wrapped_row_of(&t, "Edit src/main.rs");
    double_click(&mut t, 2, row);
    assert!(has("- old", &t), "the clicked item expands");
    assert!(!has("- libold", &t), "its sibling keeps its own state");
    assert!(
        t.rows[0]
            .collapsible
            .as_ref()
            .expect("burst detail")
            .is_expanded(),
        "the burst itself stays expanded"
    );

    let row = wrapped_row_of(&t, "Edit src/lib.rs");
    double_click(&mut t, 2, row);
    assert!(has("- old", &t) && has("- libold", &t));

    let row = wrapped_row_of(&t, "Edited 2 files");
    double_click(&mut t, 2, row);
    assert!(!has("- old", &t) && !has("- libold", &t) && !has("Edit src/main.rs", &t));
}

#[test]
fn nested_diff_lines_are_indented_past_their_item_title() {
    let mut t = Transcript::new();
    t.on_event(&tool_start(1, "file_edit", file_edit_input()));
    t.on_event(&tool_end(1, true, EDIT_SUCCESS));
    ready(&mut t, Rect::new(0, 0, 80, 10));

    let removed = t
        .wrapped
        .iter()
        .find(|line| line_text(line).contains("- old"))
        .expect("removed line");
    let added = t
        .wrapped
        .iter()
        .find(|line| line_text(line).contains("+ new"))
        .expect("added line");
    let item_indent = format!("{MESSAGE_INDENT}{}{LINE_INDENT}", LINE_INDENT);
    assert_eq!(removed.spans[0].content, item_indent);
    assert_eq!(added.spans[0].content, item_indent);
    assert_eq!(removed.spans[1].content, "- old");
    assert_eq!(added.spans[1].content, "+ new");
    assert_eq!(
        removed.spans[1].style.bg,
        Some(Color::LightRed)
    );
    assert_eq!(
        added.spans[1].style.bg,
        Some(Color::LightGreen)
    );
}

#[test]
fn todo_write_keeps_detail_and_result() {
    let mut t = Transcript::new();
    t.on_event(&tool_start(10, "todo_write", todo_input()));
    t.on_event(&tool_end(10, true, "updated"));
    assert_eq!(
        kinds_of(&t),
        vec![LineKind::Tool, LineKind::ToolResult(true)]
    );
    assert_eq!(
        t.rows[0].text,
        "todo_write · 1 todos (0 in_progress, 0 completed)"
    );
    assert_eq!(t.rows[1].text, RESULT_LABEL);
    let result = t.rows[1].collapsible.as_ref().expect("tool result detail");
    assert_eq!(result.body(), "updated");
    assert!(result.is_expanded());
}

#[test]
fn todo_write_splits_tool_bursts() {
    let mut t = Transcript::new();
    t.on_event(&tool_start(
        1,
        "bash",
        json(r#"{ "command": "ls" }"#),
    ));
    t.on_event(&tool_end(1, true, "ok"));
    t.on_event(&tool_start(10, "todo_write", todo_input()));
    t.on_event(&tool_end(10, true, "updated"));
    t.on_event(&tool_start(
        2,
        "bash",
        json(r#"{ "command": "pwd" }"#),
    ));
    t.on_event(&tool_end(2, true, "ok"));
    assert_eq!(
        kinds_of(&t),
        vec![
            LineKind::Tool,
            LineKind::Tool,
            LineKind::ToolResult(true),
            LineKind::Tool,
        ]
    );
    assert_eq!(t.rows[0].text, "Ran 1 command");
    assert_eq!(
        t.rows[1].text,
        "todo_write · 1 todos (0 in_progress, 0 completed)"
    );
    assert_eq!(t.rows[3].text, "Ran 1 command");
}

#[test]
fn restored_tool_trajectory_matches_live_presentation() {
    let grep = json(r#"{ "pattern": "ToolEvent", "path": "crates", "include": "*.rs" }"#);
    let glob = json(r#"{ "pattern": "**/*.rs", "path": "crates" }"#);

    let mut live = Transcript::new();
    live.on_event(&tool_start(1, "grep", grep.clone()));
    live.on_event(&tool_end(1, true, "event.rs:1:ToolEvent"));
    live.on_event(&tool_start(2, "glob", glob.clone()));
    live.on_event(&tool_end(2, true, "crates/oven-agent/src/agent.rs"));

    let mut restored = Transcript::new();
    restored.seed(&vec![
        assistant(vec![
            tool_use("c1", "grep", grep),
            tool_use("c2", "glob", glob),
        ]),
        tool_result("c1", "event.rs:1:ToolEvent", false),
        tool_result("c2", "crates/oven-agent/src/agent.rs", false),
    ]);

    assert_eq!(kinds_of(&live), kinds_of(&restored));
    let live_rows: Vec<_> = live.rows.iter().map(|row| row.text.as_str()).collect();
    let restored_rows: Vec<_> = restored.rows.iter().map(|row| row.text.as_str()).collect();
    assert_eq!(live_rows, restored_rows);
    assert_eq!(live_rows, vec!["Searched 2 patterns"]);
    assert_eq!(
        live.rows[0]
            .collapsible
            .as_ref()
            .expect("burst detail")
            .body(),
        restored.rows[0]
            .collapsible
            .as_ref()
            .expect("burst detail")
            .body()
    );
}

#[test]
fn restored_failures_match_live_ones_in_any_order() {
    let run = |c: &str| json(&format!(r#"{{ "command": "{c}" }}"#));
    let mut live = Transcript::new();
    live.on_event(&tool_start(1, "bash", run("ls")));
    live.on_event(&tool_start(2, "bash", run("pwd")));
    live.on_event(&tool_end(2, false, "no"));
    live.on_event(&tool_start(3, "grep", json(r#"{ "pattern": "x" }"#)));
    live.on_event(&tool_end(3, true, ""));
    live.on_event(&tool_end(1, false, "no"));

    let mut restored = Transcript::new();
    restored.seed_timed(&vec![
        assistant(vec![
            tool_use("c1", "bash", run("ls")),
            tool_use("c2", "bash", run("pwd")),
            tool_use("c3", "grep", json(r#"{ "pattern": "x" }"#)),
        ]),
        tool_result("c1", "no", true),
        tool_result("c2", "no", true),
        tool_result("c3", "", false),
    ]);
    assert_eq!(kinds_of(&live), kinds_of(&restored));
    assert_eq!(live.rows[0].text, restored.rows[0].text);
    assert_eq!(live.rows[0].text, "Ran 2 commands, Searched 1 pattern, 2 failed");
}

#[test]
fn restored_calls_with_own_rows_match_live_ones() {
    let mut live = Transcript::new();
    live.on_event(&tool_start(1, "todo_write", todo_input()));
    live.on_event(&tool_end(1, true, "updated"));
    live.on_event(&tool_start(2, "bash", json(r#"{ "command": "ls" }"#)));
    live.on_event(&tool_end(2, true, "x"));

    let mut restored = Transcript::new();
    restored.seed_timed(&vec![
        assistant(vec![tool_use("1", "todo_write", todo_input())]),
        tool_result("1", "updated", false),
        assistant(vec![tool_use("2", "bash", json(r#"{ "command": "ls" }"#))]),
        tool_result("2", "x", false),
    ]);
    assert_eq!(kinds_of(&live), kinds_of(&restored));
    let titles = |t: &Transcript| -> Vec<String> { t.rows.iter().map(|r| r.text.clone()).collect() };
    assert_eq!(titles(&live), titles(&restored));
    assert_eq!(live.rows.len(), 3);
}

#[test]
fn seed_todo_write_keeps_result() {
    let mut t = Transcript::new();
    t.seed(&vec![
        assistant(vec![tool_use("t1", "todo_write", todo_input())]),
        tool_result("t1", "updated", false),
    ]);
    assert_eq!(
        kinds_of(&t),
        vec![LineKind::Tool, LineKind::ToolResult(true)]
    );
    assert_eq!(
        t.rows[0].text,
        "todo_write · 1 todos (0 in_progress, 0 completed)"
    );
    assert_eq!(t.rows[1].text, RESULT_LABEL);
    assert_eq!(
        t.rows[1]
            .collapsible
            .as_ref()
            .expect("tool result detail")
            .body(),
        "updated"
    );
    assert!(!t.rows[1].collapsible.as_ref().unwrap().is_expanded());
}

#[test]
fn seed_failed_tool_counts_without_result() {
    let mut t = Transcript::new();
    t.seed(&vec![
        assistant(vec![
            tool_use("c1", "bash", json(r#"{ "command": "ls" }"#)),
            tool_use("c2", "bash", json(r#"{ "command": "pwd" }"#)),
            tool_use("c3", "file_read", json(r#"{ "path": "a" }"#)),
        ]),
        tool_result("c1", "ok", false),
        tool_result("c2", "boom", true),
        tool_result("c3", "hi", false),
    ]);
    assert_eq!(kinds_of(&t), vec![LineKind::Tool]);
    assert_eq!(t.rows[0].text, "Ran 2 commands, Read 1 file, 1 failed");
}

#[test]
fn format_thought_units() {
    assert_eq!(format_thought(None), THOUGHT_LABEL);
    assert_eq!(format_thought(Some(0)), THOUGHT_0);
    assert_eq!(format_thought(Some(99)), THOUGHT_0);
    assert_eq!(format_thought(Some(1_500)), THOUGHT_1_5S);
    assert_eq!(format_thought(Some(61_000)), THOUGHT_1M_1S);
}

#[test]
fn tests_last_user_text_returns_most_recent_user_row() {
    let mut t = Transcript::new();
    t.push_user("first");
    t.push_row(LineKind::Text, "one");
    t.push_user("second");
    assert_eq!(t.last_user_text().as_deref(), Some("second"));
}

#[test]
fn tests_last_user_text_none_without_user_rows() {
    let mut t = Transcript::new();
    t.push_row(LineKind::Text, "one");
    assert_eq!(t.last_user_text(), None);
}

#[test]
fn last_user_text_rewinds_shell_as_bang() {
    let mut t = Transcript::new();
    t.push_shell_command("ls -la");
    assert_eq!(t.last_user_text().as_deref(), Some("! ls -la"));
}

#[test]
fn replace_from_rebuilds_rows() {
    let mut t = Transcript::new();
    t.push_user("old");
    t.replace_from_timed(&vec![user_text("resumed")]);
    assert_eq!(t.rows[0].text, "resumed");
    assert_eq!(t.rows.len(), 1);
}

#[test]
fn page_keys_scroll_by_viewport() {

    let mut t = Transcript::new();
    wide(&mut t);
    t.area.height = 5;
    fill(&mut t, 20);
    let bottom = t.total_lines().saturating_sub(5);
    let page = KeyEvent::new(KeyCode::PageUp, KeyModifiers::none());
    t.handle_key(&page);
    assert_eq!(t.top, Some(bottom.saturating_sub(5)));
    t.handle_key(&KeyEvent::new(KeyCode::PageDown, KeyModifiers::none()));
    assert!(t.top.is_none());
}

#[test]
fn tests_slice_cols_by_display_width() {
    assert_eq!(slice_cols("hello", 1, 4), "ell");
    assert_eq!(slice_cols("hello", 3, 3), "");
    assert_eq!(slice_cols("你好", 0, 2), "你");
    assert_eq!(slice_cols("你好", 2, 4), "好");
    assert_eq!(slice_cols("你好", 1, 2), "你");
    assert_eq!(slice_cols("你好", 1, 3), "你好");
    assert_eq!(slice_cols("한글", 1, 2), "한");
    assert_eq!(slice_cols("한글", 1, 3), "한글");
    assert_eq!(slice_cols("こんにちは", 1, 3), "こん");
}

#[test]
fn tests_extract_skips_gutter() {
    let line = format_lines(LineKind::Text, "hello").pop().unwrap();
    assert_eq!(extract_line_range(&line, 0, 8), "hello");
    assert_eq!(extract_line_range(&line, 3, 8), "hello");
    assert_eq!(extract_line_range(&line, 3, 6), "hel");
    assert_eq!(extract_line_range(&line, 0, 3), "");
}

#[test]
fn tests_mouse_drag_selects_body_without_gutter() {
    let mut t = Transcript::new();
    t.push_row(LineKind::Text, "hello");
    ready(&mut t, Rect::new(0, 0, 80, 5));
    t.handle_mouse(&mouse(MouseEventKind::Down(MouseButton::Left), 3, 0), 0, true);
    t.handle_mouse(&mouse(MouseEventKind::Drag(MouseButton::Left), 8, 0), 0, true);
    assert_eq!(t.selected_text().as_deref(), Some("hello"));
}

#[test]
fn tests_mouse_drag_reverse_selects_same_text() {
    let mut t = Transcript::new();
    t.push_row(LineKind::Text, "hello");
    ready(&mut t, Rect::new(0, 0, 80, 5));
    t.handle_mouse(&mouse(MouseEventKind::Down(MouseButton::Left), 8, 0), 0, true);
    t.handle_mouse(&mouse(MouseEventKind::Drag(MouseButton::Left), 3, 0), 0, true);
    assert_eq!(t.selected_text().as_deref(), Some("hello"));
}

#[test]
fn tests_mouse_drag_selects_across_rows() {
    let mut t = Transcript::new();
    t.push_row(LineKind::Text, "hello");
    t.push_row(LineKind::Text, "world");
    ready(&mut t, Rect::new(0, 0, 80, 5));
    t.handle_mouse(&mouse(MouseEventKind::Down(MouseButton::Left), 3, 0), 0, true);
    t.handle_mouse(&mouse(MouseEventKind::Drag(MouseButton::Left), 8, 2), 0, true);
    assert_eq!(t.selected_text().as_deref(), Some("hello\n\nworld"));
}

#[test]
fn tests_mouse_click_without_drag_is_empty() {
    let mut t = Transcript::new();
    t.push_row(LineKind::Text, "hello");
    ready(&mut t, Rect::new(0, 0, 80, 5));
    t.handle_mouse(&mouse(MouseEventKind::Down(MouseButton::Left), 3, 0), 0, true);
    assert_eq!(t.selected_text(), None);
    let up = t.handle_mouse(&mouse(MouseEventKind::Up(MouseButton::Left), 3, 0), 0, true);
    assert!(matches!(up, KeyResult::Handled));
    assert!(t.select_anchor.is_none());
    assert!(!t.dragging);
}

#[test]
fn drag_survives_events_that_rewrap_the_transcript() {
    let mut t = Transcript::new();
    t.on_event(&text_delta("first answer"));
    t.on_event(&completed());
    t.on_event(&tool_start(1, "todo_write", todo_input()));
    t.on_event(&tool_end(1, true, "ok"));
    ready(&mut t, Rect::new(0, 0, 80, 10));

    t.handle_mouse(&mouse(MouseEventKind::Down(MouseButton::Left), 3, 0), 0, true);
    t.handle_mouse(&mouse(MouseEventKind::Drag(MouseButton::Left), 12, 0), 0, true);
    let selected = t.selected_text();
    assert!(selected.is_some());

    t.on_event(&tool_start(2, "todo_write", todo_input()));
    t.on_event(&tool_end(2, true, "ok"));
    assert!(t.dragging);
    assert_eq!(t.selected_text(), selected);

    let up = t.handle_mouse(&mouse(MouseEventKind::Up(MouseButton::Left), 12, 0), 0, true);
    assert!(matches!(up, KeyResult::Action(Action::Notify(text)) if text == "Copied!"));
}

#[test]
fn up_copies_when_drag_state_was_lost() {
    let mut t = Transcript::new();
    t.push_row(LineKind::Text, "hello");
    ready(&mut t, Rect::new(0, 0, 80, 5));
    t.handle_mouse(&mouse(MouseEventKind::Down(MouseButton::Left), 3, 0), 0, true);
    t.handle_mouse(&mouse(MouseEventKind::Drag(MouseButton::Left), 8, 0), 0, true);
    t.dragging = false;
    let up = t.handle_mouse(&mouse(MouseEventKind::Up(MouseButton::Left), 8, 0), 0, true);
    assert!(matches!(up, KeyResult::Action(Action::Notify(text)) if text == "Copied!"));
}

#[test]
fn tests_mouse_up_after_selection_emits_copied_reply() {
    let mut t = Transcript::new();
    t.push_row(LineKind::Text, "hello");
    ready(&mut t, Rect::new(0, 0, 80, 5));
    t.handle_mouse(&mouse(MouseEventKind::Down(MouseButton::Left), 3, 0), 0, true);
    t.handle_mouse(&mouse(MouseEventKind::Drag(MouseButton::Left), 8, 0), 0, true);
    let up = t.handle_mouse(&mouse(MouseEventKind::Up(MouseButton::Left), 8, 0), 0, true);
    assert!(matches!(up, KeyResult::Action(Action::Notify(text)) if text == "Copied!"));
    assert_eq!(t.selected_text().as_deref(), Some("hello"));
}

#[test]
fn tests_mouse_selects_wide_chars() {
    let mut t = Transcript::new();
    t.push_row(LineKind::Text, "你好");
    ready(&mut t, Rect::new(0, 0, 80, 5));
    t.handle_mouse(&mouse(MouseEventKind::Down(MouseButton::Left), 2, 0), 0, true);
    t.handle_mouse(&mouse(MouseEventKind::Drag(MouseButton::Left), 4, 0), 0, true);
    assert_eq!(t.selected_text().as_deref(), Some("你"));
}

#[test]
fn mouse_selects_wide_chars_from_trailing_cell() {
    let mut t = Transcript::new();
    t.push_row(LineKind::Text, "你好");
    ready(&mut t, Rect::new(0, 0, 80, 5));
    t.handle_mouse(&mouse(MouseEventKind::Down(MouseButton::Left), 3, 0), 0, true);
    t.handle_mouse(&mouse(MouseEventKind::Drag(MouseButton::Left), 4, 0), 0, true);
    assert_eq!(t.selected_text().as_deref(), Some("你"));
}

#[test]
fn selecting_cjk_does_not_expand_drawn_line() {
    let area = Rect::new(0, 0, 20, 3);
    let mut t = Transcript::new();
    t.push_row(LineKind::Text, "你好世界");
    ready(&mut t, area);
    let glyphs = |row: String| {
        row.chars()
            .filter(|c| !c.is_whitespace() && *c != '∙')
            .collect::<String>()
    };
    let before = glyphs(draw(&mut t, area, 0)[0].text());
    t.handle_mouse(&mouse(MouseEventKind::Down(MouseButton::Left), 3, 0), 0, true);
    t.handle_mouse(&mouse(MouseEventKind::Drag(MouseButton::Left), 8, 0), 0, true);
    let after = glyphs(draw(&mut t, area, 0)[0].text());
    assert_eq!(after, before, "selection must not duplicate CJK glyphs");
    assert_eq!(after, "你好世界");
}

#[test]
fn tests_mouse_selects_wrapped_lines() {
    let mut t = Transcript::new();
    t.push_row(LineKind::Text, "abcdefgh");
    ready(&mut t, Rect::new(0, 0, 7, 5));
    t.handle_mouse(&mouse(MouseEventKind::Down(MouseButton::Left), 3, 0), 0, true);
    t.handle_mouse(&mouse(MouseEventKind::Drag(MouseButton::Left), 7, 1), 0, true);
    assert_eq!(t.selected_text().as_deref(), Some("abcd\nefgh"));
}

#[test]
fn tests_mouse_down_outside_is_ignored() {
    let mut t = Transcript::new();
    t.push_row(LineKind::Text, "hello");
    ready(&mut t, Rect::new(0, 0, 80, 5));
    let r = t.handle_mouse(&mouse(MouseEventKind::Down(MouseButton::Left), 0, 20), 0, true);
    assert!(matches!(r, KeyResult::Ignored));
    assert!(t.select_anchor.is_none());
}

#[test]
fn tests_mouse_drag_outside_extends_to_end() {
    let mut t = Transcript::new();
    t.push_row(LineKind::Text, "hello");
    ready(&mut t, Rect::new(0, 0, 80, 5));
    t.handle_mouse(&mouse(MouseEventKind::Down(MouseButton::Left), 2, 0), 0, true);
    let r = t.handle_mouse(&mouse(MouseEventKind::Drag(MouseButton::Left), 0, 20), 0, true);
    assert!(matches!(r, KeyResult::Handled));
    assert_eq!(t.selected_text().as_deref(), Some("hello"));
}

#[test]
fn tests_highlight_line_marks_range() {
    let line = format_lines(LineKind::Text, "hello").pop().unwrap();
    let hi = highlight_line(&line, 3, 8);
    assert_eq!(hi.spans.len(), 2);
    assert_eq!(hi.spans[0].content, " ∙ ");
    assert_eq!(hi.spans[1].content, "hello");
    assert_eq!(hi.spans[1].style, theme::selection());
}

#[test]
fn highlight_wide_chars_are_not_duplicated() {
    let line = format_lines(LineKind::Text, "한글中文").pop().unwrap();
    let original = line_text(&line);
    let width = line_display_width(&line);
    for from in 0..width {
        for to in from + 1..=width {
            let hi = highlight_line(&line, from, to);
            assert_eq!(line_text(&hi), original, "from={from} to={to}");
            assert_eq!(line_display_width(&hi), width, "from={from} to={to}");
        }
    }
}

#[test]
fn highlight_mid_cjk_cell_keeps_whole_glyph() {
    let line = format_lines(LineKind::Text, "你好").pop().unwrap();
    let hi = highlight_line(&line, 3, 4);
    assert_eq!(line_text(&hi), line_text(&line));
    assert_eq!(hi.spans[1].content, "你");
    assert_eq!(hi.spans[1].style, theme::selection());
    assert_eq!(hi.spans[2].content, "好");
    assert_eq!(hi.spans[2].style, Style::plain());
}

#[test]
fn stream_text_caret_blinks() {
    let area = Rect::new(0, 0, 20, 2);
    let mut t = Transcript::new();
    t.push_stream(LineKind::Text, "hello");
    let on = draw(&mut t, area, 0)[0].text();
    assert!(on.contains("hello"), "{on:?}");
    assert!(on.contains("▊"), "caret on at frame 0: {on:?}");

    let off = draw(&mut t, area, 5)[0].text();
    assert!(off.contains("hello"), "{off:?}");
    assert!(!off.contains("▊"), "caret off at frame 5: {off:?}");
}

#[test]
fn scrolled_stream_does_not_draw_caret_on_history() {
    let area = Rect::new(0, 0, 20, 3);
    let mut t = Transcript::new();
    for i in 0..10 {
        t.push_row(LineKind::Text, &format!("line {i}"));
    }
    t.push_stream(LineKind::Text, "hello");
    draw(&mut t, area, 0);
    t.scroll_up(2);
    let visible: String = draw(&mut t, area, 0).iter().map(|line| line.text()).collect();
    assert!(
        !visible.contains("▊"),
        "history must not show stream caret: {visible:?}"
    );
}

#[test]
fn thinking_stream_does_not_draw_text_caret() {
    let mut t = Transcript::new();
    t.push_stream(LineKind::Thinking, THINKING_LABEL);
    let row = draw(&mut t, Rect::new(0, 0, 20, 2), 0)[0].text();
    assert!(!row.contains("▊"), "{row:?}");
}

#[test]
fn tests_replace_from_clears_selection() {
    let mut t = Transcript::new();
    t.push_row(LineKind::Text, "hello");
    ready(&mut t, Rect::new(0, 0, 80, 5));
    t.handle_mouse(&mouse(MouseEventKind::Down(MouseButton::Left), 2, 0), 0, true);
    t.handle_mouse(&mouse(MouseEventKind::Drag(MouseButton::Left), 7, 0), 0, true);
    assert!(t.selected_text().is_some());
    t.replace_from_timed(&vec![user_text("resumed")]);
    assert!(t.select_anchor.is_none());
    assert!(!t.dragging);
}

#[test]
fn tail_lines_keeps_last_max() {
    let text = (0..150)
        .map(|i| format!("l{i}"))
        .collect::<Vec<_>>()
        .join("\n");
    let out = tail_lines(&text, MAX_SHELL_DISPLAY_LINES);
    assert!(out.starts_with("… 50 earlier lines"));
    assert!(out.contains("l50"));
    assert!(out.ends_with("l149"));
    assert!(!out.contains("l0\n"));
    assert_eq!(out.lines().count(), MAX_SHELL_DISPLAY_LINES + 1);
}

#[test]
fn seed_shell_envelope_renders_command_and_output() {
    let mut t = Transcript::new();
    let msg = shell("ls", "a.rs\nb.rs", true);
    t.seed(&vec![user(vec![msg])]);
    assert_eq!(t.rows[0].kind, LineKind::Shell);
    assert_eq!(t.rows[0].text, "ls");
    assert_eq!(t.rows[1].kind, LineKind::ShellResult(true));
    assert_eq!(t.rows[1].text, "a.rs\nb.rs");
    assert_eq!(t.last_user_text().as_deref(), Some("! ls"));
}

#[test]
fn seed_does_not_treat_bang_user_text_as_shell() {
    let mut t = Transcript::new();
    t.seed(&vec![user_text("! ls")]);
    assert_eq!(t.rows[0].kind, LineKind::User);
    assert_eq!(t.rows[0].text, "! ls");
    assert_eq!(t.rows.len(), 1);
}

#[test]
fn seed_nonzero_exit_is_failed_result() {
    let mut t = Transcript::new();
    let msg = shell("false", "[exit code: 1]", false);
    t.seed(&vec![user(vec![msg])]);
    assert_eq!(t.rows[0].kind, LineKind::Shell);
    assert_eq!(t.rows[1].kind, LineKind::ShellResult(false));
    assert_eq!(t.rows[1].text, "[exit code: 1]");
}

#[test]
fn seed_shell_envelope_does_not_show_raw_xml() {
    let mut t = Transcript::new();
    let msg = shell("echo hi", "hi", true);
    t.seed(&vec![user(vec![msg])]);
    assert!(!t.rows.iter().any(|r| r.text.contains("<local-shell>")));
}

#[test]
fn shell_finished_event_appends_tailed_output() {
    let mut t = Transcript::new();
    t.push_shell_command("ls");
    let output = (0..150)
        .map(|i| format!("l{i}"))
        .collect::<Vec<_>>()
        .join("\n");
    t.on_event(&AppEvent::Shell(ShellEvent::Finished {
        output,
        exit_code: 0,
    }));
    assert_eq!(t.rows[0].kind, LineKind::Shell);
    assert_eq!(t.rows[1].kind, LineKind::ShellResult(true));
    assert!(t.rows[1].text.starts_with("… 50 earlier lines"));
    assert!(t.rows[1].text.ends_with("l149"));
}

#[test]
fn shell_failed_event_is_error_result() {
    let mut t = Transcript::new();
    t.push_shell_command("sleep 60");
    t.on_event(&AppEvent::Shell(ShellEvent::Failed {
        error: "cancelled".to_string(),
        output: String::new(),
    }));
    assert_eq!(t.rows[0].kind, LineKind::Shell);
    assert_eq!(t.rows[1].kind, LineKind::ShellResult(false));
    assert_eq!(t.rows[1].text, "cancelled");
}
