use oven_tui::components::component::{Action, KeyResult};
use oven_tui::components::event::Role;
use oven_tui::components::theme;
use oven_tui::keys::{MouseButton, MouseEvent, MouseEventKind};
use oven_tui::style::Rect;
use oven_tui::ui::event::{AgentEvent, AppEvent, ContentBlock, Message};
use oven_tui::ui::transcript::kinds::{LineKind, LINE_PREFIX_WIDTH};
use oven_tui::ui::transcript::selection::{extract_line_range, highlight_line, slice_cols};
use oven_tui::ui::transcript::widget::Transcript;
use oven_tui::ui::transcript::wrap::{
    collapse_thinking, format_lines, truncate_result, MAX_RESULT_LINES,
};
use unicode_width::UnicodeWidthStr;

fn json(source: &str) -> serde_json::Value {
    serde_json::from_str(source).expect("json")
}

fn text(text: &str) -> ContentBlock {
    ContentBlock::Text { text: text.to_string() }
}

fn user(content: Vec<ContentBlock>) -> Message {
    Message { role: Role::User, content }
}

fn user_text(t: &str) -> Message {
    user(vec![text(t)])
}

fn assistant(content: Vec<ContentBlock>) -> Message {
    Message { role: Role::Assistant, content }
}

fn tool_result(output: &str, is_error: bool) -> Message {
    Message {
        role: Role::Tool,
        content: vec![ContentBlock::ToolResult { content: vec![text(output)], is_error }],
    }
}

fn wide(t: &mut Transcript) {
    t.width = 80;
    t.rewrap_all();
}

fn fill(t: &mut Transcript, n: usize) {
    for i in 0..n {
        t.push_row(LineKind::Text, &format!("line {i}"));
    }
}

fn ready(t: &mut Transcript, area: Rect) {
    t.area = area;
    t.width = area.width as usize;
    t.view_height = area.height as usize;
    t.rewrap_all();
}

fn mouse(kind: MouseEventKind, column: u16, row: u16) -> MouseEvent {
    MouseEvent { kind, column, row }
}

#[test]
fn collapse_thinking_keeps_first_line() {
    assert_eq!(collapse_thinking("one\ntwo\nthree"), "one…");
    assert_eq!(collapse_thinking("only"), "only");
}

#[test]
fn truncate_result_caps_lines() {
    let text = (0..10)
        .map(|i| format!("l{i}"))
        .collect::<Vec<_>>()
        .join("\n");
    let out = truncate_result(&text);
    assert!(out.ends_with("… 4 more"));
    assert_eq!(out.lines().count(), MAX_RESULT_LINES + 1);
}

#[test]
fn transcript_all_gutters_are_two_wide() {
    let kinds = [
        LineKind::User,
        LineKind::Thinking,
        LineKind::Text,
        LineKind::Tool,
        LineKind::ToolResult(true),
        LineKind::ToolResult(false),
        LineKind::Error,
        LineKind::System,
    ];
    for kind in kinds {
        assert_eq!(kind.gutter().width(), LINE_PREFIX_WIDTH);
    }
}

#[test]
fn transcript_assistant_gutter_is_bullet() {
    let lines = format_lines(LineKind::Text, "hi");
    assert_eq!(lines[0].spans[0].content, "• ");
}

#[test]
fn transcript_tool_result_gutters() {
    let ok = format_lines(LineKind::ToolResult(true), "out");
    assert_eq!(ok[0].spans[0].content, "  ");
    let fail = format_lines(LineKind::ToolResult(false), "boom");
    assert_eq!(fail[0].spans[0].content, "  ");
}

#[test]
fn transcript_streaming_does_not_yank_scrolled_view() {
    let mut t = Transcript::new();
    wide(&mut t);
    t.view_height = 3;
    fill(&mut t, 10);
    t.scroll_up(2);
    let anchored = t.top;
    assert!(!t.pinned);
    t.push_stream(LineKind::Text, "more");
    assert_eq!(t.top, anchored, "reading position must not move");
    assert!(!t.pinned);
}

#[test]
fn transcript_streaming_follows_when_pinned() {
    let mut t = Transcript::new();
    wide(&mut t);
    t.view_height = 3;
    fill(&mut t, 10);
    assert!(t.pinned);
    t.push_stream(LineKind::Text, "more");
    assert!(t.pinned);
    t.rewrap_stream();
    assert_eq!(
        t.current_top(),
        t.total_lines().saturating_sub(t.view_height)
    );
}

#[test]
fn transcript_scroll_down_returns_to_bottom() {
    let mut t = Transcript::new();
    wide(&mut t);
    t.view_height = 3;
    fill(&mut t, 10);
    t.scroll_up(5);
    assert!(!t.pinned);
    t.scroll_down(5);
    assert!(t.pinned);
}

#[test]
fn tool_end_renders_result_row() {
    let mut t = Transcript::new();
    let ev = AppEvent::Agent {
        event: AgentEvent::ToolEnd {
            ok: false,
            output: "boom\n".to_string(),
        },
    };
    t.on_event(&ev);
    let row = t.rows.last().unwrap();
    assert_eq!(row.kind, LineKind::ToolResult(false));
    assert_eq!(row.text, "boom");
}

#[test]
fn transcript_empty_ok_tool_end_renders_nothing() {
    let mut t = Transcript::new();
    let n = t.rows.len();
    let ev = AppEvent::Agent {
        event: AgentEvent::ToolEnd {
            ok: true,
            output: String::new(),
        },
    };
    t.on_event(&ev);
    assert_eq!(t.rows.len(), n);
}

#[test]
fn push_user_queued_is_deferred_until_idle() {
    let mut t = Transcript::new();
    let n = t.rows.len();
    t.push_user_queued("hello");
    assert_eq!(t.rows.len(), n);
    t.on_event(&AppEvent::Idle);
    assert_eq!(
        t.rows.last().map(|r| (r.kind, r.text.as_str())),
        Some((LineKind::User, "hello"))
    );
}

#[test]
fn queued_user_renders_after_streamed_answer() {
    let mut t = Transcript::new();
    t.push_stream(LineKind::Text, "answer");
    t.push_user_queued("hello");
    t.on_event(&AppEvent::Idle);
    let kinds: Vec<LineKind> = t.rows.iter().map(|r| r.kind).collect();
    assert_eq!(&kinds[kinds.len() - 2..], &[LineKind::Text, LineKind::User]);
}

#[test]
fn queued_user_renders_after_tool_end() {
    let mut t = Transcript::new();
    t.push_user_queued("hello");
    let ev = AppEvent::Agent {
        event: AgentEvent::ToolEnd {
            ok: false,
            output: "boom\n".to_string(),
        },
    };
    t.on_event(&ev);
    let kinds: Vec<LineKind> = t.rows.iter().map(|r| r.kind).collect();
    assert_eq!(
        &kinds[kinds.len() - 2..],
        &[LineKind::ToolResult(false), LineKind::User]
    );
    assert_eq!(t.rows.last().map(|r| r.text.as_str()), Some("hello"));
}

#[test]
fn queued_user_renders_after_empty_tool_end() {
    let mut t = Transcript::new();
    t.push_user_queued("hello");
    let ev = AppEvent::Agent {
        event: AgentEvent::ToolEnd {
            ok: true,
            output: String::new(),
        },
    };
    t.on_event(&ev);
    assert_eq!(
        t.rows.last().map(|r| (r.kind, r.text.as_str())),
        Some((LineKind::User, "hello"))
    );
}

#[test]
fn transcript_seed_renders_persisted_messages() {
    let mut t = Transcript::new();
    let messages = vec![
        user_text("hello"),
        assistant(vec![
            ContentBlock::Thinking {
                thinking: "hmm".to_string(),
            },
            ContentBlock::Text {
                text: "hi there".to_string(),
            },
            ContentBlock::ToolUse {
                name: "bash".to_string(),
                input: json(r#"{ "command": "ls" }"#),
            },
        ]),
        tool_result("done", false),
        user(vec![
            ContentBlock::Text {
                text: "thanks".to_string(),
            },
            ContentBlock::ToolResult {
                content: vec![text("boom")],
                is_error: true,
            },
        ]),
    ];
    t.seed(&messages);

    let kinds: Vec<LineKind> = t.rows.iter().map(|r| r.kind).collect();
    assert_eq!(
        kinds,
        vec![
            LineKind::User,
            LineKind::Thinking,
            LineKind::Text,
            LineKind::Tool,
            LineKind::ToolResult(false),
            LineKind::User,
            LineKind::ToolResult(true),
        ]
    );
    assert_eq!(t.rows[0].text, "hello");
    assert_eq!(t.rows[3].text, "ls");
}

#[test]
fn transcript_seed_empty_history_is_empty() {
    let mut t = Transcript::new();
    t.seed(&vec![]);
    assert!(t.rows.is_empty());
}

#[test]
fn transcript_reply_event_does_not_append_to_transcript() {
    let mut t = Transcript::new();
    t.push_user("/model");
    let n = t.rows.len();
    t.on_event(
        &AppEvent::Notify {
            text: "current model: gpt-4o".to_string(),
        });
    assert_eq!(t.rows.len(), n);
}

#[test]
fn transcript_seed_mirrors_empty_tool_result_handling() {
    let mut t = Transcript::new();
    t.seed(&vec![tool_result("", false)]);
    assert!(t.rows.is_empty(), "empty ok output is skipped");

    let mut t = Transcript::new();
    t.seed(&vec![tool_result("", true)]);
    assert_eq!(
        t.rows.last().map(|r| (r.kind, r.text.as_str())),
        Some((LineKind::ToolResult(true), "(no output)"))
    );
}

#[test]
fn transcript_last_user_text_returns_most_recent_user_row() {
    let mut t = Transcript::new();
    t.push_user("first");
    t.push_row(LineKind::Text, "one");
    t.push_user("second");
    assert_eq!(t.last_user_text().as_deref(), Some("second"));
}

#[test]
fn transcript_last_user_text_none_without_user_rows() {
    let mut t = Transcript::new();
    t.push_row(LineKind::Text, "one");
    assert_eq!(t.last_user_text(), None);
}

#[test]
fn pop_pending_user_pops_last() {
    let mut t = Transcript::new();
    t.push_user_queued("a");
    t.push_user_queued("b");
    assert_eq!(t.pop_pending_user().as_deref(), Some("b"));
    assert_eq!(t.pop_pending_user().as_deref(), Some("a"));
    assert_eq!(t.pop_pending_user(), None);
}

#[test]
fn replace_from_rebuilds_rows_and_keeps_pending_user() {
    let mut t = Transcript::new();
    t.push_user("old");
    t.push_user_queued("queued");
    t.replace_from(&vec![user_text("resumed")]);
    assert_eq!(t.rows[0].text, "resumed");
    assert_eq!(t.pending_user, vec!["queued".to_string()]);
}

#[test]
fn transcript_slice_cols_by_display_width() {
    assert_eq!(slice_cols("hello", 1, 4), "ell");
    assert_eq!(slice_cols("你好", 0, 2), "你");
    assert_eq!(slice_cols("你好", 2, 4), "好");
    assert_eq!(slice_cols("hello", 3, 3), "");
}

#[test]
fn transcript_extract_skips_gutter() {
    let line = format_lines(LineKind::Text, "hello").pop().unwrap();
    assert_eq!(extract_line_range(&line, 0, 7), "hello");
    assert_eq!(extract_line_range(&line, 2, 7), "hello");
    assert_eq!(extract_line_range(&line, 2, 5), "hel");
    assert_eq!(extract_line_range(&line, 0, 2), "");
}

#[test]
fn transcript_mouse_drag_selects_body_without_gutter() {
    let mut t = Transcript::new();
    t.push_row(LineKind::Text, "hello");
    ready(&mut t, Rect::new(0, 0, 80, 5));
    t.handle_mouse(&mouse(MouseEventKind::Down(MouseButton::Left), 2, 0), true);
    t.handle_mouse(&mouse(MouseEventKind::Drag(MouseButton::Left), 7, 0), true);
    assert_eq!(t.selected_text().as_deref(), Some("hello"));
}

#[test]
fn transcript_mouse_drag_reverse_selects_same_text() {
    let mut t = Transcript::new();
    t.push_row(LineKind::Text, "hello");
    ready(&mut t, Rect::new(0, 0, 80, 5));
    t.handle_mouse(&mouse(MouseEventKind::Down(MouseButton::Left), 7, 0), true);
    t.handle_mouse(&mouse(MouseEventKind::Drag(MouseButton::Left), 2, 0), true);
    assert_eq!(t.selected_text().as_deref(), Some("hello"));
}

#[test]
fn transcript_mouse_drag_selects_across_rows() {
    let mut t = Transcript::new();
    t.push_row(LineKind::Text, "hello");
    t.push_row(LineKind::Text, "world");
    ready(&mut t, Rect::new(0, 0, 80, 5));
    t.handle_mouse(&mouse(MouseEventKind::Down(MouseButton::Left), 2, 0), true);
    t.handle_mouse(&mouse(MouseEventKind::Drag(MouseButton::Left), 7, 2), true);
    assert_eq!(t.selected_text().as_deref(), Some("hello\n\nworld"));
}

#[test]
fn transcript_mouse_click_without_drag_is_empty() {
    let mut t = Transcript::new();
    t.push_row(LineKind::Text, "hello");
    ready(&mut t, Rect::new(0, 0, 80, 5));
    t.handle_mouse(&mouse(MouseEventKind::Down(MouseButton::Left), 3, 0), true);
    assert_eq!(t.selected_text(), None);
    let up = t.handle_mouse(&mouse(MouseEventKind::Up(MouseButton::Left), 3, 0), true);
    assert!(matches!(up, KeyResult::Handled));
    assert!(t.select_anchor.is_none());
    assert!(!t.dragging);
}

#[test]
fn transcript_mouse_up_after_selection_emits_copied_reply() {
    let mut t = Transcript::new();
    t.push_row(LineKind::Text, "hello");
    ready(&mut t, Rect::new(0, 0, 80, 5));
    t.handle_mouse(&mouse(MouseEventKind::Down(MouseButton::Left), 2, 0), true);
    t.handle_mouse(&mouse(MouseEventKind::Drag(MouseButton::Left), 7, 0), true);
    let up = t.handle_mouse(&mouse(MouseEventKind::Up(MouseButton::Left), 7, 0), true);
    assert!(matches!(up, KeyResult::Action(Action::Notify(text)) if text == "Copied!"));
    assert_eq!(t.selected_text().as_deref(), Some("hello"));
}

#[test]
fn transcript_mouse_selects_wide_chars() {
    let mut t = Transcript::new();
    t.push_row(LineKind::Text, "你好");
    ready(&mut t, Rect::new(0, 0, 80, 5));
    t.handle_mouse(&mouse(MouseEventKind::Down(MouseButton::Left), 2, 0), true);
    t.handle_mouse(&mouse(MouseEventKind::Drag(MouseButton::Left), 4, 0), true);
    assert_eq!(t.selected_text().as_deref(), Some("你"));
}

#[test]
fn transcript_mouse_selects_wrapped_lines() {
    let mut t = Transcript::new();
    t.push_row(LineKind::Text, "abcdefgh");
    ready(&mut t, Rect::new(0, 0, 6, 5));
    t.handle_mouse(&mouse(MouseEventKind::Down(MouseButton::Left), 2, 0), true);
    t.handle_mouse(&mouse(MouseEventKind::Drag(MouseButton::Left), 6, 1), true);
    assert_eq!(t.selected_text().as_deref(), Some("abcd\nefgh"));
}

#[test]
fn transcript_mouse_down_outside_is_ignored() {
    let mut t = Transcript::new();
    t.push_row(LineKind::Text, "hello");
    ready(&mut t, Rect::new(0, 0, 80, 5));
    let r = t.handle_mouse(&mouse(MouseEventKind::Down(MouseButton::Left), 0, 20), true);
    assert!(matches!(r, KeyResult::Ignored));
    assert!(t.select_anchor.is_none());
}

#[test]
fn transcript_mouse_drag_outside_extends_to_end() {
    let mut t = Transcript::new();
    t.push_row(LineKind::Text, "hello");
    ready(&mut t, Rect::new(0, 0, 80, 5));
    t.handle_mouse(&mouse(MouseEventKind::Down(MouseButton::Left), 2, 0), true);
    let r = t.handle_mouse(&mouse(MouseEventKind::Drag(MouseButton::Left), 0, 20), true);
    assert!(matches!(r, KeyResult::Handled));
    assert_eq!(t.selected_text().as_deref(), Some("hello"));
}

#[test]
fn transcript_highlight_line_marks_range() {
    let line = format_lines(LineKind::Text, "hello").pop().unwrap();
    let hi = highlight_line(&line, 2, 7);
    assert_eq!(hi.spans.len(), 2);
    assert_eq!(hi.spans[0].content, "• ");
    assert_eq!(hi.spans[1].content, "hello");
    assert_eq!(hi.spans[1].style, theme::selection());
}

#[test]
fn transcript_replace_from_clears_selection() {
    let mut t = Transcript::new();
    t.push_row(LineKind::Text, "hello");
    ready(&mut t, Rect::new(0, 0, 80, 5));
    t.handle_mouse(&mouse(MouseEventKind::Down(MouseButton::Left), 2, 0), true);
    t.handle_mouse(&mouse(MouseEventKind::Drag(MouseButton::Left), 7, 0), true);
    assert!(t.selected_text().is_some());
    t.replace_from(&vec![user_text("resumed")]);
    assert!(t.select_anchor.is_none());
    assert!(!t.dragging);
}
