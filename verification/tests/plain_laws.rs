use base64::Engine;
use oven_tui::components::event::{
    Protocol, ProviderConfig, ReasoningEffort, Role, TodoItem, TodoStatus, Usage,
};
use oven_tui::components::todos::TodosWidget;
use oven_tui::keys::{KeyCode, KeyEvent, KeyModifiers};
use oven_tui::style::{Line, Rect};
use oven_tui::ui::component::State;
use oven_tui::ui::event::{tool_display, AgentEvent, AppEvent, ContentBlock, Message};
use oven_tui::ui::info::InfoBar;
use oven_tui::ui::input::mask_cursor;
use oven_tui::ui::layout::{split, KEPT};
use oven_tui::ui::queue::QueueWidget;
use oven_tui::ui::setup_wizard::{
    compose, kinds_for, KindChoice, SetupWizard, SetupWizardAction, Stage,
};
use oven_tui::ui::status::{hint, StatusBar};
use oven_tui::ui::todos::on_event;
use oven_tui::ui::transcript::base64::base64_encode;
use oven_tui::ui::transcript::kinds::LineKind;
use oven_tui::ui::transcript::selection::{skip_width, slice_cols};
use oven_tui::ui::transcript::tools::{compact_tool_arg, format_tool_summary, ToolBurst};
use oven_tui::ui::transcript::widget::Transcript;
use oven_tui::ui::transcript::wrap::{
    format_lines, keep_text, truncate_result, wrap_line_into, wrap_row_into,
};
use oven_tui::ui::usage::{format_usage, UsageBar};
use unicode_width::UnicodeWidthStr;

fn key(code: KeyCode) -> KeyEvent {
    KeyEvent::new(code, KeyModifiers::none())
}

fn texts(lines: &[Line]) -> Vec<String> {
    lines.iter().map(|line| line.text()).collect()
}

fn agent(event: AgentEvent) -> AppEvent {
    AppEvent::Agent { event }
}

fn text_delta(text: &str) -> AppEvent {
    agent(AgentEvent::TextDelta { text: text.to_string() })
}

#[test]
fn decoding_gives_the_bytes_back() {
    for data in ["", "f", "fo", "foo", "foob", "fooba", "foobar", "你好\u{1}"] {
        let encoded = base64_encode(data.as_bytes());
        assert_eq!(encoded, base64::engine::general_purpose::STANDARD.encode(data));
    }
    let all: Vec<u8> = (0..=255).collect();
    assert_eq!(base64_encode(&all), base64::engine::general_purpose::STANDARD.encode(&all));
    assert_eq!(base64_encode(b"foobar"), "Zm9vYmFy");
}

#[test]
fn each_tool_has_one_entry() {
    let mut burst = ToolBurst::new();
    burst.bump("bash");
    burst.bump("grep");
    burst.bump("bash");
    burst.bump_failed("bash");
    burst.bump_failed("missing");
    let entries: Vec<(String, usize, usize)> =
        burst.entries().iter().map(|e| (e.name.clone(), e.total, e.failed)).collect();
    assert_eq!(entries, vec![("bash".to_string(), 2, 1), ("grep".to_string(), 1, 0)]);
    assert_eq!(format_tool_summary(burst.entries()), "bash ×2 · grep · 1 failed");
    assert_eq!(format_tool_summary(&Vec::new()), "");
}

#[test]
fn tool_arguments_are_one_short_line() {
    assert_eq!(compact_tool_arg(" a\n  b\tc "), "a b c");
    let long = compact_tool_arg(&"x".repeat(200));
    assert_eq!(long.width(), 80);
    assert!(long.ends_with('…'));
    assert_eq!(compact_tool_arg(&"x".repeat(80)), "x".repeat(80));
}

#[test]
fn shell_calls_show_their_command() {
    let json = |s: &str| -> serde_json::Value { serde_json::from_str(s).expect("json") };
    assert_eq!(tool_display("bash", &json(r#"{ "command": " ls -l " }"#)), "ls -l");
    assert_eq!(tool_display("bash", &json(r#"{ "command": "  " }"#)), "bash");
    assert_eq!(tool_display("bash", &json(r#"{ "command": 3 }"#)), "bash");
    assert_eq!(tool_display("bash", &json(r#"[ "command" ]"#)), "bash");
    assert_eq!(tool_display("grep", &json(r#"{ "command": "ls" }"#)), "grep");
}

#[test]
fn wrapped_lines_hold_the_whole_body() {
    for width in [3, 5, 9, 40] {
        let line = format_lines(LineKind::Text, "hello 你好 world").pop().unwrap();
        let mut out = Vec::new();
        wrap_line_into(&mut out, &line, width);
        let body: String = out.iter().map(|l| l.text_from(1)).collect();
        assert_eq!(body, line.text_from(1));
    }
    let mut out = Vec::new();
    wrap_row_into(&mut out, LineKind::Text, "abcd", 4);
    assert_eq!(texts(&out), vec!["• ab", "  cd"]);
}

#[test]
fn slices_are_pieces_of_the_text() {
    let s = "a你b好c";
    for start in 0..8 {
        for end in start..8 {
            assert!(s.contains(&slice_cols(s, start, end)));
        }
    }
    assert_eq!(skip_width("你好", 2), "好");
    assert_eq!(skip_width("abc", 0), "abc");
}

#[test]
fn kept_text_depends_on_the_kind() {
    assert_eq!(keep_text(LineKind::Thinking, "one\ntwo"), "one…");
    let long = (0..9).map(|i| i.to_string()).collect::<Vec<_>>().join("\n");
    assert_eq!(keep_text(LineKind::ToolResult(true), &long), truncate_result(&long));
    assert_eq!(keep_text(LineKind::Text, "one\ntwo"), "one\ntwo");
}

#[test]
fn queued_messages_come_in_order() {
    let mut t = Transcript::new();
    t.push_user_queued("a");
    t.push_user_queued("b");
    t.on_event(&text_delta("answer"));
    t.on_event(&AppEvent::Idle);
    let rows: Vec<&str> = t.rows.iter().map(|row| row.text.as_str()).collect();
    assert_eq!(rows, vec!["answer", "a", "b"]);
    assert!(t.pending_user.is_empty());
}

#[test]
fn scrolled_view_stays_and_lines_stay_current() {
    let mut t = Transcript::new();
    t.lay_out(Rect::new(0, 0, 30, 4));
    for i in 0..9 {
        t.push_row(LineKind::Text, &format!("line {i}"));
    }
    t.scroll_up(2);
    let top = t.top;
    t.on_event(&agent(AgentEvent::ToolEnd { ok: false, output: "boom".to_string() }));
    t.on_event(&AppEvent::Error { message: "bad".to_string() });
    assert_eq!(t.top, top);
    assert!(!t.pinned);
    let drawn = texts(&t.wrapped);
    t.rewrap_all();
    assert_eq!(texts(&t.wrapped), drawn);
    t.lay_out(Rect::new(0, 0, 12, 4));
    let drawn = texts(&t.wrapped);
    t.rewrap_all();
    assert_eq!(texts(&t.wrapped), drawn);
    assert!(t.screen_lines().len() <= 4);
    t.scroll_down(u16::MAX);
    assert!(t.pinned);
}

#[test]
fn clearing_the_history_empties_the_transcript() {
    let mut t = Transcript::new();
    t.push_user("old");
    t.on_event(&text_delta("streaming"));
    t.on_event(&agent(AgentEvent::HistoryCleared));
    assert!(t.rows.is_empty());
    assert!(t.wrapped.is_empty());
    assert_eq!(t.streaming, "");
}

#[test]
fn rewinding_rebuilds_the_transcript() {
    let mut t = Transcript::new();
    t.push_user("old");
    t.on_event(&AppEvent::Rewound {
        text: None,
        messages: vec![Message {
            role: Role::User,
            content: vec![ContentBlock::Text { text: "kept".to_string() }],
        }],
        usage: Usage::zero(),
    });
    assert_eq!(t.last_user_text().as_deref(), Some("kept"));
    assert_eq!(t.rows.len(), 1);
}

#[test]
fn queue_rows_hold_their_lines() {
    let widget = QueueWidget::new();
    for n in 1..6 {
        let pending: Vec<String> = (0..n).map(|i| format!("m{i}")).collect();
        assert_eq!(widget.draw(40, &pending).len() as u16 + 2, widget.height(&pending));
    }
    let pending: Vec<String> = (0..5).map(|i| format!("m{i}")).collect();
    assert_eq!(texts(&widget.draw(40, &pending)).last().unwrap(), "… and 2 more queued");
    assert!(widget.title(&pending).contains('5'));
}

#[test]
fn plain_bands_cover_the_screen() {
    for h in [0, 1, 3, KEPT, 7, 24] {
        let area = Rect::new(3, 2, 40, h);
        let r = split(area, 2, 9, 4, 6);
        let mut bands = vec![r.transcript];
        bands.extend(r.queue);
        bands.push(r.input);
        bands.extend(r.popup);
        bands.push(r.status);
        bands.extend(r.reply);
        if h >= KEPT {
            let mut y = area.y;
            for band in bands {
                assert_eq!((band.x, band.y, band.width), (area.x, y, area.width));
                y += band.height;
            }
            assert_eq!(y, area.y + h);
            assert!(r.transcript.height >= 3);
            assert_eq!(r.status.height, 1);
        }
    }
}

#[test]
fn only_the_formats_of_a_provider_are_offered() {
    let both = vec![
        KindChoice::Use(Protocol::Completions),
        KindChoice::Use(Protocol::Responses),
    ];
    assert_eq!(kinds_for(&Some("openai".to_string())), both);
    assert_eq!(kinds_for(&Some("zhipu".to_string())), both[..1].to_vec());
    assert_eq!(kinds_for(&Some("grok".to_string())), both[1..].to_vec());
    assert_eq!(kinds_for(&None).last(), Some(&KindChoice::Keep));
    let mut w = SetupWizard::new(ProviderConfig::empty());
    w.open();
    while w.stage() == Stage::Name {
        w.handle_key(&key(KeyCode::Enter));
    }
    assert_eq!(w.stage(), Stage::Kind);
    assert!(matches!(w.handle_key(&key(KeyCode::Esc)), SetupWizardAction::Handled));
    assert_eq!(compose(&None, None, &None), None);
    assert_eq!(
        compose(&Some("grok".to_string()), Some(Protocol::Responses), &Some("k".to_string())),
        Some("/setup name=grok kind=responses api_key=k".to_string())
    );
}

#[test]
fn masked_cursor_stays_in_the_box() {
    assert_eq!(mask_cursor("***", 10), 3);
    assert_eq!(mask_cursor("***", 2), 1);
    assert_eq!(mask_cursor("", 0), 0);
}

#[test]
fn token_row_counts_what_was_used() {
    let mut usage = Usage {
        input_tokens: 1_500,
        output_tokens: 20,
        cache_read_tokens: 0,
        reasoning_tokens: 0,
    };
    assert_eq!(format_usage(&usage), " ↑1.5k in · ↓20 out");
    usage.cache_read_tokens = 7;
    usage.reasoning_tokens = 1_000;
    assert_eq!(format_usage(&usage), " ↑1.5k in · ↓20 out · cache 7 · reasoning 1.0k");
    let mut bar = UsageBar::new();
    bar.on_event(&agent(AgentEvent::Done { text: String::new(), usage }));
    assert_eq!(bar.draw().text(), format_usage(&usage));
}

#[test]
fn info_row_names_model_and_root() {
    let bar = InfoBar::new("m".to_string(), "/home/u/code", Some("/home/u"));
    assert_eq!(bar.draw().text(), " m · ~/code");
    let bar = InfoBar::new("m".to_string(), "/home/u/code", None);
    assert_eq!(bar.draw().text(), " m · /home/u/code");
}

#[test]
fn plain_status_row_names_effort_and_hint() {
    let mut bar = StatusBar::new("m".to_string(), "/tmp", None, Usage::zero());
    let mut state = State::new();
    bar.on_event(
        &agent(AgentEvent::ModelChanged {
            model: "n".to_string(),
            reasoning_effort: Some(ReasoningEffort::Low),
        }),
        &mut state,
        0,
    );
    let row = bar.draw_bar(100, &state, false, 0).text();
    assert!(row.contains('n') && row.contains("low") && row.contains("/tmp"), "{row}");
    assert!(row.contains(hint(false, false)), "{row}");
    assert_eq!(hint(true, true), "tab fill · enter · esc");
    assert_eq!(hint(false, true), "esc cancel · enter queue");
}

#[test]
fn plain_tasks_follow_events() {
    let mut tasks = TodosWidget::new(Vec::new());
    let items = vec![TodoItem {
        id: "a".to_string(),
        content: "one".to_string(),
        status: TodoStatus::InProgress,
    }];
    on_event(&mut tasks, &agent(AgentEvent::TodoUpdated { items }));
    assert_eq!(texts(&tasks.draw(20, 1)), vec!["[~] one"]);
}
