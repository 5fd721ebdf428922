use oven_tui::components::event::{ReasoningEffort, TodoItem, TodoStatus, Usage};
use oven_tui::components::sizing::{display_path_with_home, wrap_text};
use oven_tui::components::status::{usage_spans, REPLY_TTL};
use oven_tui::components::theme;
use oven_tui::components::todos::TodosWidget;
use oven_tui::style::Color;
use oven_tui::ui::component::State;
use oven_tui::ui::event::{AgentEvent, AppEvent};
use oven_tui::ui::queue::{preview_line, QueueWidget};
use oven_tui::ui::status::StatusBar;
use oven_tui::ui::todos::on_event;
use unicode_width::UnicodeWidthStr;

fn agent_event(event: AgentEvent) -> AppEvent {
    AppEvent::Agent { event }
}

fn done(usage: Usage) -> AppEvent {
    agent_event(AgentEvent::Done { text: String::new(), usage })
}

fn notify(text: &str) -> AppEvent {
    AppEvent::Notify { text: text.to_string() }
}

fn q(texts: &[&str]) -> Vec<String> {
    texts.iter().map(|s| s.to_string()).collect()
}

fn item(id: &str, content: &str, status: TodoStatus) -> TodoItem {
    TodoItem { id: id.to_string(), content: content.to_string(), status }
}

fn sample() -> Vec<TodoItem> {
    vec![
        item("a", "pending task", TodoStatus::Pending),
        item("b", "active task", TodoStatus::InProgress),
        item("c", "done task", TodoStatus::Completed),
    ]
}

fn render(widget: &TodosWidget) -> String {
    let rows: Vec<String> =
        widget.draw(40, widget.height().max(1)).iter().map(|line| line.text()).collect();
    rows.join("\n")
}

#[test]
fn idle_clears_busy() {
    let mut bar = StatusBar::new("m".to_string(), "/tmp", None, Usage::zero());
    let mut state = State { busy: true };
    bar.on_event(&AppEvent::Idle, &mut state, 0);
    assert!(!state.busy);
}

#[test]
fn status_history_cleared_resets_usage() {
    let mut bar = StatusBar::new("m".to_string(), "/tmp", None, Usage::zero());
    let mut state = State::new();
    let before = Usage {
        input_tokens: 1000,
        output_tokens: 2000,
        cache_read_tokens: 0,
        reasoning_tokens: 0,
    };
    bar.on_event(&done(before), &mut state, 0);
    assert_eq!(bar.total(), before);
    bar.on_event(
        &agent_event(AgentEvent::HistoryCleared),
        &mut state,
        0,
    );
    assert_eq!(bar.total(), Usage::zero());
}

#[test]
fn status_done_updates_token_usage() {
    let mut bar = StatusBar::new("m".to_string(), "/tmp", None, Usage::zero());
    let mut state = State::new();
    let usage = Usage {
        input_tokens: 1234,
        output_tokens: 56,
        cache_read_tokens: 789,
        reasoning_tokens: 10,
    };
    bar.on_event(
        &agent_event(AgentEvent::Done {
            text: "done".to_string(),
            usage,
        }),
        &mut state,
        0,
    );
    assert_eq!(bar.total(), usage);
}

#[test]
fn status_rewound_syncs_token_usage() {
    let mut bar = StatusBar::new("m".to_string(), "/tmp", None, Usage::zero());
    let mut state = State::new();
    let before = Usage {
        input_tokens: 1000,
        output_tokens: 2000,
        cache_read_tokens: 0,
        reasoning_tokens: 0,
    };
    bar.on_event(&done(before), &mut state, 0);
    assert_eq!(bar.total(), before);
    let usage = Usage {
        input_tokens: 500,
        output_tokens: 100,
        cache_read_tokens: 0,
        reasoning_tokens: 0,
    };
    bar.on_event(
        &AppEvent::Rewound {
            text: Some("restored".to_string()),
            messages: Vec::new(),
            usage,
        },
        &mut state,
        0,
    );
    assert_eq!(bar.total(), usage);
}

#[test]
fn status_model_changed_updates_model_and_effort() {
    let mut bar = StatusBar::new("gpt-4o".to_string(), "/tmp", None, Usage::zero());
    let mut state = State::new();
    bar.on_event(
        &agent_event(AgentEvent::ModelChanged {
            model: "deepseek-chat".to_string(),
            reasoning_effort: Some(ReasoningEffort::High),
        }),
        &mut state,
        0,
    );
    assert_eq!(bar.model(), "deepseek-chat");
    assert_eq!(bar.effort(), Some(ReasoningEffort::High));

    bar.on_event(
        &agent_event(AgentEvent::ModelChanged {
            model: "gpt-4o".to_string(),
            reasoning_effort: None,
        }),
        &mut state,
        0,
    );
    assert_eq!(bar.model(), "gpt-4o");
    assert_eq!(bar.effort(), None);
}

#[test]
fn status_initial_usage_seeds_total() {
    let usage = Usage {
        input_tokens: 4200,
        output_tokens: 1300,
        cache_read_tokens: 900,
        reasoning_tokens: 0,
    };
    let bar = StatusBar::new("m".to_string(), "/tmp", None, usage);
    assert_eq!(bar.total(), usage);
}

#[test]
fn reply_event_sets_reply_and_height() {
    let mut bar = StatusBar::new("m".to_string(), "/tmp", None, Usage::zero());
    let mut state = State::new();
    assert_eq!(bar.reply_height(80), 0);
    bar.on_event(
        &AppEvent::Notify {
            text: "current model: gpt-4o".to_string(),
        },
        &mut state,
        0,
    );
    assert_eq!(bar.reply().as_deref(), Some("current model: gpt-4o"));
    assert_eq!(bar.reply_height(80), 1);
    assert_eq!(bar.reply_height(8), 3);
    assert!(bar.has_reply());
    assert!(!bar.expire_reply(0));
}

#[test]
fn status_reply_expires_once_ttl_elapses() {
    let mut bar = StatusBar::new("m".to_string(), "/tmp", None, Usage::zero());
    let mut state = State::new();
    bar.on_event(&notify("hi"), &mut state, 10);
    assert!(!bar.expire_reply(10));
    assert!(!bar.expire_reply(9 + REPLY_TTL));
    assert_eq!(bar.reply().as_deref(), Some("hi"));

    assert!(bar.expire_reply(11 + REPLY_TTL));
    assert!(bar.reply().is_none());
    assert!(!bar.has_reply());
}

#[test]
fn status_history_cleared_and_rewound_drop_reply() {
    let mut bar = StatusBar::new("m".to_string(), "/tmp", None, Usage::zero());
    let mut state = State::new();
    bar.on_event(&notify("hi"), &mut state, 0);
    bar.on_event(
        &agent_event(AgentEvent::HistoryCleared),
        &mut state,
        0,
    );
    assert!(bar.reply().is_none());

    bar.on_event(&notify("hi"), &mut state, 0);
    bar.on_event(
        &AppEvent::Rewound {
            text: None,
            messages: Vec::new(),
            usage: Usage::zero(),
        },
        &mut state,
        0,
    );
    assert!(bar.reply().is_none());
}

#[test]
fn reply_paints_orange_on_the_row_below_status() {
    let mut bar = StatusBar::new("m".to_string(), "/tmp", None, Usage::zero());
    let mut state = State::new();
    bar.on_event(&notify("current model: gpt-4o"), &mut state, 0);
    assert!(!bar.draw_bar(40, &state, false, 0).text().contains("current model"));
    let rows = bar.draw_reply(40);
    let row = rows[0].text();
    assert!(row.contains("current model: gpt-4o"), "reply row was {row:?}");
    assert_eq!(rows[0].spans[0].style.fg, Some(Color::Rgb(255, 140, 0)));
}

#[test]
fn status_wrap_text_splits_on_width_and_newlines() {
    assert!(wrap_text("", 10).is_empty());
    assert_eq!(wrap_text("abcd", 2), vec!["ab", "cd"]);
    assert_eq!(wrap_text("a\nb", 10), vec!["a", "b"]);
}

#[test]
fn status_usage_hidden_while_default() {
    let gray = theme::dim();
    assert!(usage_spans(&Usage::zero(), gray).is_empty());
}

#[test]
fn status_usage_shown_once_recorded() {
    let gray = theme::dim();
    let usage = Usage {
        input_tokens: 1200,
        output_tokens: 30,
        cache_read_tokens: 0,
        reasoning_tokens: 0,
    };
    let spans = usage_spans(&usage, gray);
    assert_eq!(spans.len(), 2);
    assert!(spans[1].content.contains("1.2k in"));
}

#[test]
fn status_home_dir_itself_becomes_tilde() {
    assert_eq!(
        display_path_with_home("/home/u", "/home/u"),
        "~"
    );
}

#[test]
fn status_path_under_home_uses_tilde_prefix() {
    assert_eq!(
        display_path_with_home("/home/u/code/oven", "/home/u"),
        "~/code/oven"
    );
}

#[test]
fn status_path_outside_home_stays_absolute() {
    assert_eq!(
        display_path_with_home("/tmp/oven", "/home/u"),
        "/tmp/oven"
    );
}

#[test]
fn status_similar_prefix_is_not_treated_as_home() {
    assert_eq!(
        display_path_with_home("/home/user2/x", "/home/user"),
        "/home/user2/x"
    );
}

#[test]
fn info_home_dir_itself_becomes_tilde() {
    assert_eq!(
        display_path_with_home("/home/u", "/home/u"),
        "~"
    );
}

#[test]
fn info_path_under_home_uses_tilde_prefix() {
    assert_eq!(
        display_path_with_home("/home/u/code/oven", "/home/u"),
        "~/code/oven"
    );
}

#[test]
fn info_path_outside_home_stays_absolute() {
    assert_eq!(
        display_path_with_home("/tmp/oven", "/home/u"),
        "/tmp/oven"
    );
}

#[test]
fn info_similar_prefix_is_not_treated_as_home() {
    assert_eq!(
        display_path_with_home("/home/user2/x", "/home/user"),
        "/home/user2/x"
    );
}

#[test]
fn queue_height_is_zero_when_empty() {
    let widget = QueueWidget::new();
    assert_eq!(widget.height(&q(&[])), 0);
}

#[test]
fn height_grows_with_messages() {
    let widget = QueueWidget::new();
    assert_eq!(widget.height(&q(&["a"])), 3);
    assert_eq!(widget.height(&q(&["a", "b", "c"])), 5);
}

#[test]
fn height_caps_at_max_visible_with_footer() {
    let widget = QueueWidget::new();
    assert_eq!(widget.height(&q(&["a", "b", "c", "d"])), 6);
}

#[test]
fn preview_numbers_rows() {
    let line = preview_line("hello", 2, 40);
    assert_eq!(line.spans[0].content, " 2 ");
}

#[test]
fn preview_uses_first_line_of_multiline_message() {
    let line = preview_line("first line\nsecond line", 1, 40);
    assert_eq!(line.spans[1].content, "first line…");
}

#[test]
fn preview_truncates_long_lines() {
    let line = preview_line(&"x".repeat(100), 1, 20);
    let preview = line.spans[1].content.as_str();
    assert!(preview.ends_with('…'));
    assert!(preview.width() <= 17);
}

#[test]
fn empty_list_has_zero_height() {
    let widget = TodosWidget::new(Vec::new());
    assert_eq!(widget.height(), 0);
}

#[test]
fn non_empty_renders_checklist_marks() {
    let widget = TodosWidget::new(sample());
    assert_eq!(widget.height(), 3);
    let row = render(&widget);
    assert!(row.contains("[ ]"), "pending mark missing: {row:?}");
    assert!(row.contains("[~]"), "in_progress mark missing: {row:?}");
    assert!(row.contains("[x]"), "completed mark missing: {row:?}");
    assert!(row.contains("pending task"), "{row:?}");
    assert!(row.contains("active task"), "{row:?}");
    assert!(row.contains("done task"), "{row:?}");
}

#[test]
fn todo_updated_empty_hides_widget() {
    let mut widget = TodosWidget::new(sample());
    assert_eq!(widget.height(), 3);
    on_event(&mut widget, &agent_event(AgentEvent::TodoUpdated {
        items: Vec::new(),
    }));
    assert_eq!(widget.height(), 0);
}

#[test]
fn history_cleared_hides_widget() {
    let mut widget = TodosWidget::new(sample());
    on_event(&mut widget, &agent_event(AgentEvent::HistoryCleared));
    assert_eq!(widget.height(), 0);
}

#[test]
fn resume_snapshot_shows_list_without_event() {
    let widget = TodosWidget::new(sample());
    assert_eq!(widget.height(), 3);
    let row = render(&widget);
    assert!(row.contains("[ ]"));
    assert!(row.contains("[~]"));
    assert!(row.contains("[x]"));
}

#[test]
fn height_caps_at_six() {
    let items = (0..10)
        .map(|i| item(&format!("t{i}"), &format!("task {i}"), TodoStatus::Pending))
        .collect();
    let widget = TodosWidget::new(items);
    assert_eq!(widget.height(), 6);
}

#[test]
fn cancelled_uses_dash_mark() {
    let widget = TodosWidget::new(vec![item("x", "dropped", TodoStatus::Cancelled)]);
    let row = render(&widget);
    assert!(row.contains("[-]"), "{row:?}");
    assert!(row.contains("dropped"), "{row:?}");
}
