use oven_tui::components::component::State;
use oven_tui::components::event::{
    AgentEvent, AgentMode, AppEvent, ReasoningEffort, StateChange, Usage,
};
use oven_tui::components::sizing::{display_path_with_home, wrap_text};
use oven_tui::components::status::{
    usage_spans, StatusBar, StatusHint, REPLY_FLASH, REPLY_TTL,
};
use oven_tui::components::theme;
use oven_tui::components::theme::border_type;
use oven_tui::style::{Color, Line, Rect};

const SCREEN: Rect = Rect { x: 0, y: 0, width: 40, height: 6 };

fn bar() -> StatusBar {
    StatusBar::new("m".to_string(), "/tmp", None, Usage::zero())
}

fn usage_changed(usage: Usage) -> AppEvent {
    AppEvent::StateChanged(StateChange::UsageChanged { usage })
}

fn notify(text: &str) -> AppEvent {
    AppEvent::Notification { text: text.to_string() }
}

fn texts(lines: &[Line]) -> Vec<String> {
    lines.iter().map(|line| line.text()).collect()
}

/// Foreground of the span that holds a byte of the line's text.
fn fg_at(line: &Line, at: usize) -> Option<Color> {
    let mut before = 0;
    for span in &line.spans {
        if at < before + span.content.len() {
            return span.style.fg;
        }
        before += span.content.len();
    }
    None
}

#[test]
fn history_cleared_resets_usage() {
    let mut bar = StatusBar::new("m".to_string(), "/tmp", None, Usage::zero());
    let before = Usage {
        input_tokens: 1000,
        output_tokens: 2000,
        cache_read_tokens: 0,
        reasoning_tokens: 0,
    };
    bar.on_event(&usage_changed(before), 0);
    assert_eq!(bar.usage(), before);
    bar.on_event(&usage_changed(Usage::zero()), 0);
    assert_eq!(bar.usage(), Usage::zero());
}

#[test]
fn done_updates_token_usage() {
    let mut bar = StatusBar::new("m".to_string(), "/tmp", None, Usage::zero());
    let usage = Usage {
        input_tokens: 1234,
        output_tokens: 56,
        cache_read_tokens: 789,
        reasoning_tokens: 10,
    };
    bar.on_event(&AppEvent::Agent(AgentEvent::Completed {
        usage,
    }), 0);
    assert_eq!(bar.usage(), usage);
}

#[test]
fn completed_replaces_usage_with_last_turn() {
    let mut bar = StatusBar::new("m".to_string(), "/tmp", None, Usage::zero());
    bar.on_event(&AppEvent::Agent(AgentEvent::Completed {
        usage: Usage {
            input_tokens: 10,
            output_tokens: 5,
            cache_read_tokens: 0,
            reasoning_tokens: 0,
        },
    }), 0);
    bar.on_event(&AppEvent::Agent(AgentEvent::Completed {
        usage: Usage {
            input_tokens: 20,
            output_tokens: 8,
            cache_read_tokens: 0,
            reasoning_tokens: 0,
        },
    }), 0);
    assert_eq!(bar.usage().input_tokens, 20);
    assert_eq!(bar.usage().output_tokens, 8);
}

#[test]
fn rewound_syncs_token_usage() {
    let mut bar = StatusBar::new("m".to_string(), "/tmp", None, Usage::zero());
    let before = Usage {
        input_tokens: 1000,
        output_tokens: 2000,
        cache_read_tokens: 0,
        reasoning_tokens: 0,
    };
    bar.on_event(&usage_changed(before), 0);
    assert_eq!(bar.usage(), before);
    let usage = Usage {
        input_tokens: 500,
        output_tokens: 100,
        cache_read_tokens: 0,
        reasoning_tokens: 0,
    };
    bar.on_event(&usage_changed(usage), 0);
    assert_eq!(bar.usage(), usage);
}

#[test]
fn model_changed_updates_model_and_effort() {
    let mut bar = StatusBar::new("gpt-4o".to_string(), "/tmp", None, Usage::zero());
    bar.on_event(&AppEvent::StateChanged(StateChange::ModelChanged {
        model: "deepseek-chat".to_string(),
        reasoning_effort: Some(ReasoningEffort::High),
    }), 0);
    assert_eq!(bar.model(), "deepseek-chat");
    assert_eq!(bar.effort(), Some(ReasoningEffort::High));

    bar.on_event(&AppEvent::StateChanged(StateChange::ModelChanged {
        model: "gpt-4o".to_string(),
        reasoning_effort: None,
    }), 0);
    assert_eq!(bar.model(), "gpt-4o");
    assert_eq!(bar.effort(), None);
}

#[test]
fn with_effort_sets_initial_effort() {
    let bar = StatusBar::new("gpt-4o".to_string(), "/tmp", None, Usage::zero())
        .with_effort(Some(ReasoningEffort::Medium));
    assert_eq!(bar.effort(), Some(ReasoningEffort::Medium));
}

#[test]
fn initial_usage_seeds_total() {
    let usage = Usage {
        input_tokens: 4200,
        output_tokens: 1300,
        cache_read_tokens: 900,
        reasoning_tokens: 0,
    };
    let bar = StatusBar::new("m".to_string(), "/tmp", None, usage);
    assert_eq!(bar.usage(), usage);
}

#[test]
fn reply_event_sets_reply() {
    let mut bar = bar();
    bar.on_event(&notify("current model: gpt-4o"), 10);
    assert_eq!(bar.reply().as_deref(), Some("current model: gpt-4o"));
    assert!(bar.has_reply());
    assert!(!bar.expire_reply(10));
}

#[test]
fn first_notify_does_not_flash() {
    let mut bar = bar();
    bar.on_event(&notify("Copied!"), 10);
    assert!(!bar.is_flashing(10));
    assert!(bar.has_reply());
    let toast = bar.draw_reply_overlay(SCREEN, 10).expect("toast");
    assert_eq!(texts(&toast.lines), vec!["Copied!"]);
    assert!(toast.bordered);
    assert_eq!((toast.area.x, toast.area.y), (28, 2));
    assert_eq!(toast.area.x + toast.area.width - 1, 38);
    assert_eq!(border_type().top_left, '╭');
    assert_eq!(border_type().top_right, '╮');
    assert_eq!(toast.lines[0].spans[0].style.fg, Some(Color::Rgb(255, 140, 0)));
}

#[test]
fn new_notify_replaces_previous_notify() {
    let mut bar = bar();
    bar.on_event(&notify("Copied!"), 10);
    bar.on_event(&notify("Model changed"), 500);

    assert_eq!(bar.reply().as_deref(), Some("Model changed"));
    assert!(bar.is_flashing(500));
    let toast = bar.draw_reply_overlay(SCREEN, 501 + REPLY_FLASH).expect("toast");
    let text = texts(&toast.lines).concat();
    assert!(!text.contains("Copied!"));
    assert!(text.contains("Model changed"));
}

#[test]
fn repeat_notify_flashes_then_restores() {
    let mut bar = bar();
    bar.on_event(&notify("Copied!"), 10);
    bar.on_event(&notify("Copied!"), 10);
    assert!(bar.is_flashing(10));
    assert!(bar.has_reply());
    let text = match bar.draw_reply_overlay(SCREEN, 10) {
        Some(toast) => texts(&toast.lines).concat(),
        None => String::new(),
    };
    assert!(!text.contains("Copied!"));

    let later = 11 + REPLY_FLASH;
    assert!(!bar.is_flashing(later));
    let toast = bar.draw_reply_overlay(SCREEN, later).expect("toast");
    assert!(texts(&toast.lines).concat().contains("Copied!"));
    assert_eq!(toast.lines[0].spans[0].style.fg, Some(Color::Rgb(255, 140, 0)));
}

#[test]
fn reply_expires_once_ttl_elapses() {
    let mut bar = bar();
    bar.on_event(&notify("hi"), 10);
    assert!(!bar.expire_reply(10));
    assert!(!bar.expire_reply(9 + REPLY_TTL));
    assert_eq!(bar.reply().as_deref(), Some("hi"));

    assert!(bar.expire_reply(11 + REPLY_TTL));
    assert!(bar.reply().is_none());
    assert!(!bar.has_reply());
}

#[test]
fn history_cleared_and_rewound_drop_reply() {
    let mut bar = bar();
    bar.on_event(&notify("hi"), 10);
    bar.on_event(&AppEvent::StateChanged(StateChange::HistoryChanged), 11);
    assert!(bar.reply().is_none());

    bar.on_event(&notify("hi"), 12);
    bar.on_event(&usage_changed(Usage::zero()), 13);
    assert!(bar.reply().is_none());
}

#[test]
fn effort_follows_model_with_space_and_matching_color() {
    let bar = StatusBar::new("gpt-4o".to_string(), "/tmp", None, Usage::zero())
        .with_effort(Some(ReasoningEffort::High));
    let line = bar.draw_bar(80, &State::new(), StatusHint::Idle);
    let row = line.text();
    assert!(row.contains("gpt-4o high"), "status bar was {row:?}");
    assert!(!row.contains("effort"), "status bar was {row:?}");
    let model_at = row.find("gpt-4o").unwrap();
    let effort_at = row.find("high").unwrap();
    assert_eq!(effort_at, model_at + "gpt-4o ".len());
    assert_eq!(fg_at(&line, model_at), Some(Color::LightYellow));
    assert_eq!(fg_at(&line, effort_at), Some(Color::LightYellow));
}

#[test]
fn agent_mode_appears_on_the_status_bar() {
    let line = bar().draw_bar(80, &State::new(), StatusHint::Idle);
    let row = line.text();
    assert!(row.contains("agent"), "status bar was {row:?}");
    assert_eq!(fg_at(&line, row.find("agent").unwrap()), Some(Color::DarkGray));
}

#[test]
fn plan_mode_appears_on_the_status_bar() {
    let state = State { mode: AgentMode::Plan, ..State::new() };
    let line = bar().draw_bar(80, &state, StatusHint::Idle);
    let row = line.text();
    assert!(row.contains("plan"), "status bar was {row:?}");
    assert_eq!(fg_at(&line, row.find("plan").unwrap()), Some(Color::LightMagenta));
}

#[test]
fn reply_overlay_paints_orange_with_rounded_border() {
    let mut bar = bar();
    bar.on_event(&notify("current model: gpt-4o"), 10);
    let toast = bar.draw_reply_overlay(SCREEN, 10).expect("toast");
    let text = texts(&toast.lines).concat();

    assert!(text.contains("current model: gpt-4o"));
    assert!(toast.bordered);
    assert_eq!(border_type().top_left, '╭');
    assert_eq!(border_type().bottom_left, '╰');
    assert!(toast.lines.iter().flat_map(|line| line.spans.iter()).any(|span| {
        span.content.contains('c') && span.style.fg == Some(Color::Rgb(255, 140, 0))
    }));
}

#[test]
fn wrap_text_splits_on_width_and_newlines() {
    assert!(wrap_text("", 10).is_empty());
    assert_eq!(wrap_text("abcd", 2), vec!["ab", "cd"]);
    assert_eq!(wrap_text("a\nb", 10), vec!["a", "b"]);
}

#[test]
fn usage_hidden_while_default() {
    let gray = theme::dim();
    assert!(usage_spans(&Usage::zero(), gray).is_empty());
}

#[test]
fn usage_shown_once_recorded() {
    let gray = theme::dim();
    let usage = Usage {
        input_tokens: 1200,
        output_tokens: 30,
        cache_read_tokens: 0,
        reasoning_tokens: 0,
    };
    let spans = usage_spans(&usage, gray);
    assert_eq!(spans.len(), 2);
    assert!(spans[1].content.contains("1.2k in"));
}

#[test]
fn home_dir_itself_becomes_tilde() {
    assert_eq!(
        display_path_with_home("/home/u", "/home/u"),
        "~"
    );
}

#[test]
fn path_under_home_uses_tilde_prefix() {
    assert_eq!(
        display_path_with_home("/home/u/code/oven", "/home/u"),
        "~/code/oven"
    );
}

#[test]
fn path_outside_home_stays_absolute() {
    assert_eq!(
        display_path_with_home("/tmp/oven", "/home/u"),
        "/tmp/oven"
    );
}

#[test]
fn similar_prefix_is_not_treated_as_home() {
    assert_eq!(
        display_path_with_home("/home/user2/x", "/home/user"),
        "/home/user2/x"
    );
}
