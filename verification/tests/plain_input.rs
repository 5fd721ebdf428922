use oven_tui::components::commands::{display_user_input, is_model_or_setup};
use oven_tui::components::component::{Action, KeyResult};
use oven_tui::components::composer::MAX_INPUT_ROWS;
use oven_tui::components::event::{ProviderConfig, Usage};
use oven_tui::keys::{KeyCode, KeyEvent, KeyModifiers};
use oven_tui::ui::component::State;
use oven_tui::ui::event::AppEvent;
use oven_tui::ui::input::{InputView, Overlay};

const ALT: KeyModifiers =
    KeyModifiers { shift: false, control: false, alt: true, logo: false, other: false };

fn commands() -> Vec<(String, String)> {
    vec![
        ("clear".to_string(), "Clear conversation history.".to_string()),
        ("exit".to_string(), "End the session.".to_string()),
        ("model".to_string(), "Switch model and reasoning effort.".to_string()),
        ("setup".to_string(), "Configure provider.".to_string()),
    ]
}

fn models() -> Vec<(String, String)> {
    vec![
        ("gpt-4o".to_string(), "OpenAI".to_string()),
        ("gpt-4o-mini".to_string(), "OpenAI".to_string()),
        ("deepseek-chat".to_string(), "DeepSeek".to_string()),
    ]
}

fn key(code: KeyCode) -> KeyEvent {
    KeyEvent::new(code, KeyModifiers::none())
}

fn view() -> InputView {
    let mut view = InputView::new(commands(), ProviderConfig::empty());
    view.on_event(&AppEvent::ModelsUpdated { models: models() });
    view
}

fn busy() -> State {
    State { busy: true }
}

fn type_text(view: &mut InputView, text: &str) {
    for ch in text.chars() {
        view.handle_key(&key(KeyCode::Char(ch)), &State::new());
    }
}

fn open_picker(view: &mut InputView) {
    type_text(view, "/model");
    view.handle_key(&key(KeyCode::Enter), &State::new());
    assert!(view.model_picker().is_open());
}

#[test]
fn input_slash_command_opens_on_slash() {
    let mut view = view();
    type_text(&mut view, "/");
    assert!(view.slash_command().is_open());
    assert_eq!(view.overlay_height(), 4);
    assert_eq!(view.overlay(), Overlay::Slash);
}

#[test]
fn input_slash_command_filters_by_prefix() {
    let mut view = view();
    type_text(&mut view, "/c");
    assert_eq!(view.slash_command().matches(), vec![0]);
}

#[test]
fn input_slash_command_filter_is_case_insensitive() {
    let mut view = view();
    type_text(&mut view, "/E");
    assert_eq!(view.slash_command().matches(), vec![1]);
}

#[test]
fn input_slash_command_closes_when_slash_deleted() {
    let mut view = view();
    type_text(&mut view, "/c");
    view.handle_key(&key(KeyCode::Backspace), &State::new());
    view.handle_key(&key(KeyCode::Backspace), &State::new());
    assert!(!view.slash_command().is_open());
}

#[test]
fn input_no_match_yields_empty_list() {
    let mut view = view();
    type_text(&mut view, "/nope");
    assert!(view.slash_command().matches().is_empty());
}

#[test]
fn input_esc_closes_slash_command() {
    let mut view = view();
    type_text(&mut view, "/");
    let result = view.handle_key(&key(KeyCode::Esc), &State::new());
    assert!(matches!(result, KeyResult::Handled));
    assert!(!view.slash_command().is_open());
}

#[test]
fn input_enter_exact_match_submits() {
    let mut view = view();
    type_text(&mut view, "/exit");
    let result = view.handle_key(&key(KeyCode::Enter), &State::new());
    match result {
        KeyResult::Action(Action::Submit(text)) => assert_eq!(text, "/exit"),
        _ => panic!("expected submit"),
    }
}

#[test]
fn input_enter_with_args_preserves_them() {
    let mut view = view();
    type_text(&mut view, "/clear hi");
    let result = view.handle_key(&key(KeyCode::Enter), &State::new());
    match result {
        KeyResult::Action(Action::Submit(text)) => assert_eq!(text, "/clear hi"),
        _ => panic!("expected submit"),
    }
}

#[test]
fn input_enter_prefix_fills_command() {
    let mut view = view();
    type_text(&mut view, "/ex");
    let result = view.handle_key(&key(KeyCode::Enter), &State::new());
    assert!(matches!(result, KeyResult::Handled));
    assert_eq!(view.lines()[0], "/exit ");
    assert!(view.slash_command().is_open());
}

#[test]
fn input_tab_fills_selected() {
    let mut view = view();
    type_text(&mut view, "/c");
    let result = view.handle_key(&key(KeyCode::Tab), &State::new());
    assert!(matches!(result, KeyResult::Handled));
    assert_eq!(view.lines()[0], "/clear ");
}

#[test]
fn input_arrows_change_selection() {
    let mut view = view();
    type_text(&mut view, "/");
    assert_eq!(view.slash_command().selected_command(), Some(0));
    view.handle_key(&key(KeyCode::Down), &State::new());
    assert_eq!(view.slash_command().selected_command(), Some(1));
    view.handle_key(&key(KeyCode::Down), &State::new());
    assert_eq!(view.slash_command().selected_command(), Some(2));
    view.handle_key(&key(KeyCode::Down), &State::new());
    assert_eq!(view.slash_command().selected_command(), Some(3));
    view.handle_key(&key(KeyCode::Down), &State::new());
    assert_eq!(view.slash_command().selected_command(), Some(0));
}

#[test]
fn input_enter_without_match_submits_typed_text() {
    let mut view = view();
    type_text(&mut view, "/nope");
    let result = view.handle_key(&key(KeyCode::Enter), &State::new());
    match result {
        KeyResult::Action(Action::Submit(text)) => assert_eq!(text, "/nope"),
        _ => panic!("expected submit"),
    }
}

#[test]
fn input_busy_allows_typing() {
    let mut view = view();
    let state = busy();
    let result = view.handle_key(&key(KeyCode::Char('x')), &state);
    assert!(matches!(result, KeyResult::Handled));
    assert_eq!(view.lines()[0], "x");
}

#[test]
fn input_busy_enter_queues_text() {
    let mut view = view();
    type_text(&mut view, "hello");
    let state = busy();
    let result = view.handle_key(&key(KeyCode::Enter), &state);
    match result {
        KeyResult::Action(Action::Queue(text)) => assert_eq!(text, "hello"),
        _ => panic!("expected queue"),
    }
    assert!(view.lines()[0].is_empty());
}

#[test]
fn input_busy_enter_empty_does_not_queue() {
    let mut view = view();
    let state = busy();
    let result = view.handle_key(&key(KeyCode::Enter), &state);
    assert!(matches!(result, KeyResult::Handled));
}

#[test]
fn input_busy_alt_enter_inserts_newline() {
    let mut view = view();
    type_text(&mut view, "a");
    let state = busy();
    let result = view.handle_key(&KeyEvent::new(KeyCode::Enter, ALT), &state);
    assert!(matches!(result, KeyResult::Handled));
    assert_eq!(view.lines()[0], "a");
    assert_eq!(view.lines().len(), 2);
}

#[test]
fn input_busy_exact_slash_submits_immediately() {
    let mut view = view();
    type_text(&mut view, "/clear");
    let state = busy();
    let result = view.handle_key(&key(KeyCode::Enter), &state);
    match result {
        KeyResult::Action(Action::Submit(text)) => assert_eq!(text, "/clear"),
        _ => panic!("expected submit"),
    }
}

#[test]
fn input_model_picker_opens_on_enter() {
    let mut view = view();
    type_text(&mut view, "/model");
    assert!(!view.model_picker().is_open());

    let result = view.handle_key(&key(KeyCode::Enter), &State::new());
    match result {
        KeyResult::Action(Action::QuietSubmit(text)) => assert_eq!(text, "/model"),
        _ => panic!("expected QuietSubmit /model"),
    }
    assert!(view.model_picker().is_open());
    assert_eq!(view.lines()[0], "/model ");
    assert_eq!(view.model_picker().matches(), vec![0, 1, 2]);
}

#[test]
fn input_model_picker_seeds_filter_from_typed_fragment() {
    let mut view = view();
    type_text(&mut view, "/model g");
    view.handle_key(&key(KeyCode::Enter), &State::new());
    assert!(view.model_picker().is_open());
    assert_eq!(view.model_picker().filter(), "g");
    assert_eq!(view.model_picker().matches(), vec![0, 1]);
}

#[test]
fn input_model_filter_typing_and_backspace() {
    let mut view = view();
    open_picker(&mut view);
    for ch in ['d', 'e', 'e', 'p'] {
        view.handle_key(&key(KeyCode::Char(ch)), &State::new());
    }
    assert_eq!(view.model_picker().filter(), "deep");
    assert_eq!(view.model_picker().matches(), vec![2]);

    view.handle_key(&key(KeyCode::Backspace), &State::new());
    assert_eq!(view.model_picker().filter(), "dee");
    assert_eq!(view.model_picker().matches(), vec![2]);

    for _ in 0..3 {
        view.handle_key(&key(KeyCode::Backspace), &State::new());
    }
    assert_eq!(view.model_picker().filter(), "");
    assert_eq!(view.model_picker().matches(), vec![0, 1, 2]);
}

#[test]
fn input_model_enter_advances_then_effort_submits() {
    let mut view = view();
    type_text(&mut view, "/model deep");
    view.handle_key(&key(KeyCode::Enter), &State::new());
    assert!(view.model_picker().is_open());
    assert_eq!(view.model_picker().matches(), vec![2]);

    // First Enter confirms the model and advances to the effort stage.
    view.handle_key(&key(KeyCode::Enter), &State::new());
    // Second Enter picks the first effort (none).
    let result = view.handle_key(&key(KeyCode::Enter), &State::new());
    match result {
        KeyResult::Action(Action::QuietSubmit(text)) => {
            assert_eq!(text, "/model deepseek-chat none");
        }
        _ => panic!("expected QuietSubmit"),
    }
    assert!(!view.model_picker().is_open());
}

#[test]
fn input_effort_arrows_select_low() {
    let mut view = view();
    type_text(&mut view, "/model deep");
    view.handle_key(&key(KeyCode::Enter), &State::new());
    view.handle_key(&key(KeyCode::Enter), &State::new());
    view.handle_key(&key(KeyCode::Down), &State::new());
    let result = view.handle_key(&key(KeyCode::Enter), &State::new());
    match result {
        KeyResult::Action(Action::QuietSubmit(text)) => {
            assert_eq!(text, "/model deepseek-chat low");
        }
        _ => panic!("expected QuietSubmit"),
    }
}

#[test]
fn input_effort_keep_current_submits_without_effort() {
    let mut view = view();
    open_picker(&mut view);
    view.handle_key(&key(KeyCode::Enter), &State::new());
    for _ in 0..4 {
        view.handle_key(&key(KeyCode::Down), &State::new());
    }
    let result = view.handle_key(&key(KeyCode::Enter), &State::new());
    match result {
        KeyResult::Action(Action::QuietSubmit(text)) => assert_eq!(text, "/model gpt-4o"),
        _ => panic!("expected QuietSubmit"),
    }
}

#[test]
fn input_effort_esc_returns_to_model_stage() {
    let mut view = view();
    open_picker(&mut view);
    view.handle_key(&key(KeyCode::Enter), &State::new());
    let result = view.handle_key(&key(KeyCode::Esc), &State::new());
    assert!(matches!(result, KeyResult::Handled));
    assert!(view.model_picker().is_open());
    assert_eq!(view.model_picker().matches(), vec![0, 1, 2]);
}

#[test]
fn input_esc_closes_picker_and_restores_input() {
    let mut view = view();
    open_picker(&mut view);
    let result = view.handle_key(&key(KeyCode::Esc), &State::new());
    assert!(matches!(result, KeyResult::Handled));
    assert!(!view.model_picker().is_open());
    assert_eq!(view.lines()[0], "/model");
}

#[test]
fn input_manual_fast_path_submits_without_picker() {
    let mut view = view();
    type_text(&mut view, "/model gpt-4o high");
    let result = view.handle_key(&key(KeyCode::Enter), &State::new());
    match result {
        KeyResult::Action(Action::QuietSubmit(text)) => {
            assert_eq!(text, "/model gpt-4o high");
        }
        _ => panic!("expected QuietSubmit"),
    }
    assert!(!view.model_picker().is_open());
}

#[test]
fn input_update_models_refreshes_picker() {
    let mut view = InputView::new(commands(), ProviderConfig::empty());
    let ev = AppEvent::ModelsUpdated {
        models: vec![("kimi-k2".to_string(), "Moonshot".to_string())],
    };
    view.on_event(&ev);
    type_text(&mut view, "/model");
    view.handle_key(&key(KeyCode::Enter), &State::new());
    assert_eq!(view.model_picker().matches(), vec![0]);
}

#[test]
fn input_set_text_replaces_single_line_and_places_cursor() {
    let mut view = view();
    type_text(&mut view, "draft");
    view.set_text("hello");
    assert_eq!(view.lines()[0], "hello");
    assert_eq!(view.cursor(), (0, 5));
}

#[test]
fn input_set_text_supports_multiline() {
    let mut view = view();
    view.set_text("line one\nline two");
    assert_eq!(view.lines(), &["line one", "line two"]);
    assert_eq!(view.cursor(), (1, 8));
}

#[test]
fn rewound_event_restores_input_text() {
    let mut view = view();
    type_text(&mut view, "draft");
    let ev = AppEvent::Rewound {
        text: Some("restored".to_string()),
        messages: Vec::new(),
        usage: Usage::zero(),
    };
    view.on_event(&ev);
    assert_eq!(view.lines()[0], "restored");
}

#[test]
fn input_setup_wizard_opens_on_enter() {
    let mut view = view();
    type_text(&mut view, "/setup");
    let result = view.handle_key(&key(KeyCode::Enter), &State::new());
    match result {
        KeyResult::Action(Action::QuietSubmit(text)) => assert_eq!(text, "/setup"),
        _ => panic!("expected QuietSubmit /setup"),
    }
    assert!(view.setup().is_open());
    assert_eq!(view.lines()[0], "/setup ");
}

#[test]
fn input_open_setup_opens_wizard() {
    let mut view = view();
    view.open_setup();
    assert!(view.setup().is_open());
    assert_eq!(view.lines()[0], "/setup ");
}

#[test]
fn input_setup_with_args_submits_without_wizard() {
    let mut view = view();
    type_text(&mut view, "/setup kind=completions");
    let result = view.handle_key(&key(KeyCode::Enter), &State::new());
    match result {
        KeyResult::Action(Action::QuietSubmit(text)) => {
            assert_eq!(text, "/setup kind=completions");
        }
        _ => panic!("expected QuietSubmit"),
    }
    assert!(!view.setup().is_open());
}

#[test]
fn input_setup_esc_closes_and_restores_input() {
    let mut view = view();
    type_text(&mut view, "/setup");
    view.handle_key(&key(KeyCode::Enter), &State::new());
    let result = view.handle_key(&key(KeyCode::Esc), &State::new());
    assert!(matches!(result, KeyResult::Handled));
    assert!(!view.setup().is_open());
    assert_eq!(view.lines()[0], "/setup");
}

#[test]
fn input_model_and_setup_are_silent_slash_commands() {
    assert!(is_model_or_setup("/model"));
    assert!(is_model_or_setup("/MODEL gpt-4o"));
    assert!(is_model_or_setup("/setup name=x"));
    assert!(!is_model_or_setup("/clear"));
    assert!(!is_model_or_setup("hello"));
}

#[test]
fn input_busy_model_submits_quietly_without_queue() {
    let mut view = view();
    type_text(&mut view, "/model gpt-4o high");
    let result = view.handle_key(&key(KeyCode::Enter),
        &busy(),
    );
    match result {
        KeyResult::Action(Action::QuietSubmit(text)) => {
            assert_eq!(text, "/model gpt-4o high");
        }
        _ => panic!("expected QuietSubmit"),
    }
}

#[test]
fn input_display_user_input_redacts_api_key() {
    assert_eq!(
        display_user_input("/setup name=deepseek api_key=sk-secret"),
        "/setup name=deepseek api_key=***"
    );
    assert_eq!(display_user_input("hello"), "hello");
}

#[test]
fn height_is_one_when_empty() {
    let mut view = view();
    assert_eq!(view.height(80), 1);
}

#[test]
fn input_height_grows_when_line_wraps() {
    let mut view = view();
    type_text(&mut view, &"x".repeat(20));
    assert_eq!(view.height(12), 2);
    assert_eq!(view.height(22), 1);
}

#[test]
fn input_height_counts_hard_newlines() {
    let mut view = view();
    view.set_text("a\nb\nc");
    assert_eq!(view.height(80), 3);
}

#[test]
fn input_height_clamps_to_max_rows() {
    let mut view = view();
    view.set_text(
        &(0..20)
            .map(|i| format!("line{i}"))
            .collect::<Vec<_>>()
            .join("\n"),
    );
    assert_eq!(view.height(80), MAX_INPUT_ROWS);
}

#[test]
fn input_height_wraps_wide_chars() {
    let mut view = view();
    type_text(&mut view, &"你".repeat(10));
    assert_eq!(view.height(12), 2);
    assert_eq!(view.height(22), 1);
}
