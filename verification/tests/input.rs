use oven_tui::components::commands::{display_user_input, is_model_or_setup};
use oven_tui::components::component::{Action, KeyResult, State};
use oven_tui::components::composer::MAX_INPUT_ROWS;
use oven_tui::components::event::{AgentMode, AppEvent, ProviderConfig, StateChange};
use oven_tui::components::file_mention_popup::MentionQuery;
use oven_tui::components::input::{
    cursor_byte, fits_border, inside_border, prompt, split_prompt, InputView, Lookup, Overlay, BORDER_COLS,
    BORDER_ROWS, PROMPT_COLS,
};
use oven_tui::components::theme;
use oven_tui::components::theme::border_type;
use oven_tui::keys::{KeyCode, KeyEvent, KeyModifiers};
use oven_tui::style::Rect;

const ALT: KeyModifiers =
    KeyModifiers { shift: false, control: false, alt: true, logo: false, other: false };

fn commands() -> Vec<(String, String)> {
    vec![
        ("clear".to_string(), "Clear conversation history.".to_string()),
        ("exit".to_string(), "End the session.".to_string()),
        ("model".to_string(), "Switch model and reasoning effort.".to_string()),
        ("setup".to_string(), "Configure provider.".to_string()),
    ]
}

fn models() -> Vec<(String, String)> {
    vec![
        ("gpt-4o".to_string(), "OpenAI".to_string()),
        ("gpt-4o-mini".to_string(), "OpenAI".to_string()),
        ("deepseek-chat".to_string(), "DeepSeek".to_string()),
    ]
}

fn key(code: KeyCode) -> KeyEvent {
    KeyEvent::new(code, KeyModifiers::none())
}

fn view() -> InputView {
    let mut view = InputView::new(commands(), ProviderConfig::empty());
    view.on_event(&AppEvent::StateChanged(StateChange::ModelsChanged { models: models() }));
    view
}

fn mention_view() -> InputView {
    view()
}

fn busy() -> State {
    State { busy: true, ..State::new() }
}

/// Answers a search among the files of the tests' workspace.
fn answer(view: &mut InputView, ask: Option<MentionQuery>) {
    if let Some(ask) = ask {
        let found = ["README.md", "src/app.rs", "src/lib.rs"]
            .iter()
            .filter(|path| path.contains(ask.query.as_str()))
            .map(|path| path.to_string())
            .collect();
        view.set_matches(found, ask.rescan);
    }
}

/// Presses a key, with the searches that it asks for answered.
fn press(view: &mut InputView, key: KeyEvent, state: &State) -> KeyResult {
    let ask = view.refresh_popups();
    answer(view, ask);
    let (result, ask) = view.handle_key(&key, state);
    match ask {
        Some(Lookup::Mentions(ask)) => answer(view, Some(ask)),
        Some(Lookup::Vendor(name)) => view.vendor_resolved(name),
        None => {}
    }
    result
}

fn type_text(view: &mut InputView, text: &str) {
    for ch in text.chars() {
        press(view, key(KeyCode::Char(ch)), &State::new());
    }
}

fn open_picker(view: &mut InputView) {
    type_text(view, "/model");
    press(view, key(KeyCode::Enter), &State::new());
    assert!(view.model_picker().is_open());
}

#[test]
fn slash_command_opens_on_slash() {
    let mut view = view();
    type_text(&mut view, "/");
    assert!(view.slash_command().is_open());
    assert_eq!(view.overlay_height(), 4);
    assert_eq!(view.overlay(), Overlay::Slash);
}

#[test]
fn slash_command_filters_by_prefix() {
    let mut view = view();
    type_text(&mut view, "/c");
    assert_eq!(view.slash_command().matches(), vec![0]);
}

#[test]
fn slash_command_filter_is_case_insensitive() {
    let mut view = view();
    type_text(&mut view, "/E");
    assert_eq!(view.slash_command().matches(), vec![1]);
}

#[test]
fn slash_command_closes_when_slash_deleted() {
    let mut view = view();
    type_text(&mut view, "/c");
    press(&mut view, key(KeyCode::Backspace), &State::new());
    press(&mut view, key(KeyCode::Backspace), &State::new());
    assert!(!view.slash_command().is_open());
}

#[test]
fn no_match_yields_empty_list() {
    let mut view = view();
    type_text(&mut view, "/nope");
    assert!(view.slash_command().matches().is_empty());
}

#[test]
fn esc_closes_slash_command() {
    let mut view = view();
    type_text(&mut view, "/");
    let result = press(&mut view, key(KeyCode::Esc), &State::new());
    assert!(matches!(result, KeyResult::Handled));
    assert!(!view.slash_command().is_open());
}

#[test]
fn enter_exact_match_submits() {
    let mut view = view();
    type_text(&mut view, "/exit");
    let result = press(&mut view, key(KeyCode::Enter), &State::new());
    match result {
        KeyResult::Action(Action::Submit(text)) => assert_eq!(text, "/exit"),
        _ => panic!("expected submit"),
    }
}

#[test]
fn enter_with_args_preserves_them() {
    let mut view = view();
    type_text(&mut view, "/clear hi");
    let result = press(&mut view, key(KeyCode::Enter), &State::new());
    match result {
        KeyResult::Action(Action::Submit(text)) => assert_eq!(text, "/clear hi"),
        _ => panic!("expected submit"),
    }
}

#[test]
fn enter_prefix_fills_command() {
    let mut view = view();
    type_text(&mut view, "/ex");
    let result = press(&mut view, key(KeyCode::Enter), &State::new());
    assert!(matches!(result, KeyResult::Handled));
    assert_eq!(view.lines()[0], "/exit ");
    assert!(view.slash_command().is_open());
}

#[test]
fn tab_fills_selected() {
    let mut view = view();
    type_text(&mut view, "/c");
    let result = press(&mut view, key(KeyCode::Tab), &State::new());
    assert!(matches!(result, KeyResult::Handled));
    assert_eq!(view.lines()[0], "/clear ");
}

#[test]
fn arrows_change_selection() {
    let mut view = view();
    type_text(&mut view, "/");
    assert_eq!(view.slash_command().selected_command(), Some(0));
    press(&mut view, key(KeyCode::Down), &State::new());
    assert_eq!(view.slash_command().selected_command(), Some(1));
    press(&mut view, key(KeyCode::Down), &State::new());
    assert_eq!(view.slash_command().selected_command(), Some(2));
    press(&mut view, key(KeyCode::Down), &State::new());
    assert_eq!(view.slash_command().selected_command(), Some(3));
    press(&mut view, key(KeyCode::Down), &State::new());
    assert_eq!(view.slash_command().selected_command(), Some(0));
}

#[test]
fn enter_without_match_submits_typed_text() {
    let mut view = view();
    type_text(&mut view, "/nope");
    let result = press(&mut view, key(KeyCode::Enter), &State::new());
    match result {
        KeyResult::Action(Action::Submit(text)) => assert_eq!(text, "/nope"),
        _ => panic!("expected submit"),
    }
}

#[test]
fn busy_allows_typing() {
    let mut view = view();
    let state = busy();
    let result = press(&mut view, key(KeyCode::Char('x')), &state);
    assert!(matches!(result, KeyResult::Handled));
    assert_eq!(view.lines()[0], "x");
}

#[test]
fn busy_enter_queues_text() {
    let mut view = view();
    type_text(&mut view, "hello");
    let state = busy();
    let result = press(&mut view, key(KeyCode::Enter), &state);
    match result {
        KeyResult::Action(Action::Queue(text)) => assert_eq!(text, "hello"),
        _ => panic!("expected queue"),
    }
    assert!(view.lines()[0].is_empty());
}

#[test]
fn busy_enter_empty_does_not_queue() {
    let mut view = view();
    let state = busy();
    let result = press(&mut view, key(KeyCode::Enter), &state);
    assert!(matches!(result, KeyResult::Handled));
}

#[test]
fn busy_alt_enter_inserts_newline() {
    let mut view = view();
    type_text(&mut view, "a");
    let state = busy();
    let result = press(&mut view, KeyEvent::new(KeyCode::Enter, ALT), &state);
    assert!(matches!(result, KeyResult::Handled));
    assert_eq!(view.lines()[0], "a");
    assert_eq!(view.lines().len(), 2);
}

#[test]
fn busy_exact_slash_submits_immediately() {
    let mut view = view();
    type_text(&mut view, "/clear");
    let state = busy();
    let result = press(&mut view, key(KeyCode::Enter), &state);
    match result {
        KeyResult::Action(Action::Submit(text)) => assert_eq!(text, "/clear"),
        _ => panic!("expected submit"),
    }
}

#[test]
fn model_picker_opens_on_enter() {
    let mut view = view();
    type_text(&mut view, "/model");
    assert!(!view.model_picker().is_open());

    let result = press(&mut view, key(KeyCode::Enter), &State::new());
    match result {
        KeyResult::Action(Action::QuietSubmit(text)) => assert_eq!(text, "/model"),
        _ => panic!("expected QuietSubmit /model"),
    }
    assert!(view.model_picker().is_open());
    assert_eq!(view.lines()[0], "/model ");
    assert_eq!(view.model_picker().matches(), vec![0, 1, 2]);
}

#[test]
fn model_picker_seeds_filter_from_typed_fragment() {
    let mut view = view();
    type_text(&mut view, "/model g");
    press(&mut view, key(KeyCode::Enter), &State::new());
    assert!(view.model_picker().is_open());
    assert_eq!(view.model_picker().filter(), "g");
    assert_eq!(view.model_picker().matches(), vec![0, 1]);
}

#[test]
fn model_filter_typing_and_backspace() {
    let mut view = view();
    open_picker(&mut view);
    for ch in ['d', 'e', 'e', 'p'] {
        press(&mut view, key(KeyCode::Char(ch)), &State::new());
    }
    assert_eq!(view.model_picker().filter(), "deep");
    assert_eq!(view.model_picker().matches(), vec![2]);

    press(&mut view, key(KeyCode::Backspace), &State::new());
    assert_eq!(view.model_picker().filter(), "dee");
    assert_eq!(view.model_picker().matches(), vec![2]);

    for _ in 0..3 {
        press(&mut view, key(KeyCode::Backspace), &State::new());
    }
    assert_eq!(view.model_picker().filter(), "");
    assert_eq!(view.model_picker().matches(), vec![0, 1, 2]);
}

#[test]
fn model_enter_advances_then_effort_submits() {
    let mut view = view();
    type_text(&mut view, "/model deep");
    press(&mut view, key(KeyCode::Enter), &State::new());
    assert!(view.model_picker().is_open());
    assert_eq!(view.model_picker().matches(), vec![2]);

    // First Enter confirms the model and advances to the effort stage.
    press(&mut view, key(KeyCode::Enter), &State::new());
    // Second Enter picks the first effort (none).
    let result = press(&mut view, key(KeyCode::Enter), &State::new());
    match result {
        KeyResult::Action(Action::QuietSubmit(text)) => {
            assert_eq!(text, "/model deepseek-chat none");
        }
        _ => panic!("expected QuietSubmit"),
    }
    assert!(!view.model_picker().is_open());
}

#[test]
fn effort_arrows_select_low() {
    let mut view = view();
    type_text(&mut view, "/model deep");
    press(&mut view, key(KeyCode::Enter), &State::new());
    press(&mut view, key(KeyCode::Enter), &State::new());
    press(&mut view, key(KeyCode::Down), &State::new());
    let result = press(&mut view, key(KeyCode::Enter), &State::new());
    match result {
        KeyResult::Action(Action::QuietSubmit(text)) => {
            assert_eq!(text, "/model deepseek-chat low");
        }
        _ => panic!("expected QuietSubmit"),
    }
}

#[test]
fn effort_keep_current_submits_without_effort() {
    let mut view = view();
    open_picker(&mut view);
    press(&mut view, key(KeyCode::Enter), &State::new());
    for _ in 0..4 {
        press(&mut view, key(KeyCode::Down), &State::new());
    }
    let result = press(&mut view, key(KeyCode::Enter), &State::new());
    match result {
        KeyResult::Action(Action::QuietSubmit(text)) => assert_eq!(text, "/model gpt-4o"),
        _ => panic!("expected QuietSubmit"),
    }
}

#[test]
fn effort_esc_returns_to_model_stage() {
    let mut view = view();
    open_picker(&mut view);
    press(&mut view, key(KeyCode::Enter), &State::new());
    let result = press(&mut view, key(KeyCode::Esc), &State::new());
    assert!(matches!(result, KeyResult::Handled));
    assert!(view.model_picker().is_open());
    assert_eq!(view.model_picker().matches(), vec![0, 1, 2]);
}

#[test]
fn esc_closes_picker_and_restores_input() {
    let mut view = view();
    open_picker(&mut view);
    let result = press(&mut view, key(KeyCode::Esc), &State::new());
    assert!(matches!(result, KeyResult::Handled));
    assert!(!view.model_picker().is_open());
    assert_eq!(view.lines()[0], "/model");
}

#[test]
fn manual_fast_path_submits_without_picker() {
    let mut view = view();
    type_text(&mut view, "/model gpt-4o high");
    let result = press(&mut view, key(KeyCode::Enter), &State::new());
    match result {
        KeyResult::Action(Action::QuietSubmit(text)) => {
            assert_eq!(text, "/model gpt-4o high");
        }
        _ => panic!("expected QuietSubmit"),
    }
    assert!(!view.model_picker().is_open());
}

#[test]
fn update_models_refreshes_picker() {
    let mut view = InputView::new(commands(), ProviderConfig::empty());
    let ev = AppEvent::StateChanged(StateChange::ModelsChanged {
        models: vec![("kimi-k2".to_string(), "Moonshot".to_string())],
    });
    view.on_event(&ev);
    type_text(&mut view, "/model");
    press(&mut view, key(KeyCode::Enter), &State::new());
    assert_eq!(view.model_picker().matches(), vec![0]);
}

#[test]
fn set_text_replaces_single_line_and_places_cursor() {
    let mut view = view();
    type_text(&mut view, "draft");
    view.set_text("hello");
    assert_eq!(view.lines()[0], "hello");
    assert_eq!(view.cursor(), (0, 5));
}

#[test]
fn set_text_supports_multiline() {
    let mut view = view();
    view.set_text("line one\nline two");
    assert_eq!(view.lines(), &["line one", "line two"]);
    assert_eq!(view.cursor(), (1, 8));
}

#[test]
fn history_changed_does_not_touch_input() {
    let mut view = view();
    type_text(&mut view, "draft");
    let ev = AppEvent::StateChanged(StateChange::HistoryChanged);
    view.on_event(&ev);
    assert_eq!(view.lines()[0], "draft");
}

#[test]
fn setup_wizard_opens_on_enter() {
    let mut view = view();
    type_text(&mut view, "/setup");
    let result = press(&mut view, key(KeyCode::Enter), &State::new());
    match result {
        KeyResult::Action(Action::QuietSubmit(text)) => assert_eq!(text, "/setup"),
        _ => panic!("expected QuietSubmit /setup"),
    }
    assert!(view.setup().is_open());
    assert_eq!(view.lines()[0], "/setup ");
}

#[test]
fn open_setup_opens_wizard() {
    let mut view = view();
    view.open_setup();
    assert!(view.setup().is_open());
    assert_eq!(view.lines()[0], "/setup ");
}

#[test]
fn setup_with_args_submits_without_wizard() {
    let mut view = view();
    type_text(&mut view, "/setup name=deepseek");
    let result = press(&mut view, key(KeyCode::Enter), &State::new());
    match result {
        KeyResult::Action(Action::QuietSubmit(text)) => {
            assert_eq!(text, "/setup name=deepseek");
        }
        _ => panic!("expected QuietSubmit"),
    }
    assert!(!view.setup().is_open());
}

#[test]
fn setup_esc_closes_and_restores_input() {
    let mut view = view();
    type_text(&mut view, "/setup");
    press(&mut view, key(KeyCode::Enter), &State::new());
    let result = press(&mut view, key(KeyCode::Esc), &State::new());
    assert!(matches!(result, KeyResult::Handled));
    assert!(!view.setup().is_open());
    assert_eq!(view.lines()[0], "/setup");
}

#[test]
fn model_and_setup_are_silent_slash_commands() {
    assert!(is_model_or_setup("/model"));
    assert!(is_model_or_setup("/MODEL gpt-4o"));
    assert!(is_model_or_setup("/setup name=x"));
    assert!(!is_model_or_setup("/clear"));
    assert!(!is_model_or_setup("hello"));
}

#[test]
fn busy_model_submits_quietly_without_queue() {
    let mut view = view();
    type_text(&mut view, "/model gpt-4o high");
    let result = press(&mut view, key(KeyCode::Enter),
        &busy(),
    );
    match result {
        KeyResult::Action(Action::QuietSubmit(text)) => {
            assert_eq!(text, "/model gpt-4o high");
        }
        _ => panic!("expected QuietSubmit"),
    }
}

#[test]
fn display_user_input_redacts_api_key() {
    assert_eq!(
        display_user_input("/setup name=deepseek api_key=sk-secret"),
        "/setup name=deepseek api_key=***"
    );
    assert_eq!(display_user_input("hello"), "hello");
}

#[test]
fn height_includes_border_when_empty() {
    let mut view = view();
    assert_eq!(view.height(80), 1 + BORDER_ROWS);
}

#[test]
fn height_grows_when_line_wraps() {
    let mut view = view();
    type_text(&mut view, &"x".repeat(20));
    assert_eq!(view.height(12), 3 + BORDER_ROWS);
    assert_eq!(view.height(22), 2 + BORDER_ROWS);
    assert_eq!(view.height(24), 1 + BORDER_ROWS);
}

#[test]
fn height_counts_hard_newlines() {
    let mut view = view();
    view.set_text("a\nb\nc");
    assert_eq!(view.height(80), 3 + BORDER_ROWS);
}

#[test]
fn height_clamps_to_max_rows() {
    let mut view = view();
    view.set_text(
        &(0..20)
            .map(|i| format!("line{i}"))
            .collect::<Vec<_>>()
            .join("\n"),
    );
    assert_eq!(view.height(80), MAX_INPUT_ROWS + BORDER_ROWS);
}

#[test]
fn height_wraps_wide_chars() {
    let mut view = view();
    type_text(&mut view, &"你".repeat(10));
    assert_eq!(view.height(12), 3 + BORDER_ROWS);
    assert_eq!(view.height(22), 2 + BORDER_ROWS);
    assert_eq!(view.height(24), 1 + BORDER_ROWS);
}

#[test]
fn height_skips_border_when_too_narrow() {
    let mut view = view();
    assert_eq!(view.height(PROMPT_COLS + BORDER_COLS), 1);
}

#[test]
fn cursor_byte_uses_char_index_not_width() {
    for (text, at_end) in [
        ("hello", 5),
        ("你好 @", 4),
        ("こんにちは @", 7),
        ("¿dónde está @", 13),
    ] {
        assert_eq!(cursor_byte(text, (0, at_end)), text.len(), "{text}");
    }
    assert_eq!(cursor_byte("你好 @", (0, 3)), "你好 ".len());
    assert_eq!(cursor_byte("こんにちは @", (0, 6)), "こんにちは ".len());
    assert_eq!(cursor_byte("niño @", (0, 5)), "niño ".len());
}

#[test]
fn mention_opens_on_at() {
    let mut view = mention_view();
    type_text(&mut view, "@");
    assert!(view.file_mention().is_open());
    assert_eq!(view.overlay(), Overlay::Mention);
    assert_eq!(view.overlay_height(), 3);
}

#[test]
fn mention_opens_after_non_ascii_and_space() {
    for typed in ["你好 @", "こんにちは @", "¿dónde está @"] {
        let mut view = mention_view();
        type_text(&mut view, typed);
        assert!(view.file_mention().is_open(), "{typed}");
        assert_eq!(view.overlay(), Overlay::Mention, "{typed}");
        assert_eq!(
            view.cursor(),
            (0, typed.chars().count()),
            "{typed}"
        );
    }
}

#[test]
fn mention_fill_keeps_non_ascii_prefix() {
    for (typed, filled) in [
        ("看看 @li", "看看 @src/lib.rs "),
        ("見て @li", "見て @src/lib.rs "),
        ("añade @li", "añade @src/lib.rs "),
    ] {
        let mut view = mention_view();
        type_text(&mut view, typed);
        press(&mut view, key(KeyCode::Tab), &State::new());
        assert_eq!(view.lines()[0], filled, "{typed}");
        assert_eq!(
            view.cursor(),
            (0, filled.chars().count()),
            "{typed}"
        );
    }
}

#[test]
fn mention_filters_by_query() {
    let mut view = mention_view();
    type_text(&mut view, "@lib");
    assert_eq!(view.file_mention().matches(), &["src/lib.rs"]);
}

#[test]
fn mention_tab_fills_selected() {
    let mut view = mention_view();
    type_text(&mut view, "see @li");
    let result = press(&mut view, key(KeyCode::Tab), &State::new());
    assert!(matches!(result, KeyResult::Handled));
    assert_eq!(view.lines()[0], "see @src/lib.rs ");
    assert!(!view.file_mention().is_open());
}

#[test]
fn mention_fill_keeps_trailing_text() {
    let mut view = mention_view();
    type_text(&mut view, "see @li please");
    for _ in 0.." please".len() {
        press(&mut view, key(KeyCode::Left), &State::new());
    }
    assert!(view.file_mention().is_open());
    press(&mut view, key(KeyCode::Tab), &State::new());
    assert_eq!(view.lines()[0], "see @src/lib.rs please");
}

#[test]
fn mention_esc_closes() {
    let mut view = mention_view();
    type_text(&mut view, "@");
    let result = press(&mut view, key(KeyCode::Esc), &State::new());
    assert!(matches!(result, KeyResult::Handled));
    assert!(!view.file_mention().is_open());
    assert_eq!(view.lines()[0], "@");
}

#[test]
fn mention_closes_when_at_deleted() {
    let mut view = mention_view();
    type_text(&mut view, "@l");
    press(&mut view, key(KeyCode::Backspace), &State::new());
    press(&mut view, key(KeyCode::Backspace), &State::new());
    assert!(!view.file_mention().is_open());
}

#[test]
fn slash_takes_priority_over_mention() {
    let mut view = mention_view();
    type_text(&mut view, "/");
    assert_eq!(view.overlay(), Overlay::Slash);
    assert!(!view.file_mention().is_open());
}

#[test]
fn email_does_not_open_mention() {
    let mut view = mention_view();
    type_text(&mut view, "foo@bar");
    assert!(!view.file_mention().is_open());
    assert_eq!(view.overlay(), Overlay::Closed);
}

#[test]
fn mention_enter_prefix_fills() {
    let mut view = mention_view();
    type_text(&mut view, "@li");
    let result = press(&mut view, key(KeyCode::Enter), &State::new());
    assert!(matches!(result, KeyResult::Handled));
    assert_eq!(view.lines()[0], "@src/lib.rs ");
}

#[test]
fn mention_enter_exact_submits() {
    let mut view = mention_view();
    type_text(&mut view, "@src/lib.rs");
    let result = press(&mut view, key(KeyCode::Enter), &State::new());
    match result {
        KeyResult::Action(Action::Submit(text)) => assert_eq!(text, "@src/lib.rs"),
        _ => panic!("expected submit"),
    }
}

#[test]
fn mention_arrows_change_selection() {
    let mut view = mention_view();
    type_text(&mut view, "@");
    assert_eq!(view.file_mention().matches()[0], "README.md");
    press(&mut view, key(KeyCode::Down), &State::new());
    press(&mut view, key(KeyCode::Tab), &State::new());
    assert_eq!(view.lines()[0], "@src/app.rs ");
}

#[test]
fn draw_paints_rounded_border_around_prompt() {
    let view = view();
    let area = Rect::new(0, 0, 40, 3);
    assert!(fits_border(area));
    assert_eq!(inside_border(area), Rect::new(1, 1, 38, 1));
    let border = border_type();
    assert_eq!(border.top_left, '╭');
    assert_eq!(border.top_right, '╮');
    assert_eq!(border.bottom_left, '╰');
    assert_eq!(border.bottom_right, '╯');
    assert!(prompt(false).contains("›"));
    assert_eq!(view.border_style(&State::new()).fg, theme::border_idle().fg);
}

#[test]
fn draw_keeps_slash_completion_outside_the_box() {
    let mut view = view();
    type_text(&mut view, "/");
    assert_eq!(view.overlay(), Overlay::Slash);
    let inside = view.lines().join("\n");
    assert!(inside.contains("/"), "{inside}");
    assert!(
        !inside.contains("exit") && !inside.contains("End the session"),
        "slash popup must not paint inside the input box: {inside}"
    );
    let outside: Vec<String> = view.draw_overlay().iter().map(|line| line.text()).collect();
    assert!(outside.iter().any(|row| row.contains("exit") && row.contains("End the session")));
}

#[test]
fn draw_drops_border_when_height_is_one() {
    assert!(!fits_border(Rect::new(0, 0, 40, 1)));
    assert!(prompt(false).contains("›"));
}

#[test]
fn busy_does_not_change_empty_border() {
    let view = view();
    let busy = State {
        busy: true,
        frame: 0,
        ..State::new()
    };
    let buf = view.border_style(&busy);
    assert_eq!(buf.fg, theme::border_idle().fg);
}

#[test]
fn typed_text_keeps_active_border_while_busy() {
    let mut view = view();
    type_text(&mut view, "hello");
    let busy = busy();
    let buf = view.border_style(&busy);
    assert_eq!(buf.fg, theme::border_active().fg);
}

#[test]
fn plan_mode_uses_mode_border_color() {
    let view = view();
    let idle = view.border_style(&State::new());
    assert_eq!(idle.fg, theme::border_idle().fg);

    let plan = State {
        mode: AgentMode::Plan,
        ..State::new()
    };
    let buf = view.border_style(&plan);
    assert_eq!(buf.fg, theme::mode().fg);

    let busy_plan = State {
        busy: true,
        mode: AgentMode::Plan,
        ..State::new()
    };
    let buf = view.border_style(&busy_plan);
    assert_eq!(buf.fg, theme::mode().fg);
}

#[test]
fn filling_a_name_of_two_lines_makes_two_lines() {
    let names = vec![("two\nlines".to_string(), String::new())];
    let mut view = InputView::new(names, ProviderConfig::empty());
    let state = State::new();
    for c in ['/', 't'] {
        view.handle_key(&key(KeyCode::Char(c)), &state);
    }
    view.handle_key(&key(KeyCode::Tab), &state);
    assert_eq!(view.lines(), vec!["/two", "lines "]);
    assert_eq!(view.cursor(), (1, 6));
    let control = KeyModifiers { control: true, ..KeyModifiers::none() };
    for c in ['j', 'y'] {
        view.handle_key(&KeyEvent::new(KeyCode::Char(c), control), &state);
    }
    assert_eq!(view.lines(), vec!["/two", "lines "]);
}

#[test]
fn the_text_keeps_a_column_beside_the_prompt() {
    let widths = [(0, 0, 0), (1, 0, 1), (2, 1, 1), (3, 2, 1), (40, 2, 38)];
    for (width, mark, text) in widths {
        let bands = split_prompt(Rect::new(4, 5, width, 2));
        assert_eq!(bands.0, Rect::new(4, 5, mark, 2), "{width}");
        assert_eq!(bands.1, Rect::new(4 + mark, 5, text, 2), "{width}");
    }
}
