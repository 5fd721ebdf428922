use oven_tui::cli::{Cli, Run, SessionChoice};
use oven_tui::components::choice_popup::{ChoicePopup, ChoicePopupAction};
use oven_tui::components::component::KeyResult;
use oven_tui::components::composer::Composer;
use oven_tui::components::event::{
    AgentEvent, AppEvent, Protocol, ProviderConfig, ReasoningEffort, TodoItem, TodoStatus, ToolView,
    Usage,
};
use oven_tui::components::list::{
    bounded_rows, cycle_selected, plain_choice_lines, reversed_choice_lines, MAX_LIST_ROWS,
};
use oven_tui::components::model_picker::{effort, ModelPicker, ModelPickerAction, EFFORT_COUNT};
use oven_tui::components::queue::{first_line_of, QueueWidget};
use oven_tui::components::setup_wizard::{compose, nonempty, Draft, SetupWizard, Stage};
use oven_tui::components::shell;
use oven_tui::components::slash_command_popup::{SlashCommandPopup, SlashCommandPopupAction};
use oven_tui::components::status::{fit_line, spin_char, StatusBar, StatusHint, REPLY_TTL};
use oven_tui::components::theme;
use oven_tui::components::todos::TodosWidget;
use oven_tui::components::transcript::collapsible::{Collapsible, Section};
use oven_tui::components::transcript::kinds::LineKind;
use oven_tui::components::transcript::selection::{osc52_sequence, SelPos};
use oven_tui::components::transcript::widget::Transcript;
use oven_tui::components::transcript::wrap::{
    chunk_text, format_duration, format_elapsed, split_at_width, trim_message,
    wrap_collapsible_into, wrap_row_into,
};
use oven_tui::keys::{KeyCode, KeyEvent, KeyEventKind, KeyModifiers};
use oven_tui::style::{Color, Line, Rect, Span, Style};
use oven_tui::table::Table;
use unicode_width::UnicodeWidthStr;

fn key(code: KeyCode) -> KeyEvent {
    KeyEvent::new(code, KeyModifiers::none())
}

fn pairs(items: &[(&str, &str)]) -> Vec<(String, String)> {
    items.iter().map(|(a, b)| (a.to_string(), b.to_string())).collect()
}

fn texts(lines: &[Line]) -> Vec<String> {
    lines.iter().map(|line| line.text()).collect()
}

fn agent(event: AgentEvent) -> AppEvent {
    AppEvent::Agent(event)
}

#[test]
fn moving_up_undoes_moving_down() {
    for n in 1..5 {
        for start in 0..n {
            let mut at = start;
            cycle_selected(&mut at, n, false);
            cycle_selected(&mut at, n, true);
            assert_eq!(at, start);
        }
    }
    assert_eq!(bounded_rows(3), 3);
    assert_eq!(bounded_rows(40), MAX_LIST_ROWS as u16);
}

#[test]
fn list_rows_mark_the_selection_in_their_own_way() {
    let items = pairs(&[("exit", "leave"), ("clear", "wipe")]);
    let plain = plain_choice_lines(&items, 0);
    assert_eq!(plain.len(), 2);
    assert!(plain[0].text().contains("exit") && plain[0].text().contains("leave"));
    let reversed = reversed_choice_lines(&items, 1);
    assert!(reversed[1].spans.iter().any(|span| span.style.reversed));
    assert!(reversed[0].spans.iter().all(|span| !span.style.reversed));
}

#[test]
fn approval_keys_choose_a_row() {
    let ask = || ChoicePopup::approval("bash", "run ls");
    assert_eq!(ask().height(), 4);
    let rows = texts(&ask().lines()).join("\n");
    assert!(rows.contains("bash") && rows.contains("run ls"), "{rows}");
    assert_eq!(ask().handle_key(&key(KeyCode::Char('y'))), ChoicePopupAction::Confirm(0));
    assert_eq!(ask().handle_key(&key(KeyCode::Char('n'))), ChoicePopupAction::Confirm(1));
    assert_eq!(ask().handle_key(&key(KeyCode::Char('q'))), ChoicePopupAction::Handled);
    let limit = texts(&ChoicePopup::loop_limit(7).lines()).join("\n");
    assert!(limit.contains('7'), "{limit}");
}

#[test]
fn picker_finds_the_model_again() {
    let models = pairs(&[("a", "x"), ("b", "x"), ("c", "x")]);
    let mut picker = ModelPicker::new(models);
    picker.open("");
    picker.handle_key(&key(KeyCode::Down));
    assert!(matches!(picker.handle_key(&key(KeyCode::Enter)), ModelPickerAction::Handled));
    assert!(matches!(picker.handle_key(&key(KeyCode::Esc)), ModelPickerAction::Handled));
    picker.handle_key(&key(KeyCode::Enter));
    for _ in 0..EFFORT_COUNT - 1 {
        picker.handle_key(&key(KeyCode::Down));
    }
    match picker.handle_key(&key(KeyCode::Enter)) {
        ModelPickerAction::Submit(line) => assert_eq!(line, "/model b"),
        other => panic!("expected Submit, got {other:?}"),
    }
    assert!(!picker.is_open());
    assert_eq!(effort(0).0, "none");
    assert_eq!(effort(3).0, ReasoningEffort::High.name());
}

#[test]
fn going_back_finds_the_filtered_model() {
    let mut picker = ModelPicker::new(pairs(&[("gpt-4o", "x"), ("kimi", "y"), ("kimi-2", "z")]));
    picker.open("KI");
    assert_eq!(picker.filter(), "ki");
    picker.handle_key(&key(KeyCode::Down));
    picker.handle_key(&key(KeyCode::Enter));
    for code in [KeyCode::Down, KeyCode::Up, KeyCode::Up] {
        picker.handle_key(&key(code));
    }
    assert!(matches!(picker.handle_key(&key(KeyCode::Esc)), ModelPickerAction::Handled));
    assert!(picker.is_open());
    assert_eq!(picker.filter(), "");
    assert_eq!(picker.matches(), vec![0, 1, 2]);
    picker.handle_key(&key(KeyCode::Enter));
    picker.handle_key(&key(KeyCode::Up));
    match picker.handle_key(&key(KeyCode::Enter)) {
        ModelPickerAction::Submit(line) => assert_eq!(line, "/model kimi-2"),
        other => panic!("expected Submit, got {other:?}"),
    }
}

#[test]
fn pasting_into_the_picker_extends_its_filter() {
    let mut picker = ModelPicker::new(pairs(&[("gpt-4o", "x"), ("kimi", "y")]));
    picker.open("");
    picker.paste("ki");
    assert_eq!(picker.filter(), "ki");
    assert_eq!(picker.matches(), vec![1]);
    assert!(matches!(picker.handle_key(&key(KeyCode::Esc)), ModelPickerAction::Close));
}

#[test]
fn slash_popup_fills_and_submits() {
    let mut popup = SlashCommandPopup::new(pairs(&[("clear", "wipe"), ("exit", "leave")]));
    popup.refresh("/e");
    assert!(popup.is_open());
    assert_eq!(popup.token(), "e");
    assert_eq!(popup.height(), 1);
    assert_eq!(popup.bordered_height(), 3);
    assert_eq!(texts(&popup.lines()).len(), 1);
    match popup.handle_key(&key(KeyCode::Tab)) {
        Some(SlashCommandPopupAction::Fill(t)) => assert_eq!(t, "/exit "),
        other => panic!("expected Fill, got {other:?}"),
    }
    popup.refresh("/exit");
    match popup.handle_key(&key(KeyCode::Enter)) {
        Some(SlashCommandPopupAction::Submit(t)) => assert_eq!(t, "/exit"),
        other => panic!("expected Submit, got {other:?}"),
    }
    popup.refresh("exit");
    assert!(!popup.is_open());
}

#[test]
fn finished_wizard_keeps_no_key() {
    let mut w = SetupWizard::new(ProviderConfig::empty());
    w.open();
    w.handle_key(&key(KeyCode::Enter));
    assert_eq!(w.stage(), Stage::ApiKey);
    w.paste("sk-1");
    assert_eq!(w.buffer(), "sk-1");
    assert_eq!(w.prompt_value().as_deref(), Some("****"));
    w.handle_key(&key(KeyCode::Enter));
    assert!(!w.is_open());
    assert_eq!(w.buffer(), "");
    assert_eq!(w.stage(), Stage::Name);
}

#[test]
fn setup_lines_name_what_was_chosen() {
    let mut draft = Draft::empty();
    assert_eq!(compose(&draft), None);
    draft.protocol = Some(Protocol::Responses);
    assert_eq!(compose(&draft).as_deref(), Some("/setup protocol=responses"));
    draft.name = Some("x".to_string());
    draft.api_key = Some("k".to_string());
    assert_eq!(compose(&draft).as_deref(), Some("/setup name=x protocol=responses api_key=k"));
    assert_eq!(nonempty(""), None);
    assert_eq!(nonempty("a"), Some("a".to_string()));
}

#[test]
fn composer_keeps_its_cursor_in_the_text() {
    let mut composer = Composer::new();
    composer.insert("ab你\nde");
    assert_eq!(composer.lines(), vec!["ab你", "de"]);
    assert_eq!(composer.cursor(), (1, 2));
    assert_eq!(composer.text(), "ab你\nde");
    composer.press(&key(KeyCode::Up));
    assert_eq!(composer.cursor(), (0, 2));
    composer.press(&key(KeyCode::Backspace));
    assert_eq!(composer.text(), "a你\nde");
    composer.break_line();
    assert_eq!(composer.lines(), vec!["a", "你", "de"]);
    composer.place(vec!["xyz".to_string()], 0, 1);
    assert_eq!(composer.cursor(), (0, 1));
    composer.press(&key(KeyCode::Delete));
    assert_eq!(composer.text(), "xz");
    assert_eq!(composer.height(80), 1);
}

#[test]
fn composer_fills_up_to_the_next_tab_stop() {
    let mut composer = Composer::new();
    composer.insert("你a");
    composer.press(&key(KeyCode::Tab));
    assert_eq!(composer.text(), "你a ");
    composer.press(&key(KeyCode::Tab));
    assert_eq!(composer.text(), "你a     ");
    composer.press(&key(KeyCode::BackTab));
    assert_eq!(composer.text(), "你a     ");
    let control = KeyModifiers { control: true, ..KeyModifiers::none() };
    composer.press(&KeyEvent::new(KeyCode::Char('h'), control));
    assert_eq!(composer.text(), "你a    ");
    composer.press(&KeyEvent::new(KeyCode::Char('m'), control));
    assert_eq!(composer.lines(), vec!["你a    ", ""]);
    composer.press(&KeyEvent {
        kind: KeyEventKind::Release,
        ..key(KeyCode::Char('x'))
    });
    composer.press(&key(KeyCode::Esc));
    assert_eq!(composer.text(), "你a    \n");
}

#[test]
fn cutting_loses_nothing_and_fits() {
    for (s, max) in [("hello", 2), ("你好a", 3), ("你", 1), ("", 4)] {
        let (head, tail) = split_at_width(s, max);
        assert_eq!(format!("{head}{tail}"), s);
        assert!(head.width() <= max || head.chars().count() == 1);
        assert_eq!(chunk_text(s, max.max(1)).concat(), s);
    }
    assert_eq!(chunk_text("abcdefg", 3), vec!["abc", "def", "g"]);
    assert_eq!(chunk_text("你好a", 3), vec!["你", "好a"]);
}

#[test]
fn durations_are_written_by_size() {
    assert_eq!(format_duration(0), "0s");
    assert_eq!(format_duration(1_049), "1s");
    assert_eq!(format_duration(59_950), "59.9s");
    assert_eq!(format_duration(60_000), "1m 0s");
    assert_eq!(format_duration(125_999), "2m 5s");
    assert_eq!(format_elapsed(1_500), format!("Worked for {}", format_duration(1_500)));
    assert_eq!(trim_message("\r\n a \n\n"), " a ");
}

#[test]
fn live_window_keeps_the_newest_rows() {
    let sections = (0..9).map(|i| Section::Text(format!("row {i}"))).collect();
    let body = Collapsible::from_sections(sections);
    let mut out: Vec<Line> = Vec::new();
    let headers =
        wrap_collapsible_into(&mut out, LineKind::Thinking, "Thinking...", &body, 40, Some(3));
    assert_eq!(headers.len(), 1);
    let rows = texts(&out);
    assert!(rows[0].contains("Thinking..."));
    assert!(rows.len() <= 1 + 3, "{rows:?}");
    assert!(rows.last().unwrap().contains("row 8"), "{rows:?}");
}

#[test]
fn user_rows_are_framed() {
    let mut out: Vec<Line> = Vec::new();
    wrap_row_into(&mut out, LineKind::User, "hi", 20);
    let rows = texts(&out);
    assert!(rows.iter().any(|row| row.contains("hi")), "{rows:?}");
    assert!(rows.iter().all(|row| row.width() <= 20), "{rows:?}");
}

#[test]
fn new_content_leaves_the_reading_position() {
    let area = Rect::new(0, 0, 40, 4);
    let mut t = Transcript::new();
    t.lay_out(area);
    for i in 0..12 {
        t.push_row(LineKind::Text, &format!("line {i}"));
    }
    t.scroll_up(3);
    let top = t.top;
    assert!(top.is_some());
    t.on_event(&agent(AgentEvent::TextDelta { text: "more".to_string() }));
    t.on_event(&agent(AgentEvent::ToolStarted {
        call_id: 1,
        view: ToolView { summary: "Ran ls".to_string(), detail: None, collapse: true },
    }));
    t.on_event(&AppEvent::Error { message: "boom".to_string() });
    assert_eq!(t.top, top);
    assert!(t.screen_lines(0, &vec![]).len() <= 4);
    t.push_user("mine");
    assert!(t.top.is_none());
}

#[test]
fn positions_are_ordered_by_line_then_column() {
    let at = |line, col| SelPos { line, col };
    assert!(at(0, 9).le(at(1, 0)));
    assert!(at(1, 2).le(at(1, 2)));
    assert!(!at(1, 3).le(at(1, 2)));
}

#[test]
fn clipboard_sequence_carries_base64() {
    assert_eq!(osc52_sequence("hi"), "\x1b]52;c;aGk=\x07");
    assert_eq!(osc52_sequence("你"), "\x1b]52;c;5L2g\x07");
    assert_eq!(osc52_sequence(""), "\x1b]52;c;\x07");
}

#[test]
fn folds_opened_by_hand_stay_open() {
    let mut fold = Collapsible::new("body".to_string());
    fold.toggle();
    fold.toggle();
    assert!(fold.is_expanded());
    assert!(!fold.collapse());
    assert!(fold.is_expanded());

    let mut nested = Collapsible::from_sections(vec![Section::Item {
        kind: LineKind::Diff,
        title: "Edit a".to_string(),
        detail: Collapsible::new("+ x".to_string()),
    }]);
    assert!(nested.toggle_at(&vec![0], 0));
    assert!(!nested.item_mut(0).expect("item").is_expanded());
    assert!(nested.is_expanded());
    assert!(!nested.toggle_at(&vec![3], 0));
    nested.replace_sections(vec![Section::Text("t".to_string())]);
    assert_eq!(nested.body(), "t");
}

#[test]
fn replies_stay_for_three_seconds_inside_the_screen() {
    let mut bar = StatusBar::new("m".to_string(), "/tmp", None, Usage::zero());
    bar.on_event(&AppEvent::Notification { text: "x".repeat(300) }, 5);
    assert!(!bar.expire_reply(5 + REPLY_TTL - 1));
    for (w, h) in [(80, 24), (10, 4), (3, 3)] {
        let area = Rect::new(2, 1, w, h);
        if let Some(toast) = bar.draw_reply_overlay(area, 5) {
            assert!(toast.area.width <= area.width && toast.area.height <= area.height);
            assert!(toast.area.x + toast.area.width <= area.x + area.width);
            assert!(toast.area.y + toast.area.height <= area.y + area.height);
        }
    }
    assert!(bar.expire_reply(5 + REPLY_TTL));
    bar.on_event(&AppEvent::Notification { text: "y".to_string() }, 9_000);
    bar.clear_reply();
    assert!(!bar.has_reply());
}

#[test]
fn status_row_fits_its_width() {
    let left = Line::of("left".to_string(), Style::plain());
    let line = fit_line(left, "hint", theme::dim(), 20);
    assert_eq!(line.text().width(), 20);
    assert!(line.text().starts_with("left") && line.text().ends_with("hint"));
    let narrow = fit_line(Line::of("left".to_string(), Style::plain()), "hint", theme::dim(), 6);
    assert!(narrow.text().width() <= 6);
    assert_eq!(spin_char(0), '⠋');
    assert_eq!(spin_char(10), spin_char(0));
    assert_eq!(StatusHint::Busy.text(), "shift-tab mode · esc cancel · enter queue");
}

#[test]
fn queued_messages_take_one_row() {
    let widget = QueueWidget::new();
    let pending = vec!["one\ntwo".to_string(), "three".to_string()];
    let row = widget.draw(40, &pending).expect("row").text();
    assert!(row.contains("one") && row.ends_with("+1"), "{row}");
    assert!(row.width() <= 40);
    assert!(widget.draw(40, &Vec::new()).is_none());
    assert_eq!(first_line_of("one\ntwo"), "one");
}

#[test]
fn tasks_change_with_events() {
    let item = |status| TodoItem {
        id: "a".to_string(),
        content: "first\nsecond".to_string(),
        status,
    };
    let mut tasks = TodosWidget::new(vec![item(TodoStatus::Pending)]);
    assert_eq!(texts(&tasks.draw(40, 1)), vec!["[ ] first"]);
    tasks.on_event(&agent(AgentEvent::TodosChanged {
        items: vec![item(TodoStatus::Completed), item(TodoStatus::Cancelled)],
    }));
    assert_eq!(texts(&tasks.draw(40, 2)), vec!["[x] first", "[-] first"]);
    assert_eq!(texts(&tasks.draw(7, 1)), vec!["[x] fi…"]);
    tasks.clear();
    assert_eq!(tasks.height(), 0);
}

#[test]
fn shell_prompt_follows_the_mode() {
    assert_eq!(shell::prompt(false, false), "› ");
    assert_eq!(shell::prompt(true, false), "⋅ ");
    assert_eq!(shell::prompt(false, true), "$ ");
    assert_eq!(shell::prompt(true, true), "⋅ ");
    assert_eq!(shell::prompt_style(true), theme::shell());
    assert_eq!(shell::prompt_style(false), theme::user());
    assert_eq!(shell::text_style(true), theme::shell());
    assert_eq!(shell::text_style(false), Style::plain());
    assert_eq!(shell::placeholder(true), "shell command…");
    assert_eq!(shell::placeholder(false), "message…");
}

#[test]
fn styles_patch_over_each_other() {
    let red = Style::fg(Color::Red);
    let over = Style { bg: Some(Color::Blue), bold: true, ..Style::plain() };
    let both = red.patch(over);
    assert_eq!((both.fg, both.bg, both.bold), (Some(Color::Red), Some(Color::Blue), true));
    let line = Line { spans: vec![Span::styled("a".to_string(), red), Span::raw("b".to_string())] };
    assert_eq!(line.text_from(1), "b");
    assert_eq!(line.copy().text(), "ab");
}

#[test]
fn tables_find_what_was_put_in() {
    let mut t: Table<usize> = Table::new();
    t.insert("a".to_string(), 1);
    t.insert("b".to_string(), 2);
    t.insert("a".to_string(), 3);
    assert_eq!(t.get("a"), Some(3));
    assert_eq!(t.remove("a"), Some(3));
    assert_eq!(t.get("a"), None);
    assert_eq!(t.get("b"), Some(2));
    t.clear();
    assert_eq!(t.remove("b"), None);
}

#[test]
fn page_keys_belong_to_the_transcript() {
    let mut t = Transcript::new();
    assert!(matches!(t.handle_key(&key(KeyCode::PageUp)), KeyResult::Handled));
    assert!(matches!(t.handle_key(&key(KeyCode::Char('a'))), KeyResult::Ignored));
}

#[test]
fn named_sessions_go_first() {
    let cli = |session: Option<&str>, resume, query: Option<&str>| Cli {
        dir: ".".to_string(),
        session: session.map(str::to_string),
        resume,
        query: query.map(str::to_string),
    };
    let recent = Some("r".to_string());
    assert_eq!(cli(Some("s"), true, None).resolve_session_id(&recent).as_deref(), Some("s"));
    assert_eq!(cli(None, true, None).resolve_session_id(&recent).as_deref(), Some("r"));
    assert_eq!(cli(None, true, None).resolve_session_id(&None), None);
    assert_eq!(cli(None, false, None).resolve_session_id(&recent), None);
    assert!(matches!(cli(None, false, Some(" why? ")).plan(false), Run::Headless(q) if q == "why?"));
    assert!(matches!(cli(None, false, None).plan(false), Run::Usage));
    assert!(matches!(
        cli(None, true, None).plan(true),
        Run::Interactive(SessionChoice::Recent)
    ));
}
