use oven_tui::components::event::{
    AgentEvent, AgentMode, AppEvent, ContentBlock, Message, ProviderConfig, Role, StateChange,
    TodoItem, TodoStatus, Usage,
};
use oven_tui::components::input::{Lookup, Overlay};
use oven_tui::components::status::{StatusBar, REPLY_TTL};
use oven_tui::components::ui::{Command, Reaction, Ui};
use oven_tui::keys::{
    KeyCode, KeyEvent, KeyModifiers, MouseButton, MouseEvent, MouseEventKind,
};
use oven_tui::style::Rect;

const CONTROL: KeyModifiers =
    KeyModifiers { shift: false, control: true, alt: false, logo: false, other: false };
const SHIFT: KeyModifiers =
    KeyModifiers { shift: true, control: false, alt: false, logo: false, other: false };

fn commands() -> Vec<(String, String)> {
    vec![
        ("clear".to_string(), "Clear conversation history.".to_string()),
        ("model".to_string(), "Switch model and reasoning effort.".to_string()),
        ("setup".to_string(), "Configure provider.".to_string()),
    ]
}

fn ui() -> Ui {
    let status = StatusBar::new("m".to_string(), "/tmp", None, Usage::zero());
    Ui::new(commands(), ProviderConfig::empty(), false, status, Vec::new())
}

fn press(ui: &mut Ui, code: KeyCode) -> Reaction {
    ui.handle_key(&KeyEvent::new(code, KeyModifiers::none()), 0)
}

fn type_text(ui: &mut Ui, text: &str) {
    for ch in text.chars() {
        press(ui, KeyCode::Char(ch));
    }
}

fn submit(ui: &mut Ui, text: &str) -> Reaction {
    type_text(ui, text);
    press(ui, KeyCode::Enter)
}

fn user_text(text: &str) -> Message {
    Message {
        role: Role::User,
        content: vec![ContentBlock::Text { text: text.to_string() }],
        thinking_ms: None,
    }
}

fn rows(ui: &Ui) -> Vec<String> {
    ui.transcript().rows.iter().map(|row| row.text.clone()).collect()
}

#[test]
fn submitted_text_is_sent_and_shown() {
    let mut ui = ui();
    let r = submit(&mut ui, "hello");
    assert!(matches!(r.send, Some(Command::UserInput(t)) if t == "hello"));
    assert!(!r.quit);
    assert_eq!(rows(&ui), vec!["hello"]);
    assert!(ui.state().busy);
    assert_eq!(ui.input().lines(), vec![""]);
}

#[test]
fn submitted_keys_are_sent_but_not_shown() {
    let mut ui = ui();
    let r = submit(&mut ui, "/setup name=x api_key=sk-1");
    assert!(matches!(r.send, Some(Command::UserInput(t)) if t == "/setup name=x api_key=sk-1"));
    assert!(rows(&ui).iter().all(|row| !row.contains("sk-1")));
}

#[test]
fn queued_messages_are_sent_in_order_once_idle() {
    let mut ui = ui();
    submit(&mut ui, "first");
    assert!(submit(&mut ui, "second").send.is_none());
    assert!(submit(&mut ui, "third").send.is_none());
    assert_eq!(ui.pending(), &vec!["second".to_string(), "third".to_string()]);
    assert_eq!(ui.regions(Rect::new(0, 0, 80, 24)).queue.map(|r| r.height), Some(1));

    let mut outbox = ui.apply_event(&AppEvent::Idle, 0);
    assert!(ui.state().busy);
    assert_eq!(outbox.next_text(), Some("second"));
    outbox.report(true);
    assert_eq!(outbox.next_text(), Some("third"));
    outbox.report(true);
    assert_eq!(outbox.next_text(), None);
    ui.flush_done(&outbox);
    assert!(ui.state().busy);
    assert!(ui.pending().is_empty());
    assert_eq!(rows(&ui), vec!["first", "second", "third"]);
}

#[test]
fn unsent_messages_wait_again_in_order() {
    let mut ui = ui();
    submit(&mut ui, "first");
    submit(&mut ui, "second");
    submit(&mut ui, "third");
    let mut outbox = ui.apply_event(&AppEvent::Idle, 0);
    outbox.report(false);
    assert_eq!(outbox.next_text(), None);
    ui.flush_done(&outbox);
    assert_eq!(ui.pending(), &vec!["second".to_string(), "third".to_string()]);
    assert!(!ui.state().busy);
    assert_eq!(rows(&ui), vec!["first"]);
}

#[test]
fn esc_takes_queued_messages_back() {
    let mut ui = ui();
    submit(&mut ui, "first");
    submit(&mut ui, "one\u{4f60}");
    let r = press(&mut ui, KeyCode::Esc);
    assert!(r.send.is_none());
    assert!(ui.pending().is_empty());
    assert_eq!(ui.input().lines(), vec!["one\u{4f60}"]);
    assert_eq!(rows(&ui), vec!["first"]);
}

#[test]
fn esc_cancels_then_rewinds() {
    let mut ui = ui();
    submit(&mut ui, "first");
    assert!(matches!(press(&mut ui, KeyCode::Esc).send, Some(Command::Cancel)));
    assert!(ui.state().busy);

    ui.apply_event(&AppEvent::Idle, 0);
    assert!(matches!(press(&mut ui, KeyCode::Esc).send, Some(Command::Rewind)));
    assert_eq!(ui.input().lines(), vec!["first"]);

    assert!(press(&mut ui, KeyCode::Esc).send.is_none());
    assert!(press(&mut ui, KeyCode::Enter).send.is_none());

    ui.apply_event(&AppEvent::Rewound, 0);
    let r = press(&mut ui, KeyCode::Enter);
    assert!(matches!(r.send, Some(Command::UserInput(t)) if t == "first"));
}

#[test]
fn a_refused_rewind_can_be_asked_for_again() {
    let mut ui = ui();
    ui.load_transcript(&vec![user_text("old")]);
    assert!(matches!(press(&mut ui, KeyCode::Esc).send, Some(Command::Rewind)));
    ui.rewind_failed();
    assert!(matches!(press(&mut ui, KeyCode::Esc).send, Some(Command::Rewind)));
}

#[test]
fn a_refused_command_leaves_nothing_under_way() {
    let mut ui = ui();
    submit(&mut ui, "go");
    assert!(ui.state().busy);
    ui.send_failed(&Command::UserInput("/model x".to_string()));
    ui.send_failed(&Command::Cancel);
    ui.send_failed(&Command::SetMode(AgentMode::Plan));
    assert!(ui.state().busy);
    ui.send_failed(&Command::UserInput("go".to_string()));
    assert!(!ui.state().busy);
    assert!(matches!(press(&mut ui, KeyCode::Esc).send, Some(Command::Rewind)));
    ui.send_failed(&Command::Rewind);
    assert!(matches!(press(&mut ui, KeyCode::Esc).send, Some(Command::Rewind)));
}

#[test]
fn ctrl_c_quits_and_cancels_a_turn() {
    let ctrl_c = KeyEvent::new(KeyCode::Char('c'), CONTROL);
    let mut ui = ui();
    let r = ui.handle_key(&ctrl_c, 0);
    assert!(r.quit);
    assert!(r.send.is_none());
    submit(&mut ui, "go");
    let r = ui.handle_key(&ctrl_c, 0);
    assert!(r.quit);
    assert!(matches!(r.send, Some(Command::Cancel)));
}

#[test]
fn shift_tab_toggles_plan_mode() {
    let shift_tab = KeyEvent::new(KeyCode::Tab, SHIFT);
    let mut ui = ui();
    let r = ui.handle_key(&shift_tab, 0);
    assert!(matches!(r.send, Some(Command::SetMode(AgentMode::Plan))));
    assert_eq!(ui.state().mode, AgentMode::Plan);
    let r = ui.handle_key(&shift_tab, 0);
    assert!(matches!(r.send, Some(Command::SetMode(AgentMode::Default))));
    ui.apply_event(
        &AppEvent::StateChanged(StateChange::ModeChanged { mode: AgentMode::Plan }),
        0,
    );
    assert_eq!(ui.state().mode, AgentMode::Plan);
}

#[test]
fn selecting_with_the_mouse_copies_and_tells() {
    let mut ui = ui();
    ui.load_transcript(&vec![user_text("hello")]);
    ui.lay_out(Rect::new(0, 0, 40, 12));
    let mouse = |kind, column, row| MouseEvent { kind, column, row };
    ui.handle_mouse(&mouse(MouseEventKind::Down(MouseButton::Left), 0, 0), 0, false);
    ui.handle_mouse(&mouse(MouseEventKind::Drag(MouseButton::Left), 20, 2), 0, false);
    let up = mouse(MouseEventKind::Up(MouseButton::Left), 20, 2);
    let copied = ui.copy_request(&up).expect("selected text");
    assert!(copied.contains("hello"), "{copied:?}");
    ui.handle_mouse(&up, 7, true);
    assert_eq!(ui.status().reply().as_deref(), Some("Copied!"));
    assert!(ui.wants_tick());
    ui.tick(7 + REPLY_TTL);
    assert!(!ui.status().has_reply());
    assert!(!ui.wants_tick());
}

#[test]
fn frames_advance_only_while_busy() {
    let mut ui = ui();
    ui.tick(0);
    assert_eq!(ui.state().frame, 0);
    submit(&mut ui, "go");
    ui.tick(0);
    ui.tick(0);
    assert_eq!(ui.state().frame, 2);
    ui.set_idle();
    assert!(!ui.state().busy);
}

#[test]
fn exiting_and_errors_reach_the_interface() {
    let mut ui = ui();
    ui.apply_event(&AppEvent::Error { message: "boom".to_string() }, 0);
    assert_eq!(rows(&ui), vec!["boom"]);
    assert!(!ui.has_quit());
    ui.apply_event(&AppEvent::Exited, 0);
    assert!(ui.has_quit());
}

#[test]
fn tasks_take_rows_of_the_screen() {
    let mut ui = ui();
    let area = Rect::new(0, 0, 80, 24);
    assert_eq!(ui.regions(area).todos, None);
    let items = vec![TodoItem {
        id: "a".to_string(),
        content: "one".to_string(),
        status: TodoStatus::Pending,
    }];
    ui.apply_event(&AppEvent::Agent(AgentEvent::TodosChanged { items }), 0);
    assert_eq!(ui.todos().height(), 1);
    assert_eq!(ui.regions(area).todos.map(|r| r.height), Some(1));
}

#[test]
fn a_missing_provider_opens_the_wizard() {
    let status = StatusBar::new("m".to_string(), "/tmp", None, Usage::zero());
    let ui = Ui::new(commands(), ProviderConfig::empty(), true, status, Vec::new());
    assert_eq!(ui.input().overlay(), Overlay::Setup);
    assert!(ui.input().setup().is_open());
}

#[test]
fn mentions_are_looked_up_and_filled() {
    let mut ui = ui();
    type_text(&mut ui, "see ");
    let r = press(&mut ui, KeyCode::Char('@'));
    match r.ask {
        Some(Lookup::Mentions(ask)) => {
            assert_eq!(ask.query, "");
            ui.set_matches(vec!["a.rs".to_string(), "b.rs".to_string()], ask.rescan);
        }
        other => panic!("expected a search, got {other:?}"),
    }
    assert_eq!(ui.input().overlay(), Overlay::Mention);
    press(&mut ui, KeyCode::Down);
    press(&mut ui, KeyCode::Tab);
    assert_eq!(ui.input().lines(), vec!["see @b.rs "]);
}

#[test]
fn pasted_text_lands_in_the_input_line() {
    let mut ui = ui();
    ui.paste("one\ntwo");
    assert_eq!(ui.input().lines(), vec!["one", "two"]);
    ui.reload_transcript(&vec![user_text("kept")]);
    assert_eq!(rows(&ui), vec!["kept"]);
    assert_eq!(ui.input().lines(), vec!["one", "two"]);
}
