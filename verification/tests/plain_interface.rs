use oven_tui::components::event::{ProviderConfig, Role, Usage};
use oven_tui::components::ui::Command;
use oven_tui::keys::{
    KeyCode, KeyEvent, KeyModifiers, MouseButton, MouseEvent, MouseEventKind,
};
use oven_tui::style::Rect;
use oven_tui::ui::event::{AgentEvent, AppEvent, ContentBlock, Message};
use oven_tui::ui::input::Overlay;
use oven_tui::ui::status::StatusBar;
use oven_tui::ui::ui::{Reaction, Ui};

const CONTROL: KeyModifiers =
    KeyModifiers { shift: false, control: true, alt: false, logo: false, other: false };

fn ui() -> Ui {
    let status = StatusBar::new("m".to_string(), "/tmp", None, Usage::zero());
    let commands = vec![("clear".to_string(), "Clear conversation history.".to_string())];
    Ui::new(commands, ProviderConfig::empty(), false, status)
}

fn press(ui: &mut Ui, code: KeyCode) -> Reaction {
    ui.handle_key(&KeyEvent::new(code, KeyModifiers::none()), 0)
}

fn type_text(ui: &mut Ui, text: &str) {
    for ch in text.chars() {
        press(ui, KeyCode::Char(ch));
    }
}

fn submit(ui: &mut Ui, text: &str) -> Reaction {
    type_text(ui, text);
    press(ui, KeyCode::Enter)
}

fn user_text(text: &str) -> Message {
    Message {
        role: Role::User,
        content: vec![ContentBlock::Text { text: text.to_string() }],
    }
}

fn rows(ui: &Ui) -> Vec<String> {
    ui.transcript().rows.iter().map(|row| row.text.clone()).collect()
}

#[test]
fn plain_submission_is_sent_and_shown() {
    let mut ui = ui();
    let r = submit(&mut ui, "hello");
    assert!(matches!(r.send, Some(Command::UserInput(t)) if t == "hello"));
    assert_eq!(rows(&ui), vec!["hello"]);
    assert!(ui.state().busy);
    assert_eq!(ui.input().lines(), vec![""]);
}

#[test]
fn plain_queue_is_shown_after_the_answer() {
    let mut ui = ui();
    submit(&mut ui, "first");
    assert!(submit(&mut ui, "second").send.is_none());
    assert_eq!(ui.pending(), &vec!["second".to_string()]);
    assert_eq!(ui.transcript().pending_user, vec!["second".to_string()]);
    assert_eq!(rows(&ui), vec!["first"]);

    ui.apply_event(
        &AppEvent::Agent { event: AgentEvent::TextDelta { text: "answer".to_string() } },
        0,
    );
    let mut outbox = ui.apply_event(&AppEvent::Idle, 0);
    assert_eq!(rows(&ui), vec!["first", "answer", "second"]);
    assert_eq!(outbox.next_text(), Some("second"));
    outbox.report(true);
    ui.flush_done(&outbox);
    assert!(ui.state().busy);
    assert!(ui.pending().is_empty());
}

#[test]
fn plain_unsent_messages_wait_again() {
    let mut ui = ui();
    submit(&mut ui, "first");
    submit(&mut ui, "second");
    submit(&mut ui, "third");
    let mut outbox = ui.apply_event(&AppEvent::Idle, 0);
    outbox.report(true);
    outbox.report(false);
    ui.flush_done(&outbox);
    assert_eq!(ui.pending(), &vec!["third".to_string()]);
    assert!(!ui.state().busy);
}

#[test]
fn plain_esc_takes_back_cancels_and_rewinds() {
    let mut ui = ui();
    submit(&mut ui, "first");
    submit(&mut ui, "second");
    assert!(press(&mut ui, KeyCode::Esc).send.is_none());
    assert_eq!(ui.input().lines(), vec!["second"]);
    assert!(ui.transcript().pending_user.is_empty());
    assert!(ui.pending().is_empty());

    assert!(matches!(press(&mut ui, KeyCode::Esc).send, Some(Command::Cancel)));
    ui.apply_event(&AppEvent::Idle, 0);
    assert!(matches!(press(&mut ui, KeyCode::Esc).send, Some(Command::Rewind)));
    assert_eq!(ui.input().lines(), vec!["first"]);
    assert!(press(&mut ui, KeyCode::Esc).send.is_none());
    assert!(press(&mut ui, KeyCode::Enter).send.is_none());

    ui.apply_event(
        &AppEvent::Rewound {
            text: Some("first".to_string()),
            messages: vec![user_text("older")],
            usage: Usage::zero(),
        },
        0,
    );
    assert_eq!(rows(&ui), vec!["older"]);
    assert_eq!(ui.input().lines(), vec!["first"]);
    assert!(matches!(press(&mut ui, KeyCode::Enter).send, Some(Command::UserInput(_))));
}

#[test]
fn plain_ctrl_c_quits() {
    let ctrl_c = KeyEvent::new(KeyCode::Char('c'), CONTROL);
    let mut ui = ui();
    assert!(ui.handle_key(&ctrl_c, 0).quit);
    submit(&mut ui, "go");
    let r = ui.handle_key(&ctrl_c, 0);
    assert!(r.quit);
    assert!(matches!(r.send, Some(Command::Cancel)));
}

#[test]
fn plain_selection_copies_and_tells() {
    let mut ui = ui();
    ui.load_transcript(&vec![user_text("hello")]);
    ui.lay_out(Rect::new(0, 0, 40, 12));
    let mouse = |kind, column, row| MouseEvent { kind, column, row };
    ui.handle_mouse(&mouse(MouseEventKind::Down(MouseButton::Left), 2, 0), 0, false);
    ui.handle_mouse(&mouse(MouseEventKind::Drag(MouseButton::Left), 20, 0), 0, false);
    let up = mouse(MouseEventKind::Up(MouseButton::Left), 20, 0);
    assert_eq!(ui.copy_request(&up).as_deref(), Some("hello"));
    ui.handle_mouse(&up, 0, true);
    assert_eq!(ui.status().reply().as_deref(), Some("Copied!"));
    assert_eq!(ui.transcript().selected_text().as_deref(), Some("hello"));
}

#[test]
fn plain_regions_hold_the_queue_and_the_reply() {
    let mut ui = ui();
    let area = Rect::new(0, 0, 40, 20);
    let regions = ui.regions(area);
    assert_eq!(regions.transcript, Rect::new(0, 0, 40, 18));
    assert_eq!(regions.input, Rect::new(0, 18, 40, 1));
    assert_eq!(regions.status, Rect::new(0, 19, 40, 1));
    assert_eq!((regions.queue, regions.popup, regions.reply), (None, None, None));

    submit(&mut ui, "go");
    submit(&mut ui, "later");
    ui.apply_event(&AppEvent::Notify { text: "hi".to_string() }, 0);
    let regions = ui.regions(area);
    assert_eq!(regions.transcript, Rect::new(0, 0, 40, 14));
    assert_eq!(regions.queue, Some(Rect::new(0, 14, 40, 3)));
    assert_eq!(regions.input, Rect::new(0, 17, 40, 1));
    assert_eq!(regions.status, Rect::new(0, 18, 40, 1));
    assert_eq!(regions.reply, Some(Rect::new(0, 19, 40, 1)));
}

#[test]
fn plain_interface_spins_while_busy() {
    let mut ui = ui();
    ui.tick(0);
    assert_eq!(ui.spin(), 0);
    submit(&mut ui, "go");
    assert!(ui.wants_tick());
    for _ in 0..257 {
        ui.tick(0);
    }
    assert_eq!(ui.spin(), 1);
    ui.set_idle();
    assert!(!ui.wants_tick());
}

#[test]
fn plain_wizard_opens_without_a_provider() {
    let status = StatusBar::new("m".to_string(), "/tmp", None, Usage::zero());
    let mut ui = Ui::new(Vec::new(), ProviderConfig::empty(), true, status);
    assert_eq!(ui.input().overlay(), Overlay::Setup);
    ui.paste("x");
    ui.apply_event(&AppEvent::Exit, 0);
    assert!(ui.has_quit());
}

#[test]
fn plain_interface_notes_refused_commands() {
    let mut ui = ui();
    submit(&mut ui, "go");
    ui.send_failed(&Command::UserInput("/setup".to_string()));
    assert!(ui.state().busy);
    ui.send_failed(&Command::UserInput("go".to_string()));
    assert!(!ui.state().busy);
}
