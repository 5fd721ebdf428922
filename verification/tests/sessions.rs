use oven_tui::components::input::Overlay;
use oven_tui::components::outbox::Outbox;
use oven_tui::components::status::StatusHint;
use oven_tui::components::ui::{is_mode_toggle, status_hint, EscAction};
use oven_tui::keys::{KeyCode, KeyEvent, KeyModifiers};

const CONTROL: KeyModifiers =
    KeyModifiers { shift: false, control: true, alt: false, logo: false, other: false };
const SHIFT: KeyModifiers =
    KeyModifiers { shift: true, control: false, alt: false, logo: false, other: false };

/// Sends each waiting message until one is refused; what is left comes back.
fn send_each(texts: Vec<String>, mut send: impl FnMut(&str) -> bool) -> Vec<String> {
    let mut outbox = Outbox::new(texts);
    loop {
        let ok = match outbox.next_text() {
            Some(text) => send(text),
            None => break,
        };
        outbox.report(ok);
    }
    outbox.remaining()
}

#[test]
fn ui_esc_action_priority_queue_then_cancel_then_rewind() {
    assert!(matches!(
        EscAction::new(Some("q".into()), true, false, Some("u".into())),
        EscAction::PopQueue(t) if t == "q"
    ));
    assert!(matches!(
        EscAction::new(Some("q".into()), true, true, None),
        EscAction::PopQueue(t) if t == "q"
    ));
    assert!(matches!(
        EscAction::new(None, true, false, Some("u".into())),
        EscAction::Cancel
    ));
    assert!(matches!(
        EscAction::new(None, false, true, Some("u".into())),
        EscAction::Ignore
    ));
    assert!(matches!(
        EscAction::new(None, false, false, Some("u".into())),
        EscAction::Rewind(t) if t == "u"
    ));
    assert!(matches!(
        EscAction::new(None, false, false, None),
        EscAction::Ignore
    ));
}

#[test]
fn ui_send_each_sends_messages_separately_in_order() {
    let mut sent = Vec::new();
    let remaining = send_each(
        vec!["one".to_string(), "two".to_string(), "three".to_string()],
        |text| {
            sent.push(text.to_string());
            true
        },
    );
    assert!(remaining.is_empty());
    assert_eq!(sent, vec!["one", "two", "three"]);
}

#[test]
fn ui_send_each_stops_at_first_failure_and_returns_remainder() {
    let mut calls = Vec::new();
    let remaining = send_each(
        vec!["one".to_string(), "two".to_string(), "three".to_string()],
        |text| {
            calls.push(text.to_string());
            text != "two"
        },
    );
    assert_eq!(calls, vec!["one", "two"]);
    assert_eq!(remaining, vec!["two", "three"]);
}

#[test]
fn status_hint_follows_overlay_then_busy() {
    assert_eq!(status_hint(Overlay::Slash, true), StatusHint::Slash);
    assert_eq!(status_hint(Overlay::Setup, false), StatusHint::Modal);
    assert_eq!(status_hint(Overlay::Model, false), StatusHint::Modal);
    assert_eq!(status_hint(Overlay::Closed, true), StatusHint::Busy);
    assert_eq!(status_hint(Overlay::Closed, false), StatusHint::Idle);
}

#[test]
fn is_mode_toggle_backtab_and_shift_tab() {
    assert!(is_mode_toggle(KeyEvent::new(KeyCode::BackTab, KeyModifiers::none())));
    assert!(is_mode_toggle(KeyEvent::new(KeyCode::Tab, SHIFT)));
    assert!(!is_mode_toggle(KeyEvent::new(KeyCode::Tab, KeyModifiers::none())));
    assert!(!is_mode_toggle(KeyEvent::new(
        KeyCode::Char('c'),
        CONTROL
    )));
}

#[test]
fn mod_esc_action_priority_queue_then_cancel_then_rewind() {
    // Queued message wins over everything else.
    assert!(matches!(
        EscAction::new(Some("q".into()), true, false, Some("u".into())),
        EscAction::PopQueue(t) if t == "q"
    ));
    assert!(matches!(
        EscAction::new(Some("q".into()), true, true, None),
        EscAction::PopQueue(t) if t == "q"
    ));
    // Empty queue + busy means interrupt, not fallback.
    assert!(matches!(
        EscAction::new(None, true, false, Some("u".into())),
        EscAction::Cancel
    ));
    // A rewind already in flight is ignored until it completes.
    assert!(matches!(
        EscAction::new(None, false, true, Some("u".into())),
        EscAction::Ignore
    ));
    // Idle with a previous user message rewinds it.
    assert!(matches!(
        EscAction::new(None, false, false, Some("u".into())),
        EscAction::Rewind(t) if t == "u"
    ));
    // Idle with nothing to fall back to is a no-op.
    assert!(matches!(
        EscAction::new(None, false, false, None),
        EscAction::Ignore
    ));
}

#[test]
fn mod_send_each_sends_messages_separately_in_order() {
    let mut sent = Vec::new();
    let remaining = send_each(
        vec!["one".to_string(), "two".to_string(), "three".to_string()],
        |text| {
            sent.push(text.to_string());
            true
        },
    );
    assert!(remaining.is_empty());
    assert_eq!(sent, vec!["one", "two", "three"]);
}

#[test]
fn mod_send_each_stops_at_first_failure_and_returns_remainder() {
    let mut calls = Vec::new();
    let remaining = send_each(
        vec!["one".to_string(), "two".to_string(), "three".to_string()],
        |text| {
            calls.push(text.to_string());
            text != "two"
        },
    );
    assert_eq!(calls, vec!["one", "two"]);
    assert_eq!(remaining, vec!["two", "three"]);
}
