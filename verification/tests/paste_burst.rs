use std::collections::VecDeque;

use oven_tui::components::paste_burst::{Burst, Coalescer};
use oven_tui::keys::{
    KeyCode, KeyEvent, KeyEventKind, KeyModifiers, MouseEvent, MouseEventKind, TermEvent,
};

const CONTROL: KeyModifiers =
    KeyModifiers { shift: false, control: true, alt: false, logo: false, other: false };

fn press(code: KeyCode) -> KeyEvent {
    KeyEvent::new(code, KeyModifiers::none())
}

fn release(code: KeyCode) -> KeyEvent {
    KeyEvent { code, modifiers: KeyModifiers::none(), kind: KeyEventKind::Release }
}

fn mouse_event() -> TermEvent {
    TermEvent::Mouse(MouseEvent { kind: MouseEventKind::Moved, column: 0, row: 0 })
}

fn coalesce(first: KeyEvent, source: &mut VecDeque<TermEvent>) -> (Burst, Option<TermEvent>) {
    let mut c = match Coalescer::start(first) {
        Some(c) => c,
        None => return (Burst::Key(first), None),
    };
    while let Some(ev) = source.pop_front() {
        if let Some(trailing) = c.take(ev) {
            return (c.finish(), Some(trailing));
        }
    }
    (c.finish(), None)
}

fn run(first: KeyEvent, queued: Vec<TermEvent>) -> (Burst, Option<TermEvent>) {
    coalesce(first, &mut VecDeque::from(queued))
}

#[test]
fn lone_key_stays_a_key() {
    let (burst, trailing) = run(press(KeyCode::Enter), vec![]);
    assert!(matches!(burst, Burst::Key(k) if k.code == KeyCode::Enter));
    assert!(trailing.is_none());
}

#[test]
fn non_printable_first_key_is_untouched() {
    let ctrl_c = KeyEvent::new(KeyCode::Char('c'), CONTROL);
    let mut source = VecDeque::from([TermEvent::Key(press(KeyCode::Char('x')))]);
    let (burst, trailing) = coalesce(ctrl_c, &mut source);
    assert!(matches!(burst, Burst::Key(k) if k.modifiers == CONTROL));
    assert!(trailing.is_none());
    assert_eq!(source.len(), 1, "queued events must not be drained");
}

#[test]
fn multiline_burst_becomes_single_paste() {
    let queued = vec![
        TermEvent::Key(press(KeyCode::Char('i'))),
        TermEvent::Key(press(KeyCode::Enter)),
        TermEvent::Key(press(KeyCode::Char('h'))),
        TermEvent::Key(press(KeyCode::Char('i'))),
    ];
    let (burst, trailing) = run(press(KeyCode::Char('h')), queued);
    assert!(matches!(burst, Burst::Paste(text) if text == "hi\nhi"));
    assert!(trailing.is_none());
}

#[test]
fn release_events_are_skipped_inside_burst() {
    let queued = vec![
        TermEvent::Key(release(KeyCode::Char('a'))),
        TermEvent::Key(press(KeyCode::Char('b'))),
    ];
    let (burst, _) = run(press(KeyCode::Char('a')), queued);
    assert!(matches!(burst, Burst::Paste(text) if text == "ab"));
}

#[test]
fn tab_and_enter_map_to_whitespace() {
    let queued = vec![
        TermEvent::Key(press(KeyCode::Tab)),
        TermEvent::Key(press(KeyCode::Enter)),
        TermEvent::Key(press(KeyCode::Char('x'))),
    ];
    let (burst, _) = run(press(KeyCode::Char('a')), queued);
    assert!(matches!(burst, Burst::Paste(text) if text == "a\t\nx"));
}

#[test]
fn foreign_event_ends_burst_and_is_returned() {
    let queued = vec![TermEvent::Key(press(KeyCode::Char('b'))), mouse_event()];
    let (burst, trailing) = run(press(KeyCode::Char('a')), queued);
    assert!(matches!(burst, Burst::Paste(text) if text == "ab"));
    assert!(matches!(trailing, Some(TermEvent::Mouse(_))));
}

#[test]
fn immediate_foreign_event_keeps_key_and_returns_it() {
    let (burst, trailing) = run(press(KeyCode::Enter), vec![mouse_event()]);
    assert!(matches!(burst, Burst::Key(k) if k.code == KeyCode::Enter));
    assert!(matches!(trailing, Some(TermEvent::Mouse(_))));
}

#[test]
fn modified_key_ends_burst_and_is_returned() {
    let ctrl_c = KeyEvent::new(KeyCode::Char('c'), CONTROL);
    let queued = vec![TermEvent::Key(press(KeyCode::Enter)), TermEvent::Key(ctrl_c)];
    let (burst, trailing) = run(press(KeyCode::Char('a')), queued);
    assert!(matches!(burst, Burst::Paste(text) if text == "a\n"));
    assert!(matches!(trailing, Some(TermEvent::Key(k)) if k.modifiers == CONTROL));
}
