use oven_tui::components::choice_popup::{ChoicePopup, ChoicePopupAction};
use oven_tui::components::file_mention_popup::mention_token;
use oven_tui::components::layout::{split, Regions, STATUS_H, TRANSCRIPT_MIN};
use oven_tui::components::list::{
    choice_lines, cycle_selected, titled_choice_lines, titled_list_height, TITLE_ROWS,
};
use oven_tui::components::queue::QueueWidget;
use oven_tui::keys::{KeyCode, KeyEvent, KeyModifiers};
use oven_tui::style::{Line, Rect};

const CONTROL: KeyModifiers =
    KeyModifiers { shift: false, control: true, alt: false, logo: false, other: false };

fn key(code: KeyCode) -> KeyEvent {
    KeyEvent::new(code, KeyModifiers::none())
}

fn area(w: u16, h: u16) -> Rect {
    Rect::new(0, 0, w, h)
}

fn assert_tiles(regions: &Regions, area: Rect) {
    let mut bands = vec![regions.transcript];
    bands.extend(regions.queue);
    bands.extend(regions.todos);
    bands.push(regions.input);
    bands.extend(regions.overlay);
    bands.push(regions.status);
    let mut y = area.y;
    for band in bands {
        assert_eq!(band.y, y, "{band:?} must tile from the top");
        assert_eq!(band.width, area.width, "{band:?} must span the width");
        y += band.height;
    }
    assert_eq!(y, area.y + area.height, "bands must cover the terminal");
}

fn q(texts: &[&str]) -> Vec<String> {
    texts.iter().map(|s| s.to_string()).collect()
}

fn pairs(items: &[(&str, &str)]) -> Vec<(String, String)> {
    items.iter().map(|(a, b)| (a.to_string(), b.to_string())).collect()
}

fn texts(lines: &[Line]) -> Vec<String> {
    lines.iter().map(|line| line.text()).collect()
}

#[test]
fn enter_confirms_selected_row() {
    let mut popup = ChoicePopup::loop_limit(100);
    assert!(matches!(
        popup.handle_key(&key(KeyCode::Enter)),
        ChoicePopupAction::Confirm(0)
    ));
    let mut popup = ChoicePopup::loop_limit(100);
    popup.handle_key(&key(KeyCode::Down));
    assert!(matches!(
        popup.handle_key(&key(KeyCode::Enter)),
        ChoicePopupAction::Confirm(1)
    ));
}

#[test]
fn y_continues_n_and_esc_exit() {
    let mut popup = ChoicePopup::loop_limit(2);
    assert!(matches!(
        popup.handle_key(&key(KeyCode::Char('y'))),
        ChoicePopupAction::Confirm(0)
    ));
    let mut popup = ChoicePopup::loop_limit(2);
    assert!(matches!(
        popup.handle_key(&key(KeyCode::Char('n'))),
        ChoicePopupAction::Confirm(1)
    ));
    let mut popup = ChoicePopup::loop_limit(2);
    assert!(matches!(
        popup.handle_key(&key(KeyCode::Esc)),
        ChoicePopupAction::Confirm(1)
    ));
}

#[test]
fn ctrl_c_cancels() {
    let mut popup = ChoicePopup::approval("bash", "run ls");
    let key = KeyEvent::new(KeyCode::Char('c'), CONTROL);
    assert!(matches!(popup.handle_key(&key), ChoicePopupAction::Cancel));
}

#[test]
fn token_at_start() {
    let t = mention_token("@lib", 4).unwrap();
    assert_eq!(t.query, "lib");
    assert_eq!(t.start, 0);
    assert_eq!(t.end, 4);
}

#[test]
fn token_mid_line() {
    let t = mention_token("see @src/li", 11).unwrap();
    assert_eq!(t.query, "src/li");
    assert_eq!(t.start, 4);
}

#[test]
fn token_after_japanese() {
    let text = "見て @src";
    let t = mention_token(text, text.len()).unwrap();
    assert_eq!(t.query, "src");
    assert_eq!(&text[..t.start], "見て ");
}

#[test]
fn token_after_spanish() {
    let text = "¿dónde está @src";
    let t = mention_token(text, text.len()).unwrap();
    assert_eq!(t.query, "src");
    assert_eq!(&text[..t.start], "¿dónde está ");
}

#[test]
fn token_at_sign_only() {
    let t = mention_token("@", 1).unwrap();
    assert_eq!(t.query, "");
    assert_eq!(t.start, 0);
    assert_eq!(t.end, 1);
}

#[test]
fn email_is_not_a_mention() {
    assert!(mention_token("foo@bar", 7).is_none());
}

#[test]
fn cursor_after_token_is_closed() {
    assert!(mention_token("see @li please", 14).is_none());
}

#[test]
fn cursor_on_query_stays_open() {
    let t = mention_token("see @li please", 7).unwrap();
    assert_eq!(t.query, "li");
}

#[test]
fn idle_layout_is_transcript_input_status() {
    let regions = split(area(80, 24), 1, 0, 0, 0);
    assert_eq!(regions.transcript, Rect::new(0, 0, 80, 22));
    assert_eq!(regions.input, Rect::new(0, 22, 80, 1));
    assert_eq!(regions.status, Rect::new(0, 23, 80, 1));
    assert_tiles(&regions, area(80, 24));
}

#[test]
fn queue_overlay_and_todos_take_named_rows() {
    let regions = split(area(80, 24), 2, 1, 3, 4);
    assert_eq!(regions.transcript.height, 13);
    assert_eq!(regions.queue, Some(Rect::new(0, 13, 80, 1)));
    assert_eq!(regions.todos, Some(Rect::new(0, 14, 80, 3)));
    assert_eq!(regions.input, Rect::new(0, 17, 80, 2));
    assert_eq!(regions.overlay, Some(Rect::new(0, 19, 80, 4)));
    assert_eq!(regions.status, Rect::new(0, 23, 80, 1));
    assert_tiles(&regions, area(80, 24));
}

#[test]
fn short_terminal_preserves_transcript_and_status() {
    let regions = split(area(20, 2), 4, 1, 3, 2);
    assert_eq!(regions.transcript.height, TRANSCRIPT_MIN);
    assert_eq!(regions.input.height, 0);
    assert_eq!(regions.status.height, STATUS_H);
    assert_tiles(&regions, area(20, 2));
}

#[test]
fn one_row_terminal_keeps_only_the_status() {
    let regions = split(area(20, 1), 1, 1, 1, 1);
    assert_eq!(regions.transcript.height, 0);
    assert_eq!(regions.status.height, STATUS_H);
    assert_tiles(&regions, area(20, 1));
}

#[test]
fn height_is_zero_when_empty() {
    let widget = QueueWidget::new();
    assert_eq!(widget.height(&q(&[])), 0);
}

#[test]
fn height_is_one_when_queued() {
    let widget = QueueWidget::new();
    assert_eq!(widget.height(&q(&["a"])), 1);
    assert_eq!(widget.height(&q(&["a", "b", "c", "d"])), 1);
}

#[test]
fn cycle_wraps_both_directions() {
    let mut i = 0;
    cycle_selected(&mut i, 3, false);
    assert_eq!(i, 1);
    cycle_selected(&mut i, 3, false);
    cycle_selected(&mut i, 3, false);
    assert_eq!(i, 0);
    cycle_selected(&mut i, 3, true);
    assert_eq!(i, 2);
    cycle_selected(&mut i, 0, false);
    assert_eq!(i, 2);
}

#[test]
fn selected_row_uses_marker_prefix() {
    let rows = texts(&choice_lines(&pairs(&[("exit", "leave"), ("clear", "wipe")]), 1));
    assert!(rows[0].contains("  exit"), "{:?}", rows[0]);
    assert!(rows[1].contains("▸ clear"), "{:?}", rows[1]);
    assert!(!rows[0].contains("▸"), "{:?}", rows[0]);
}

#[test]
fn titled_list_shows_heading_then_choices() {
    assert_eq!(titled_list_height(2), TITLE_ROWS + 2);
    let rows = texts(&titled_choice_lines(
        "limit reached",
        "ran 2 iterations",
        &pairs(&[("Continue", "keep going"), ("Exit", "stop")]),
        0,
    ));
    assert!(rows[0].contains("limit reached"), "{:?}", rows[0]);
    assert!(rows[1].contains("ran 2 iterations"), "{:?}", rows[1]);
    assert!(rows[2].contains("▸ Continue"), "{:?}", rows[2]);
    assert!(rows[3].contains("  Exit"), "{:?}", rows[3]);
}
