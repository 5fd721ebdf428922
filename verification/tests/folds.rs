use oven_tui::components::collapsible::Collapsible;

const LIMIT: usize = 8;

fn grown(lines: usize) -> Collapsible {
    let mut item = Collapsible::new("l1\n".to_string());
    for i in 2..=lines {
        item.append(&format!("l{i}\n"));
    }
    item
}

fn visible(item: &Collapsible, limit: Option<usize>) -> (usize, Vec<String>) {
    item.visible_body(limit)
}

#[test]
fn new_starts_expanded() {
    assert!(Collapsible::new("body".to_string()).is_expanded());
}

#[test]
fn limited_body_keeps_the_tail() {
    let item = grown(LIMIT + 4);
    let (skipped, lines) = visible(&item, Some(LIMIT));
    assert_eq!(skipped, 4);
    assert_eq!(lines, ["l5", "l6", "l7", "l8", "l9", "l10", "l11", "l12"]);
}

#[test]
fn limited_body_keeps_short_bodies_whole() {
    let item = grown(LIMIT - 2);
    assert_eq!(visible(&item, Some(LIMIT)).0, 0);
    assert_eq!(visible(&item, Some(LIMIT)).1.len(), LIMIT - 2);
    let item = grown(LIMIT);
    assert_eq!(visible(&item, Some(LIMIT)).0, 0);
    assert_eq!(visible(&item, Some(LIMIT)).1.len(), LIMIT);
}

#[test]
fn unlimited_body_renders_everything() {
    let item = grown(LIMIT + 2);
    assert_eq!(visible(&item, None).0, 0);
    assert_eq!(visible(&item, None).1.len(), LIMIT + 2);
}

#[test]
fn collapse_closes_unpinned() {
    let mut item = Collapsible::new("a".to_string());
    assert!(item.collapse());
    assert!(!item.is_expanded());
    assert!(!item.collapse());
}

#[test]
fn collapse_skips_pinned() {
    let mut pinned = Collapsible::new("keep".to_string());
    pinned.toggle();
    pinned.toggle();
    assert!(!pinned.collapse());
    assert!(pinned.is_expanded());
}
