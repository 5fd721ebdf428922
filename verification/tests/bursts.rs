use oven_tui::components::transcript::collapsible::{Collapsible, Section};
use oven_tui::components::transcript::tools::ToolBurst;

const LIMIT: usize = 8;

fn grown(items: usize) -> Collapsible {
    Collapsible::from_sections(
        (0..items)
            .map(|i| Section::Text(format!("s{i}")))
            .collect::<Vec<_>>(),
    )
}

fn titles(sections: &[Section]) -> Vec<String> {
    sections
        .iter()
        .map(|section| match section {
            Section::Text(text) => format!("text:{text}"),
            Section::Item { title, .. } => format!("item:{title}"),
        })
        .collect()
}

#[test]
fn collapsible_new_starts_expanded() {
    let item = Collapsible::new("body".to_string());
    assert!(item.is_expanded());
    assert_eq!(item.body(), "body");
}

#[test]
fn limited_sections_keep_the_tail() {
    let item = grown(LIMIT + 4);
    let (skipped, sections) = item.visible_sections(Some(LIMIT));
    assert_eq!(skipped, 4);
    assert_eq!(sections.len(), LIMIT);
    assert!(matches!(sections.last(), Some(Section::Text(text)) if text == "s11"));
}

#[test]
fn unlimited_sections_keep_everything() {
    let item = grown(LIMIT + 2);
    let (skipped, sections) = item.visible_sections(None);
    assert_eq!((skipped, sections.len()), (0, LIMIT + 2));
}

#[test]
fn appended_text_extends_the_last_section() {
    let mut item = Collapsible::new("one".to_string());
    item.append(" two");
    assert_eq!(item.body(), "one two");
    assert_eq!(item.visible_sections(None).1.len(), 1);
}

#[test]
fn collapsible_collapse_closes_unpinned() {
    let mut item = Collapsible::new("a".to_string());
    assert!(item.collapse());
    assert!(!item.is_expanded());
    assert!(!item.collapse());
}

#[test]
fn collapsible_collapse_skips_pinned() {
    let mut pinned = Collapsible::new("keep".to_string());
    pinned.toggle();
    pinned.toggle();
    assert!(!pinned.collapse());
    assert!(pinned.is_expanded());
}

#[test]
fn groups_calls_by_kind_with_call_details_as_body() {
    let mut burst = ToolBurst::new();
    burst.start("1".into(), "Search todo in src", None);
    burst.start("2".into(), "Search\n config in src", None);
    burst.start("3".into(), "Find **/*.rs in src", None);
    burst.start("4".into(), "Read src/main.rs", None);
    assert!(burst.finish("2", true, None));

    assert_eq!(burst.title(), "Searched 3 patterns, Read 1 file, 1 failed");
    assert_eq!(
        burst.body(),
        "Search todo in src\nSearch config in src\nFind **/*.rs in src\nRead src/main.rs"
    );
}

#[test]
fn unknown_tool_carries_its_count_only_when_repeated() {
    let mut burst = ToolBurst::new();
    burst.start("1".into(), "web_search", None);
    assert_eq!(burst.title(), "web_search");
    burst.start("2".into(), "web_search", None);
    assert_eq!(burst.title(), "web_search ×2");
}

#[test]
fn finish_ignores_calls_outside_the_burst() {
    let mut burst = ToolBurst::new();
    assert!(!burst.finish("missing", true, None));
    assert_eq!(burst.title(), "");
}

#[test]
fn file_edits_read_as_edited_files() {
    let mut burst = ToolBurst::new();
    burst.start("1".into(), "Edit src/main.rs", Some("- old\n+ new"));
    burst.start("2".into(), "Write out.txt", Some("+ hi"));
    assert!(burst.finish("1", false, None));
    assert_eq!(burst.title(), "Edited 1 file, Wrote 1 file");
    assert_eq!(
        titles(&burst.sections()),
        ["item:Edit src/main.rs", "item:Write out.txt"]
    );
    assert_eq!(burst.body(), "");
}

#[test]
fn failed_diff_keeps_its_error_inside_the_item() {
    let mut burst = ToolBurst::new();
    burst.start("1".into(), "Edit src/main.rs", Some("- old\n+ new"));
    assert!(burst.finish("1", true, Some("old_string not found")));

    assert_eq!(burst.title(), "Edited 1 file, 1 failed");
    let [Section::Item { detail, .. }] = &burst.sections()[..] else {
        panic!("expected one diff item");
    };
    assert_eq!(detail.body(), "- old\n+ new\nold_string not found");
}

#[test]
fn plain_calls_stay_body_lines_between_diff_items() {
    let mut burst = ToolBurst::new();
    burst.start("1".into(), "Ran cargo test", None);
    burst.start("2".into(), "Edit src/main.rs", Some("- old"));
    assert_eq!(
        titles(&burst.sections()),
        ["text:Ran cargo test", "item:Edit src/main.rs"]
    );
}
