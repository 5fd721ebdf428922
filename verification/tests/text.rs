use std::path::Path;

use oven_tui::components::commands::{
    display_user_input, is_model_or_setup, model_filter_from, setup_opens, split_command,
    submit_command,
};
use oven_tui::components::component::{Action, KeyResult};
use oven_tui::components::event::{AgentMode, Protocol, ReasoningEffort, Usage};
use oven_tui::components::list::find_prefix_matches;
use oven_tui::components::sizing::{
    display_path_with_home, format_usage, human, truncate_line, truncate_str, wrap_text,
};
use oven_tui::style::{Color, Line, Span, Style};
use oven_tui::text;
use oven_tui::width::glyph_width;
use unicode_width::UnicodeWidthStr;

fn owned(parts: &[&str]) -> Vec<String> {
    parts.iter().map(|s| s.to_string()).collect()
}

fn pairs(items: &[(&str, &str)]) -> Vec<(String, String)> {
    items.iter().map(|(a, b)| (a.to_string(), b.to_string())).collect()
}

#[test]
fn trimming_twice_changes_nothing_more() {
    let once = text::trim(" \t\u{a0}a b\u{3000}\n");
    assert_eq!(once, "a b");
    assert_eq!(text::trim(&once), once);
    assert_eq!(text::trim_start("  x "), "x ");
    assert_eq!(text::trim_end("  x "), "  x");
    assert_eq!(text::trim(" \n "), "");
}

#[test]
fn trimming_agrees_with_std_on_every_kind_of_space() {
    for c in '\u{0}'..='\u{3100}' {
        assert_eq!(text::is_whitespace(c), c.is_whitespace(), "{:x}", c as u32);
    }
}

#[test]
fn joining_undoes_splitting_and_back() {
    for s in ["", "a", "a,b", ",a,,b,", "你,好"] {
        let parts = text::split(s, ',');
        assert_eq!(parts, s.split(',').map(str::to_string).collect::<Vec<_>>());
        assert_eq!(text::join(&parts, ","), s);
    }
    let parts = owned(&["x", "", "y"]);
    assert_eq!(text::split(&text::join(&parts, "/"), '/'), parts);
}

#[test]
fn lines_drop_their_ends() {
    for s in ["", "\n", "a", "a\n", "a\r\nb", "a\n\nb\r\n", "\r", "a\rb\n"] {
        let want: Vec<String> = s.lines().map(str::to_string).collect();
        assert_eq!(text::lines(s), want, "{s:?}");
    }
    assert_eq!(text::strip_cr("a\r"), "a");
    assert_eq!(text::strip_cr("\ra"), "\ra");
}

#[test]
fn words_are_what_spaces_leave() {
    assert_eq!(text::words("  a\tb\u{3000}c "), owned(&["a", "b", "c"]));
    assert!(text::words(" \n").is_empty());
}

#[test]
fn prefixes_and_needles() {
    assert!(text::starts_with("abc", ""));
    assert!(text::starts_with("abc", "ab"));
    assert!(!text::starts_with("ab", "abc"));
    assert!(text::contains("abcabd", "abd"));
    assert!(text::contains("x", ""));
    assert!(!text::contains("ab", "ba"));
    assert!(text::same_text("你", "你"));
    assert!(!text::same_text("a", "A"));
}

#[test]
fn ascii_case_folding_leaves_other_letters() {
    assert_eq!(text::to_ascii_lowercase("ÄBZ[`"), "Äbz[`");
    assert!(text::eq_ignore_ascii_case("MoDel", "model"));
    assert!(!text::eq_ignore_ascii_case("Ä", "ä"));
    assert_eq!(text::to_ascii_lower('Q'), 'q');
}

#[test]
fn numbers_are_written_in_decimal() {
    for n in [0, 7, 10, 999, 1_000_000, u64::MAX] {
        assert_eq!(text::decimal_of(n), n.to_string());
    }
}

#[test]
fn repeated_and_stripped_text() {
    assert_eq!(text::spaces(3), "   ");
    assert_eq!(text::repeat_char('*', 2), "**");
    assert_eq!(text::strip_whitespace(" a\n b\t"), "ab");
    assert_eq!(text::drop_last_char("a你"), "a");
    assert_eq!(text::drop_last_char(""), "");
    assert_eq!(text::concat("a", "b"), "ab");
}

#[test]
fn bytes_and_characters_agree() {
    let s = "aé你😀";
    let cs = text::chars_of(s);
    assert_eq!(cs, s.chars().collect::<Vec<_>>());
    let mut at = 0;
    for (i, c) in s.chars().enumerate() {
        assert_eq!(text::char_bytes(c), c.len_utf8());
        assert_eq!(text::bytes_before(s, &cs, i), at);
        assert_eq!(text::find_char_at_byte(s, &cs, at), Some(i));
        at += c.len_utf8();
    }
    assert_eq!(text::find_char_at_byte(s, &cs, 2), None);
    assert_eq!(text::text_of(&cs, 1, 3), "é你");
}

#[test]
fn glyph_widths_are_the_terminal_columns() {
    assert_eq!(glyph_width('a'), 1);
    assert_eq!(glyph_width('你'), 2);
    assert_eq!(glyph_width('\u{301}'), 0);
    assert_eq!(glyph_width('\n'), 0);
}

#[test]
fn prefix_matching_lowers_letters_of_all_alphabets() {
    let items = pairs(&[("Été", "summer"), ("étoile", "star"), ("ete", "plain"), ("Eta", "x")]);
    assert_eq!(find_prefix_matches(&items, "ét"), vec![0, 1]);
    assert_eq!(find_prefix_matches(&items, "e"), vec![2, 3]);
    assert_eq!(find_prefix_matches(&items, ""), vec![0, 1, 2, 3]);
}

#[test]
fn human_numbers_round_like_the_float_format() {
    let float = |n: u32| {
        if n >= 1_000_000 {
            format!("{:.1}M", n as f64 / 1_000_000.0)
        } else if n >= 1_000 {
            format!("{:.1}k", n as f64 / 1_000.0)
        } else {
            n.to_string()
        }
    };
    for n in 0..200_000 {
        assert_eq!(human(n), float(n));
    }
    for k in 0..60_000u32 {
        for d in [0, 1, 49_999, 50_000, 50_001] {
            let n = 950_000 + k * 50_000 + d;
            assert_eq!(human(n), float(n), "{n}");
        }
    }
    assert_eq!(human(999), "999");
    assert_eq!(human(1_250), "1.2k");
    assert_eq!(human(1_350), "1.4k");
    assert_eq!(human(999_999), "1000.0k");
    assert_eq!(human(u32::MAX), "4295.0M");
}

#[test]
fn usage_is_written_out() {
    let mut usage = Usage {
        input_tokens: 1_200,
        output_tokens: 30,
        cache_read_tokens: 0,
        reasoning_tokens: 0,
    };
    assert_eq!(format_usage(&usage), "1.2k in · 30 out · 0 cache");
    usage.reasoning_tokens = 2_000_000;
    assert_eq!(format_usage(&usage), "1.2k in · 30 out · 0 cache · 2.0M reasoning");
}

#[test]
fn truncation_keeps_a_prefix_and_marks_the_cut() {
    assert_eq!(truncate_str("hello", 5), "hello");
    assert_eq!(truncate_str("hello", 4), "hel…");
    assert_eq!(truncate_str("hello", 1), "…");
    assert_eq!(truncate_str("hello", 0), "");
    assert_eq!(truncate_str("你好", 3), "你…");
    assert_eq!(truncate_str("你好", 2), "…");
    for max in 0..8 {
        let cut = truncate_str("a你b好c", max);
        assert!(cut.width() <= max);
        assert!("a你b好c".starts_with(cut.trim_end_matches('…')));
    }
}

#[test]
fn truncated_lines_keep_their_styles() {
    let red = Style::fg(Color::Red);
    let line = Line {
        spans: vec![
            Span::styled("ab".to_string(), red),
            Span::raw("cde".to_string()),
        ],
    };
    assert_eq!(truncate_line(&line, 5).text(), "abcde");
    let cut = truncate_line(&line, 4);
    assert!(cut.text().width() <= 4);
    assert!(cut.text().starts_with("ab"));
    assert_eq!(cut.spans[0].style, red);
}

#[test]
fn broken_text_joins_back() {
    for (s, max) in [("abcdef", 4), ("你好你", 3), ("a\nbc", 1), ("x", 9)] {
        let rows = wrap_text(s, max);
        assert_eq!(rows.concat(), s.replace('\n', ""));
        assert!(rows.iter().all(|row| row.width() <= max.max(2)));
    }
    assert_eq!(wrap_text("你好你", 5), owned(&["你好", "你"]));
    assert_eq!(wrap_text("a\n\nb", 5), owned(&["a", "", "b"]));
}

#[test]
fn paths_under_home_compare_whole_names() {
    assert_eq!(display_path_with_home("/home/u/", "/home/u"), "~");
    assert_eq!(display_path_with_home("/", "/home/u"), "/");
    assert_eq!(display_path_with_home("/home", "/home/u"), "/home");
}

#[test]
fn paths_are_compared_as_std_compares_them() {
    let shown = |path: &str, home: &str| {
        let (path, home) = (Path::new(path), Path::new(home));
        if path == home {
            return "~".to_string();
        }
        match path.strip_prefix(home) {
            Ok(rest) => format!("~/{}", rest.display()),
            Err(_) => path.display().to_string(),
        }
    };
    let paths = [
        "/", "//", "/home/u", "/home//u/", "/home/./u", "/home/u/.", "/home/u/a//b/./c/", "/home/u2",
        "/home/u/..", "home/u", "./home/u", "./home/u/x", "home/./u/x", "", ".", "..", "/..",
    ];
    for path in paths {
        for home in paths {
            assert_eq!(display_path_with_home(path, home), shown(path, home), "{path} {home}");
        }
    }
}

#[test]
fn keys_never_reach_the_display() {
    assert_eq!(
        display_user_input("/setup api_key=one b api_key=two"),
        "/setup api_key=*** b api_key=***"
    );
    assert_eq!(display_user_input("say api_key=one"), "say api_key=one");
}

#[test]
fn commands_split_on_spaces() {
    assert_eq!(split_command("/model gpt-4o high"), owned(&["model", "gpt-4o", "high"]));
    assert!(setup_opens("/setup"));
    assert!(setup_opens("  /SETUP "));
    assert!(!setup_opens("/setup name=x"));
    assert_eq!(model_filter_from("/model"), Some(String::new()));
    assert_eq!(model_filter_from("/model gp"), Some("gp".to_string()));
    assert_eq!(model_filter_from("/model gp high"), None);
    assert_eq!(model_filter_from("/clear"), None);
    assert!(!is_model_or_setup("model"));
}

#[test]
fn silent_commands_are_submitted_quietly() {
    match submit_command("/model x".to_string()) {
        KeyResult::Action(Action::QuietSubmit(t)) => assert_eq!(t, "/model x"),
        other => panic!("expected QuietSubmit, got {other:?}"),
    }
    match submit_command("/clear".to_string()) {
        KeyResult::Action(Action::Submit(t)) => assert_eq!(t, "/clear"),
        other => panic!("expected Submit, got {other:?}"),
    }
}

#[test]
fn names_of_the_settings() {
    assert_eq!(AgentMode::Default.toggle(), AgentMode::Plan);
    assert_eq!(AgentMode::Plan.toggle(), AgentMode::Default);
    assert_eq!(AgentMode::Default.label(), "agent");
    assert_eq!(AgentMode::Plan.label(), "plan");
    assert_eq!(ReasoningEffort::High.name(), "high");
    assert_eq!(Protocol::Completions.name(), "completions");
    assert_eq!(Protocol::Responses.name(), "responses");
}
