use oven_tui::components::composer::Composer;
use oven_tui::keys::{KeyCode, KeyEvent, KeyModifiers};

fn with(code: KeyCode, control: bool, alt: bool, shift: bool) -> KeyEvent {
    KeyEvent::new(code, KeyModifiers { control, alt, shift, ..KeyModifiers::none() })
}

fn plain(code: KeyCode) -> KeyEvent {
    with(code, false, false, false)
}

fn control(c: char) -> KeyEvent {
    with(KeyCode::Char(c), true, false, false)
}

fn alt(c: char) -> KeyEvent {
    with(KeyCode::Char(c), false, true, false)
}

fn both(c: char) -> KeyEvent {
    with(KeyCode::Char(c), true, true, false)
}

fn shifted(code: KeyCode) -> KeyEvent {
    with(code, false, false, true)
}

fn composer(lines: &[&str], row: usize, col: usize) -> Composer {
    let mut composer = Composer::new();
    composer.place(lines.iter().map(|l| l.to_string()).collect(), row, col);
    composer
}

fn after(lines: &[&str], at: (usize, usize), keys: &[KeyEvent]) -> (Vec<String>, (usize, usize)) {
    let mut composer = composer(lines, at.0, at.1);
    for key in keys {
        composer.press(key);
    }
    (composer.lines(), composer.cursor())
}

fn expect(lines: &[&str], at: (usize, usize)) -> (Vec<String>, (usize, usize)) {
    (lines.iter().map(|l| l.to_string()).collect(), at)
}

#[test]
fn erasing_forward() {
    for key in [plain(KeyCode::Delete), control('d')] {
        assert_eq!(after(&["abc", "d"], (0, 1), &[key]), expect(&["ac", "d"], (0, 1)));
        assert_eq!(after(&["abc", "d"], (0, 3), &[key]), expect(&["abcd"], (0, 3)));
        assert_eq!(after(&["abc", "d"], (1, 1), &[key]), expect(&["abc", "d"], (1, 1)));
    }
    assert_eq!(after(&["你好"], (0, 0), &[control('d')]), expect(&["好"], (0, 0)));
}

#[test]
fn erasing_parts_of_a_line() {
    let lines = ["one two", "three"];
    assert_eq!(after(&lines, (0, 3), &[control('k')]), expect(&["one", "three"], (0, 3)));
    assert_eq!(after(&lines, (0, 7), &[control('k')]), expect(&["one twothree"], (0, 7)));
    assert_eq!(after(&lines, (1, 5), &[control('k')]), expect(&lines, (1, 5)));
    assert_eq!(after(&lines, (0, 3), &[control('j')]), expect(&[" two", "three"], (0, 0)));
    assert_eq!(after(&lines, (1, 0), &[control('j')]), expect(&["one twothree"], (0, 7)));
    assert_eq!(after(&lines, (0, 0), &[control('j')]), expect(&lines, (0, 0)));
}

#[test]
fn erasing_words() {
    let backspace = with(KeyCode::Backspace, false, true, false);
    for key in [backspace, control('w'), alt('h')] {
        assert_eq!(after(&["one two"], (0, 7), &[key]), expect(&["one "], (0, 4)));
        assert_eq!(after(&["  x"], (0, 2), &[key]), expect(&["x"], (0, 0)));
        assert_eq!(after(&["a", "b"], (1, 0), &[key]), expect(&["ab"], (0, 1)));
    }
    for key in [with(KeyCode::Delete, false, true, false), alt('d')] {
        assert_eq!(after(&["one two"], (0, 0), &[key]), expect(&[" two"], (0, 0)));
        assert_eq!(after(&["one two"], (0, 4), &[key]), expect(&["one "], (0, 4)));
        assert_eq!(after(&["a", "b"], (0, 1), &[key]), expect(&["ab"], (0, 1)));
    }
}

#[test]
fn moving_within_the_text() {
    let lines = ["abc", "de"];
    let moves = [
        (plain(KeyCode::Home), (1, 1), (1, 0)),
        (control('a'), (1, 1), (1, 0)),
        (both('b'), (1, 1), (1, 0)),
        (with(KeyCode::Left, true, true, false), (1, 1), (1, 0)),
        (plain(KeyCode::End), (0, 1), (0, 3)),
        (control('e'), (0, 1), (0, 3)),
        (both('f'), (0, 1), (0, 3)),
        (with(KeyCode::Right, true, true, false), (0, 1), (0, 3)),
        (alt('<'), (1, 2), (0, 2)),
        (both('p'), (1, 2), (0, 2)),
        (alt('>'), (0, 3), (1, 2)),
        (both('n'), (0, 1), (1, 1)),
        (plain(KeyCode::Left), (0, 2), (0, 1)),
        (plain(KeyCode::Left), (1, 0), (0, 3)),
        (plain(KeyCode::Left), (0, 0), (0, 0)),
        (control('b'), (1, 2), (1, 1)),
        (plain(KeyCode::Right), (0, 2), (0, 3)),
        (plain(KeyCode::Right), (0, 3), (1, 0)),
        (plain(KeyCode::Right), (1, 2), (1, 2)),
        (control('f'), (0, 0), (0, 1)),
    ];
    for (key, from, to) in moves {
        assert_eq!(after(&lines, from, &[key]), expect(&lines, to), "{key:?} from {from:?}");
    }
}

#[test]
fn shift_selects() {
    let lines = ["abc", "de"];
    let to_end = shifted(KeyCode::End);
    assert_eq!(after(&lines, (0, 1), &[to_end, control('x')]), expect(&["a", "de"], (0, 1)));
    assert_eq!(
        after(&lines, (0, 1), &[shifted(KeyCode::Right), to_end, plain(KeyCode::Delete)]),
        expect(&["a", "de"], (0, 1))
    );
    assert_eq!(
        after(&lines, (1, 1), &[shifted(KeyCode::Home), shifted(KeyCode::Left), control('k')]),
        expect(&["abce"], (0, 3))
    );
    assert_eq!(
        after(&lines, (0, 1), &[to_end, plain(KeyCode::Home), control('x')]),
        expect(&lines, (0, 0))
    );
    assert_eq!(after(&lines, (0, 1), &[to_end, control('c'), control('x')]), expect(&lines, (0, 3)));
    assert_eq!(after(&lines, (0, 1), &[to_end, plain(KeyCode::Char('z'))]), expect(&["az", "de"], (0, 2)));
    assert_eq!(
        after(&lines, (0, 3), &[shifted(KeyCode::Home), plain(KeyCode::Left), control('x')]),
        expect(&["", "de"], (0, 0))
    );
}

#[test]
fn the_selection_is_told() {
    let mut composer = composer(&["abc", "de"], 1, 1);
    assert_eq!(composer.selection(), None);
    composer.press(&shifted(KeyCode::Home));
    composer.press(&shifted(KeyCode::Left));
    assert_eq!(composer.selection(), Some(((0, 3), (1, 1))));
    composer.press(&shifted(KeyCode::Right));
    composer.press(&shifted(KeyCode::Right));
    assert_eq!(composer.selection(), None);
    composer.press(&shifted(KeyCode::Right));
    assert_eq!(composer.selection(), Some(((1, 1), (1, 2))));
    composer.press(&plain(KeyCode::Home));
    assert_eq!(composer.selection(), None);
}

#[test]
fn unused_keys_change_nothing() {
    let lines = ["abc", "de"];
    for key in [
        plain(KeyCode::Esc),
        plain(KeyCode::F(5)),
        plain(KeyCode::Insert),
        plain(KeyCode::BackTab),
        with(KeyCode::Tab, true, false, false),
        with(KeyCode::Backspace, true, false, false),
        with(KeyCode::Delete, true, true, false),
        with(KeyCode::Left, false, true, false),
        with(KeyCode::Down, false, true, false),
        control('q'),
        alt('q'),
        both('q'),
        both('m'),
    ] {
        assert_eq!(after(&lines, (0, 1), &[key]), expect(&lines, (0, 1)), "{key:?}");
        let cut = after(&lines, (0, 1), &[shifted(KeyCode::End), key, control('x')]);
        assert_eq!(cut, expect(&["a", "de"], (0, 1)), "{key:?}");
    }
}

#[test]
fn backspace_takes_back_what_was_typed() {
    for at in [(0, 0), (0, 2), (1, 2)] {
        for key in [plain(KeyCode::Char('x')), plain(KeyCode::Enter)] {
            let keys = [key, plain(KeyCode::Backspace)];
            assert_eq!(after(&["abc", "de"], at, &keys), expect(&["abc", "de"], at));
        }
    }
    let there_and_back = [plain(KeyCode::Right), plain(KeyCode::Left)];
    assert_eq!(after(&["abc", "de"], (0, 3), &there_and_back), expect(&["abc", "de"], (0, 3)));
}

#[test]
fn changes_are_undone_and_made_again() {
    let typed = [plain(KeyCode::Char('x')), plain(KeyCode::Enter), plain(KeyCode::Char('y'))];
    let mut keys = typed.to_vec();
    keys.push(control('u'));
    assert_eq!(after(&["abc"], (0, 1), &keys), expect(&["ax", "bc"], (1, 0)));
    keys.push(control('u'));
    assert_eq!(after(&["abc"], (0, 1), &keys), expect(&["axbc"], (0, 2)));
    keys.push(control('u'));
    assert_eq!(after(&["abc"], (0, 1), &keys), expect(&["abc"], (0, 1)));
    keys.push(control('u'));
    assert_eq!(after(&["abc"], (0, 1), &keys), expect(&["abc"], (0, 1)));
    keys.extend([control('r'), control('r')]);
    assert_eq!(after(&["abc"], (0, 1), &keys), expect(&["ax", "bc"], (1, 0)));
    keys.push(plain(KeyCode::Char('z')));
    keys.push(control('r'));
    assert_eq!(after(&["abc"], (0, 1), &keys), expect(&["ax", "zbc"], (1, 1)));
    keys.push(control('u'));
    assert_eq!(after(&["abc"], (0, 1), &keys), expect(&["ax", "bc"], (1, 0)));
}

#[test]
fn undoing_an_erasure_goes_behind_it() {
    let lines = ["abc", "de"];
    let undo = control('u');
    assert_eq!(after(&lines, (0, 1), &[plain(KeyCode::Delete), undo]), expect(&lines, (0, 2)));
    assert_eq!(after(&lines, (0, 3), &[plain(KeyCode::Delete), undo]), expect(&lines, (1, 0)));
    assert_eq!(after(&lines, (1, 0), &[plain(KeyCode::Backspace), undo]), expect(&lines, (1, 0)));
    assert_eq!(after(&lines, (0, 1), &[control('k'), undo]), expect(&lines, (0, 3)));
    let select = [shifted(KeyCode::Home), shifted(KeyCode::Left)];
    let mut keys = select.to_vec();
    keys.extend([plain(KeyCode::Char('x')), undo]);
    assert_eq!(after(&lines, (1, 1), &keys), expect(&["abce"], (0, 3)));
    keys.push(undo);
    assert_eq!(after(&lines, (1, 1), &keys), expect(&lines, (1, 1)));
    keys.extend([control('r'), control('r')]);
    assert_eq!(after(&lines, (1, 1), &keys), expect(&["abcxe"], (0, 4)));
}

#[test]
fn the_oldest_changes_are_forgotten() {
    let mut composer = Composer::new();
    for _ in 0..52 {
        composer.press(&plain(KeyCode::Char('x')));
    }
    for _ in 0..60 {
        composer.press(&control('u'));
    }
    assert_eq!(composer.text(), "xx");
    composer.press(&control('r'));
    composer.press(&plain(KeyCode::Char('y')));
    for _ in 0..60 {
        composer.press(&control('u'));
    }
    assert_eq!(composer.text(), "xxx");
    composer.place(vec!["new".to_string()], 0, 3);
    composer.press(&control('u'));
    assert_eq!(composer.text(), "new");
}

#[test]
fn what_was_cut_is_put_back() {
    let yank = control('y');
    assert_eq!(after(&["abc"], (0, 1), &[yank]), expect(&["abc"], (0, 1)));
    let cut = [control('k'), yank, yank];
    assert_eq!(after(&["abc"], (0, 1), &cut), expect(&["abcbc"], (0, 5)));
    let start = [control('j'), plain(KeyCode::End), yank];
    assert_eq!(after(&["abc"], (0, 2), &start), expect(&["cab"], (0, 3)));
    let word = [control('w'), plain(KeyCode::Home), yank];
    assert_eq!(after(&["one two"], (0, 7), &word), expect(&["twoone "], (0, 3)));
    let next = [alt('d'), plain(KeyCode::End), yank];
    assert_eq!(after(&["one two"], (0, 0), &next), expect(&[" twoone"], (0, 7)));
    let select = [shifted(KeyCode::Home), shifted(KeyCode::Left), shifted(KeyCode::Left)];
    let mut keys = select.to_vec();
    keys.push(control('x'));
    assert_eq!(after(&["abc", "de"], (1, 1), &keys), expect(&["abe"], (0, 2)));
    keys.push(yank);
    assert_eq!(after(&["abc", "de"], (1, 1), &keys), expect(&["abc", "de"], (1, 1)));
    let mut keys = select.to_vec();
    keys.extend([control('c'), plain(KeyCode::End), yank]);
    assert_eq!(after(&["abc", "de"], (1, 1), &keys), expect(&["abcc", "d", "de"], (1, 1)));
    let erased = [control('k'), plain(KeyCode::Backspace), yank];
    assert_eq!(after(&["abc"], (0, 1), &erased), expect(&["bc"], (0, 2)));
    let mut composer = composer(&["abc"], 0, 1);
    composer.press(&control('k'));
    composer.place(vec!["-".to_string()], 0, 1);
    composer.press(&yank);
    assert_eq!(composer.text(), "-bc");
}

#[test]
fn moving_by_words_and_paragraphs() {
    let lines = ["  one, two_3", "", "x y", "z", "", "", "end"];
    let left = with(KeyCode::Left, true, false, false);
    let right = with(KeyCode::Right, true, false, false);
    let up = with(KeyCode::Up, true, false, false);
    let down = with(KeyCode::Down, true, false, false);
    let moves = [
        (alt('b'), (0, 12), (0, 7)),
        (left, (0, 7), (0, 5)),
        (left, (0, 5), (0, 2)),
        (left, (0, 2), (0, 0)),
        (left, (2, 0), (1, 0)),
        (left, (1, 0), (0, 12)),
        (alt('f'), (0, 0), (0, 2)),
        (right, (0, 2), (0, 5)),
        (right, (0, 5), (0, 7)),
        (right, (0, 7), (1, 0)),
        (right, (6, 1), (6, 3)),
        (alt(']'), (0, 3), (2, 3)),
        (alt('n'), (2, 1), (6, 1)),
        (down, (6, 2), (6, 2)),
        (alt('['), (6, 3), (2, 3)),
        (alt('p'), (3, 1), (2, 1)),
        (up, (2, 2), (0, 2)),
        (up, (0, 2), (0, 2)),
    ];
    for (key, from, to) in moves {
        assert_eq!(after(&lines, from, &[key]), expect(&lines, to), "{key:?} from {from:?}");
    }
}

#[test]
fn rows_are_those_that_are_shown() {
    let mut composer = composer(&["one two three"], 0, 9);
    composer.press(&plain(KeyCode::Up));
    assert_eq!(composer.cursor(), (0, 9));
    assert_eq!(composer.show(8, 3), Some((1, 1)));
    composer.press(&plain(KeyCode::Up));
    assert_eq!(composer.cursor(), (0, 1));
    assert_eq!(composer.show(8, 3), Some((1, 0)));
    composer.press(&plain(KeyCode::Up));
    assert_eq!(composer.cursor(), (0, 1));
    composer.press(&shifted(KeyCode::Down));
    assert_eq!(composer.cursor(), (0, 9));
    assert_eq!(composer.selection(), Some(((0, 1), (0, 9))));
    composer.press(&control('p'));
    composer.press(&control('n'));
    assert_eq!(composer.cursor(), (0, 9));
}

#[test]
fn the_window_follows_the_cursor() {
    let mut composer = composer(&["a", "b", "c", "d", "e", "f"], 5, 0);
    assert_eq!(composer.show(4, 2), Some((0, 1)));
    composer.press(&plain(KeyCode::Up));
    assert_eq!(composer.show(4, 2), Some((0, 0)));
    composer.press(&plain(KeyCode::Up));
    assert_eq!(composer.show(4, 2), Some((0, 0)));
    composer.press(&plain(KeyCode::PageUp));
    assert_eq!(composer.cursor(), (2, 0));
    composer.press(&with(KeyCode::PageDown, false, false, true));
    assert_eq!(composer.cursor(), (3, 0));
    assert_eq!(composer.selection(), Some(((2, 0), (3, 0))));
    composer.press(&control('v'));
    assert_eq!(composer.cursor(), (5, 0));
    composer.press(&alt('v'));
    assert_eq!(composer.cursor(), (4, 0));
    assert_eq!(composer.show(0, 2), None);
    assert_eq!(Composer::new().show(4, 2), Some((0, 0)));
}
