//! What the mouse does to the transcript.
use vstd::prelude::*;

use super::drawing;
use super::kinds;
use super::laws;
use super::model;
use super::model::TranscriptView;
use super::selection;
use super::selection::SelPos;
use super::wrap;
use crate::keys::{MouseButton, MouseEvent, MouseEventKind};
use crate::style;
use crate::width;

verus! {

/// The text between two positions, as a selection of it is copied: nothing where
/// there is none.
pub open spec fn copied(v: TranscriptView, a: SelPos, b: SelPos) -> Seq<char> {
    match (TranscriptView { select_anchor: Some(a), select_head: Some(b), ..v }).selected() {
        Some(t) => t,
        None => Seq::empty(),
    }
}

/// The end of a line.
pub open spec fn line_end(v: TranscriptView, line: usize) -> SelPos {
    SelPos { line, col: wrap::line_cols(v.lines()[line as int]) as usize }
}

pub proof fn lemma_line_cols(line: Seq<style::SpanView>)
    ensures
        wrap::line_cols(line) <= usize::MAX,
    decreases line.len(),
{
    if line.len() > 0 {
        lemma_line_cols(line.drop_last());
    }
}

proof fn lemma_copied(v: TranscriptView, a: SelPos, b: SelPos)
    requires
        a.at_most(b),
        b.line < v.lines().len(),
    ensures
        copied(v, a, b) == v.text_between(a, b, b.line as nat + 1),
{
    let w = TranscriptView { select_anchor: Some(a), select_head: Some(b), ..v };
    laws::lemma_same_text(w, v, a, b, b.line as nat + 1);
    let t = v.text_between(a, b, b.line as nat + 1);
    if a == b {
        assert(v.text_between(a, b, a.line as nat).len() == 0);
        assert(t =~= Seq::<char>::empty());
    } else if t.len() == 0 {
        assert(t =~= Seq::<char>::empty());
    }
}

proof fn lemma_other_end(v: TranscriptView, a: SelPos, b: SelPos, c: SelPos, idx: nat)
    requires
        idx <= b.line,
        idx <= c.line + 1,
        c.line < v.lines().len(),
        idx == c.line + 1 ==> c.col == wrap::line_cols(v.lines()[c.line as int]),
    ensures
        v.text_between(a, b, idx) == v.text_between(a, c, idx),
    decreases idx,
{
    if idx > a.line {
        lemma_other_end(v, a, b, c, (idx - 1) as nat);
    }
}

proof fn lemma_other_start(v: TranscriptView, a: SelPos, b: SelPos, i: usize, idx: nat)
    requires
        a.line <= i < b.line < v.lines().len(),
        i < idx <= b.line + 1,
    ensures
        ({
            let head = v.text_between(a, b, i as nat + 1);
            let rest = v.text_between(SelPos { line: (i + 1) as usize, col: 0 }, b, idx);
            idx > i + 1 ==> v.text_between(a, b, idx) == head + seq!['\n'] + rest
        }),
    decreases idx,
{
    let head = v.text_between(a, b, i as nat + 1);
    let from = SelPos { line: (i + 1) as usize, col: 0 };
    if idx > i + 2 {
        lemma_other_start(v, a, b, i, (idx - 1) as nat);
        let last = v.lines()[idx - 1];
        let to = if idx - 1 == b.line {
            b.col as nat
        } else {
            wrap::line_cols(last)
        };
        let piece = selection::extracted(last, 0, to);
        let rest = v.text_between(from, b, (idx - 1) as nat);
        assert(head + seq!['\n'] + rest + seq!['\n'] + piece =~= head + seq!['\n'] + (rest
            + seq!['\n'] + piece));
    } else if idx == i + 2 {
        let last = v.lines()[idx - 1];
        let to = if idx - 1 == b.line {
            b.col as nat
        } else {
            wrap::line_cols(last)
        };
        let piece = selection::extracted(last, 0, to);
        let none = Seq::<char>::empty();
        assert(v.text_between(from, b, i as nat + 1) == none);
        assert(v.text_between(from, b, idx) =~= piece);
        assert(v.text_between(a, b, idx) =~= head + seq!['\n'] + piece);
    }
}

/// A selection over several lines is copied line by line: up to the end of a line,
/// a line break, and from the start of the next line on.
pub proof fn selections_split_at_line_ends(v: TranscriptView, a: SelPos, b: SelPos, i: usize)
    requires
        a.line <= i < b.line < v.lines().len(),
        a.col <= v.width_at(a.line as nat),
    ensures
        copied(v, a, b) == copied(v, a, line_end(v, i)) + seq!['\n'] + copied(
            v,
            SelPos { line: (i + 1) as usize, col: 0 },
            b,
        ),
{
    let end = line_end(v, i);
    let from = SelPos { line: (i + 1) as usize, col: 0 };
    lemma_line_cols(v.lines()[i as int]);
    lemma_copied(v, a, b);
    lemma_copied(v, a, end);
    lemma_copied(v, from, b);
    lemma_other_end(v, a, b, end, i as nat + 1);
    lemma_other_start(v, a, b, i, b.line as nat + 1);
}

/// What stands behind the gutter of a line is copied whole where the line is
/// selected from its start to its end, and nothing of the gutter.
pub proof fn whole_lines_are_copied(v: TranscriptView, i: usize)
    requires
        i < v.lines().len(),
        v.lines()[i as int].len() == 2,
        width::cols(v.lines()[i as int][0].text) == 2 || width::cols(v.lines()[i as int][0].text)
            == 3,
        width::cols(v.lines()[i as int][0].text) + width::cols(v.lines()[i as int][1].text)
            <= usize::MAX,
        width::cols(v.lines()[i as int][1].text) > 0,
    ensures
        copied(v, SelPos { line: i, col: 0 }, line_end(v, i)) == v.lines()[i as int][1].text,
{
    let line = v.lines()[i as int];
    let body = line[1].text;
    let from = SelPos { line: i, col: 0 };
    let end = line_end(v, i);
    lemma_line_cols(line);
    lemma_copied(v, from, end);
    assert(line =~= style::pair_line(line[0].text, line[0].style, line[1].text, line[1].style));
    drawing::lemma_pair_body(line[0].text, line[0].style, line[1].text, line[1].style);
    assert(selection::body_text(line) == body);
    assert(wrap::line_cols(line) == width::cols(line[0].text) + width::cols(body)) by {
        reveal_with_fuel(wrap::line_cols, 3);
        assert(line.drop_last().last() == line[0]);
        assert(line.drop_last().drop_last() =~= Seq::<style::SpanView>::empty());
    }
    let max = width::cols(body) as nat;
    assert(selection::extracted(line, 0, wrap::line_cols(line)) == selection::sliced(body, 0, max));
    assert(selection::reaching(body, 0, 0) == 0);
    assert(body.skip(0) =~= body);
    assert(selection::sliced(body, 0, max) =~= body);
    let none = v.text_between(from, end, i as nat);
    assert(none.len() == 0);
    assert(v.text_between(from, end, i as nat + 1) =~= body);
}

/// Whether a text takes one column for each of its characters, and so does each of
/// its ends.
pub open spec fn one_column_each(t: Seq<char>) -> bool {
    &&& forall|k: int| 0 <= k < t.len() ==> width::glyph(#[trigger] t[k]) == 1
    &&& forall|k: int| 0 <= k <= t.len() ==> width::cols(#[trigger] t.skip(k)) == t.len() - k
}

proof fn lemma_glyphs_count(t: Seq<char>, k: int)
    requires
        0 <= k <= t.len(),
        forall|j: int| 0 <= j < t.len() ==> width::glyph(#[trigger] t[j]) == 1,
    ensures
        width::glyphs(t.take(k)) == k,
    decreases k,
{
    if k > 0 {
        lemma_glyphs_count(t, k - 1);
        assert(t.take(k).drop_last() =~= t.take(k - 1));
        assert(t.take(k).last() == t[k - 1]);
    } else {
        assert(t.take(0) =~= Seq::<char>::empty());
    }
}

proof fn lemma_reaching_count(t: Seq<char>, n: nat, i: nat)
    requires
        i <= n <= t.len(),
        forall|j: int| 0 <= j < t.len() ==> width::glyph(#[trigger] t[j]) == 1,
    ensures
        selection::reaching(t, n, i) == n,
    decreases n - i,
{
    lemma_glyphs_count(t, i as int);
    if i < n {
        lemma_glyphs_count(t, i as int + 1);
        lemma_reaching_count(t, n, i + 1);
    }
}

proof fn lemma_leaving_count(t: Seq<char>, n: nat, i: nat)
    requires
        i <= n <= t.len(),
        forall|j: int| 0 <= j < t.len() ==> width::glyph(#[trigger] t[j]) == 1,
    ensures
        selection::leaving(t, n, i) == n,
    decreases n - i,
{
    lemma_glyphs_count(t, i as int);
    if i < n {
        lemma_leaving_count(t, n, i + 1);
    } else if n < t.len() {
        assert(width::glyph(t[n as int]) == 1);
    }
}

/// In a line whose characters take one column each, the characters between two
/// columns are copied, counted from behind the gutter.
pub proof fn columns_are_characters(v: TranscriptView, i: usize, a: nat, b: nat)
    requires
        i < v.lines().len(),
        v.lines()[i as int].len() == 2,
        width::cols(v.lines()[i as int][0].text) == 2 || width::cols(v.lines()[i as int][0].text)
            == 3,
        one_column_each(v.lines()[i as int][1].text),
        a <= b <= v.lines()[i as int][1].text.len(),
        width::cols(v.lines()[i as int][0].text) + b <= usize::MAX,
    ensures
        ({
            let line = v.lines()[i as int];
            let g = width::cols(line[0].text);
            copied(
                v,
                SelPos { line: i, col: (g + a) as usize },
                SelPos { line: i, col: (g + b) as usize },
            ) == line[1].text.subrange(a as int, b as int)
        }),
{
    let line = v.lines()[i as int];
    let g = width::cols(line[0].text);
    let body = line[1].text;
    let from = SelPos { line: i, col: (g + a) as usize };
    let to = SelPos { line: i, col: (g + b) as usize };
    lemma_copied(v, from, to);
    assert(line =~= style::pair_line(line[0].text, line[0].style, line[1].text, line[1].style));
    drawing::lemma_pair_body(line[0].text, line[0].style, line[1].text, line[1].style);
    assert(body.skip(0) =~= body);
    assert(width::cols(body.skip(0)) == body.len());
    assert(width::cols(body.skip(a as int)) == body.len() - a);
    lemma_reaching_count(body, a, 0);
    lemma_leaving_count(body, b, a);
    assert(selection::extracted(line, from.col as nat, to.col as nat) =~= body.subrange(
        a as int,
        b as int,
    ));
    let none = v.text_between(from, to, i as nat);
    assert(none.len() == 0);
    assert(v.text_between(from, to, i as nat + 1) =~= body.subrange(a as int, b as int));
}

/// Turning the wheel up over the transcript moves the first line shown up by
/// three lines, no further than the first line there is; turning it down moves it
/// down by three, no further than the last lines fill the view. Nothing else moves,
/// and beside the transcript the wheel does nothing.
pub proof fn the_wheel_scrolls(v: TranscriptView, mouse: MouseEvent, now: u64, clipboard: bool)
    ensures
        ({
            let next = v.after_mouse(mouse, now, clipboard);
            let top = v.current_top() as int;
            let last = if v.total() > v.height() {
                v.total() - v.height()
            } else {
                0
            };
            let inside = v.area.holds(mouse.column, mouse.row);
            &&& mouse.kind == MouseEventKind::ScrollUp && inside ==> {
                &&& next.current_top() == if top >= 3 {
                    top - 3
                } else {
                    0
                }
                &&& next.top is Some
                &&& next.lines() == v.lines()
                &&& next.rows == v.rows
                &&& next.select_anchor == v.select_anchor
                &&& next.select_head == v.select_head
            }
            &&& mouse.kind == MouseEventKind::ScrollDown && inside ==> {
                &&& next.current_top() == if top + 3 <= last {
                    top + 3
                } else {
                    last
                }
                &&& top <= last ==> next.current_top() >= top
                &&& next.top is None <==> next.current_top() == last
                &&& next.lines() == v.lines()
                &&& next.rows == v.rows
                &&& next.select_anchor == v.select_anchor
                &&& next.select_head == v.select_head
            }
            &&& (mouse.kind == MouseEventKind::ScrollUp || mouse.kind
                == MouseEventKind::ScrollDown) ==> v.mouse_answer(mouse, clipboard) == (
                inside,
                false,
            )
            &&& (mouse.kind == MouseEventKind::ScrollUp || mouse.kind
                == MouseEventKind::ScrollDown) && !inside ==> next == v
        }),
{
}

/// The rows of the view show the lines from the first shown on, one each.
pub proof fn rows_of_the_view_show_lines(
    v: TranscriptView,
    r: nat,
    frame: u64,
    shades: Seq<u8>,
)
    requires
        v.current_top() + r < v.lines().len() <= usize::MAX,
        r < v.height(),
        v.hovered is None,
        v.live_header() is None,
        !v.caret_on(frame),
    ensures
        r < v.screen(frame, shades).len(),
        style::line_text(v.screen(frame, shades)[r as int]) == style::line_text(
            v.lines()[v.current_top() + r as int],
        ),
        v.selection() is None ==> v.screen(frame, shades)[r as int] == v.lines()[v.current_top()
            + r as int],
{
    laws::selection_keeps_the_text(v, v.first_line() + r, frame, shades);
}

/// A cell of the view stands for the column of the line that its row shows; behind
/// the line's last column for the line's end.
pub proof fn cells_stand_for_what_they_show(v: TranscriptView, column: u16, row: u16)
    requires
        v.area.holds(column, row),
        v.lines().len() <= usize::MAX,
        v.current_top() + (row - v.area.y) < v.lines().len(),
    ensures
        ({
            let pos = v.pos_at(column, row);
            let w = v.width_at(pos.line as nat);
            &&& pos.line == v.current_top() + (row - v.area.y)
            &&& pos.col == if column - v.area.x <= w {
                column - v.area.x
            } else {
                w as int
            }
        }),
{
    lemma_line_cols(v.lines()[v.current_top() + (row - v.area.y)]);
}

/// Pressing the button on a line that folds nothing, and drawing to another cell,
/// selects what stands between the two; the lines stay where they are. Letting go
/// there copies it.
#[verifier::rlimit(60)]
pub proof fn dragging_selects_between(
    v: TranscriptView,
    down: MouseEvent,
    drag: MouseEvent,
    now: u64,
    later: u64,
)
    requires
        v.lines().len() > 0,
        down.kind == MouseEventKind::Down(MouseButton::Left),
        drag.kind == MouseEventKind::Drag(MouseButton::Left),
        v.area.holds(down.column, down.row),
        v.header_at(down.column, down.row) is None,
    ensures
        ({
            let pressed = v.after_mouse(down, now, true);
            let drawn = pressed.after_mouse(drag, later, true);
            let up = MouseEvent { kind: MouseEventKind::Up(MouseButton::Left), ..drag };
            let from = v.pos_at(down.column, down.row);
            let to = v.pos_at(drag.column, drag.row);
            &&& pressed.dragging
            &&& pressed.selection() is None
            &&& drawn.lines() == v.lines()
            &&& drawn.current_top() == v.current_top()
            &&& (match drawn.selected() {
                Some(t) => t,
                None => Seq::empty(),
            }) == copied(v, from, to)
            &&& drawn.mouse_answer(up, true) == (true, copied(v, from, to).len() > 0)
            &&& !drawn.after_mouse(up, later, true).dragging
        }),
{
    let from = v.pos_at(down.column, down.row);
    let to = v.pos_at(drag.column, drag.row);
    let pressed = TranscriptView {
        last_click: None,
        select_anchor: Some(from),
        select_head: Some(from),
        dragging: true,
        ..v
    };
    lemma_press(v, down, now);
    let drawn = TranscriptView { select_head: Some(to), ..pressed };
    lemma_drag(pressed, drag, later, to);
    let up = MouseEvent { kind: MouseEventKind::Up(MouseButton::Left), ..drag };
    let sel = TranscriptView { select_anchor: Some(from), select_head: Some(to), ..v };
    lemma_same_selected(drawn, sel);
    lemma_release(drawn, up, later);
}

proof fn lemma_press(v: TranscriptView, down: MouseEvent, now: u64)
    requires
        v.total() > 0,
        down.kind == MouseEventKind::Down(MouseButton::Left),
        v.area.holds(down.column, down.row),
        v.header_at(down.column, down.row) is None,
    ensures
        ({
            let from = v.pos_at(down.column, down.row);
            v.after_mouse(down, now, true) == TranscriptView {
                last_click: None,
                select_anchor: Some(from),
                select_head: Some(from),
                dragging: true,
                ..v
            }
        }),
{
}

proof fn lemma_drag(v: TranscriptView, drag: MouseEvent, later: u64, to: SelPos)
    requires
        v.dragging,
        v.total() > 0,
        v.pos_at(drag.column, drag.row) == to,
        drag.kind == MouseEventKind::Drag(MouseButton::Left),
    ensures
        v.after_mouse(drag, later, true) == (TranscriptView { select_head: Some(to), ..v }),
        (TranscriptView { select_head: Some(to), ..v }).pos_at(drag.column, drag.row) == to,
{
}

proof fn lemma_same_selected(a: TranscriptView, b: TranscriptView)
    requires
        a.lines() == b.lines(),
        a.select_anchor == b.select_anchor,
        a.select_head == b.select_head,
    ensures
        a.selection() == b.selection(),
        a.selected() == b.selected(),
{
    if let Some((start, end)) = a.selection() {
        laws::lemma_same_text(a, b, start, end, end.line as nat + 1);
    }
}

proof fn lemma_release(v: TranscriptView, up: MouseEvent, later: u64)
    requires
        v.dragging,
        v.total() > 0,
        up.kind == MouseEventKind::Up(MouseButton::Left),
        v.select_head == Some(v.pos_at(up.column, up.row)),
    ensures
        v.mouse_answer(up, true) == (true, v.selected() is Some),
        !v.after_mouse(up, later, true).dragging,
{
    assert(v.at_release(up.column, up.row) == v);
    lemma_same_selected(v, TranscriptView { dragging: false, ..v });
}

/// The second click on a header within half a second folds its body, or unfolds
/// it; one on another line or later starts a selection.
pub proof fn double_clicks_fold(v: TranscriptView, down: MouseEvent, now: u64, clipboard: bool)
    requires
        down.kind == MouseEventKind::Down(MouseButton::Left),
        v.area.holds(down.column, down.row),
        v.header_at(down.column, down.row) is Some,
        v.lines().len() > 0,
    ensures
        ({
            let next = v.after_mouse(down, now, clipboard);
            let (r, header) = v.header_at(down.column, down.row)->0;
            let second = v.last_click matches Some((last, at)) && last.line == header.line && now
                <= at + 500;
            &&& second ==> {
                &&& next.rows.len() == v.rows.len()
                &&& next.select_anchor is None
                &&& next.select_head is None
                &&& next.last_click is None
                &&& r < v.rows.len() && v.rows[r as int].collapsible is Some && header.path.len()
                    == 0 ==> {
                    &&& next.rows[r as int].collapsible matches Some(c) && c.expanded
                        == !v.rows[r as int].collapsible->0.expanded
                    &&& next.rows[r as int].text == v.rows[r as int].text
                    &&& forall|i: int|
                        0 <= i < v.rows.len() && i != r ==> (#[trigger] next.rows[i]).collapsible
                            == v.rows[i].collapsible && next.rows[i].text == v.rows[i].text
                }
            }
            &&& !second ==> {
                &&& next.rows == v.rows
                &&& next.last_click == Some((header, now))
                &&& next.dragging
                &&& next.select_anchor == Some(v.pos_at(down.column, down.row))
            }
        }),
{
    reveal(TranscriptView::with_toggled);
    reveal(TranscriptView::rewrapped);
    let (r, header) = v.header_at(down.column, down.row)->0;
    if r < v.rows.len() && v.rows[r as int].collapsible is Some {
        reveal_with_fuel(super::collapsible::toggled_at, 2);
        reveal_with_fuel(super::collapsible::leads_to_item, 2);
    }
}

proof fn lemma_header_on(headers: Seq<kinds::HeaderView>, line: nat, i: nat)
    ensures
        match model::header_on(headers, line, i) {
            Some(j) => i <= j < headers.len() && headers[j as int].line == line,
            None => forall|k: int| i <= k < headers.len() ==> (#[trigger] headers[k]).line != line,
        },
    decreases headers.len() - i,
{
    if i < headers.len() && headers[i as int].line != line {
        lemma_header_on(headers, line, i + 1);
    }
}

proof fn lemma_row_header_on(rows: Seq<model::RowView>, line: nat, i: nat)
    ensures
        match model::row_header_on(rows, line, i) {
            Some((r, h)) => i <= r < rows.len() && h.line == line && rows[r as int].headers.contains(
                h,
            ),
            None => forall|r: int, k: int|
                i <= r < rows.len() && 0 <= k < rows[r].headers.len() ==> (
                #[trigger] rows[r].headers[k]).line != line,
        },
    decreases rows.len() - i,
{
    if i < rows.len() {
        lemma_header_on(rows[i as int].headers, line, 0);
        match model::header_on(rows[i as int].headers, line, 0) {
            Some(j) => {
                assert(rows[i as int].headers.contains(rows[i as int].headers[j as int]));
            },
            None => {
                lemma_row_header_on(rows, line, i + 1);
            },
        }
    }
}

/// A cell of the screen points at a header exactly where the line that it shows is
/// one, and then at that one.
pub proof fn cells_point_at_their_headers(v: TranscriptView, column: u16, row: u16)
    ensures
        ({
            let line = v.pos_at(column, row).line as nat;
            match v.header_at(column, row) {
                Some((r, h)) => r < v.rows.len() && h.line == line
                    && v.rows[r as int].headers.contains(h),
                None => forall|r: int, k: int|
                    0 <= r < v.rows.len() && 0 <= k < v.rows[r].headers.len() ==> (
                    #[trigger] v.rows[r].headers[k]).line != line,
            }
        }),
{
    lemma_row_header_on(v.rows, v.pos_at(column, row).line as nat, 0);
}

/// Laying the transcript out keeps the place that was scrolled to while there is
/// more below it than the view shows, follows again where there is not, and goes on
/// following where it did.
pub proof fn layout_keeps_the_place(v: TranscriptView, area: style::Rect)
    ensures
        ({
            let next = v.laid_out(area);
            &&& v.top is None ==> next.top is None
            &&& (v.top matches Some(t) ==> t + area.height < next.total() ==> next.top == v.top)
            &&& (v.top matches Some(t) ==> t + area.height >= next.total() ==> next.top is None)
        }),
{
    reveal(TranscriptView::laid_out);
    reveal(TranscriptView::rewrapped);
}

/// Where everything is drawn anew, the ends of a selection lie in the lines there
/// are, and stay where they were if they did before.
pub proof fn selections_stay_in_the_lines(v: TranscriptView)
    requires
        v.rewrapped().total() > 0,
    ensures
        ({
            let next = v.rewrapped();
            &&& (next.select_anchor matches Some(p) ==> p.line < next.total() && p.col
                <= next.width_at(p.line as nat))
            &&& (next.select_head matches Some(p) ==> p.line < next.total() && p.col
                <= next.width_at(p.line as nat))
            &&& (v.select_anchor matches Some(p) ==> p.line < next.total() && p.col
                <= next.width_at(p.line as nat) ==> next.select_anchor == v.select_anchor)
            &&& (v.select_head matches Some(p) ==> p.line < next.total() && p.col
                <= next.width_at(p.line as nat) ==> next.select_head == v.select_head)
            &&& v.select_anchor is Some <==> next.select_anchor is Some
        }),
{
    reveal(TranscriptView::rewrapped);
    let next = v.rewrapped();
    let drawn = v.redrawn().with_stream();
    assert(drawn.lines() == next.lines());
    if let Some(p) = v.select_anchor {
        lemma_width_at(drawn, p.line as nat);
        lemma_width_at(drawn, (drawn.total() - 1) as nat);
    }
    if let Some(p) = v.select_head {
        lemma_width_at(drawn, p.line as nat);
        lemma_width_at(drawn, (drawn.total() - 1) as nat);
    }
}

proof fn lemma_width_at(v: TranscriptView, idx: nat)
    ensures
        v.width_at(idx) <= usize::MAX,
{
    if idx < v.lines().len() {
        lemma_line_cols(v.lines()[idx as int]);
    }
}

/// Drawing from one cell to another and letting go there asks for a copy of what
/// stands between the two, all of it and nothing else; while the button is held
/// down no copy is asked for.
#[verifier::rlimit(60)]
pub proof fn the_drawn_text_is_asked_for(
    v: TranscriptView,
    down: MouseEvent,
    drag: MouseEvent,
    now: u64,
    later: u64,
)
    requires
        v.lines().len() > 0,
        down.kind == MouseEventKind::Down(MouseButton::Left),
        drag.kind == MouseEventKind::Drag(MouseButton::Left),
        v.area.holds(down.column, down.row),
        v.header_at(down.column, down.row) is None,
    ensures
        ({
            let pressed = v.after_mouse(down, now, true);
            let drawn = pressed.after_mouse(drag, later, true);
            let up = MouseEvent { kind: MouseEventKind::Up(MouseButton::Left), ..drag };
            let text = copied(v, v.pos_at(down.column, down.row), v.pos_at(drag.column, drag.row));
            &&& v.wanted_copy(down) is None
            &&& pressed.wanted_copy(drag) is None
            &&& text.len() > 0 ==> drawn.wanted_copy(up) == Some(text)
            &&& text.len() == 0 ==> drawn.wanted_copy(up) is None || drawn.wanted_copy(up)
                == Some(text)
            &&& drawn.before_copy(up).lines() == v.lines()
            &&& drawn.before_copy(up).current_top() == v.current_top()
        }),
{
    let from = v.pos_at(down.column, down.row);
    let to = v.pos_at(drag.column, drag.row);
    let pressed = TranscriptView {
        last_click: None,
        select_anchor: Some(from),
        select_head: Some(from),
        dragging: true,
        ..v
    };
    lemma_press(v, down, now);
    let drawn = TranscriptView { select_head: Some(to), ..pressed };
    lemma_drag(pressed, drag, later, to);
    let up = MouseEvent { kind: MouseEventKind::Up(MouseButton::Left), ..drag };
    let sel = TranscriptView { select_anchor: Some(from), select_head: Some(to), ..v };
    lemma_same_selected(drawn, sel);
    assert(drawn.before_copy(up) == drawn);
    dragging_selects_between(v, down, drag, now, later);
}

} // verus!
