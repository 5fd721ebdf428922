//! What the mouse does to the transcript.
use vstd::prelude::*;

use super::laws;
use super::model::TranscriptView;
use super::selection;
use crate::components::component;
use crate::components::transcript::drawing;
use crate::components::transcript::pointer::lemma_line_cols;
use crate::components::transcript::selection::SelPos;
use crate::components::transcript::wrap;
use crate::keys::{MouseButton, MouseEvent, MouseEventKind};
use crate::style;
use crate::width;

verus! {

/// The text between two positions, as a selection of it is copied: nothing where
/// there is none.
pub open spec fn copied(v: TranscriptView, a: SelPos, b: SelPos) -> Seq<char> {
    match (TranscriptView { select_anchor: Some(a), select_head: Some(b), ..v }).selected() {
        Some(t) => t,
        None => Seq::empty(),
    }
}

/// The end of a line.
pub open spec fn line_end(v: TranscriptView, line: usize) -> SelPos {
    SelPos { line, col: wrap::line_cols(v.lines()[line as int]) as usize }
}

proof fn lemma_copied(v: TranscriptView, a: SelPos, b: SelPos)
    requires
        a.at_most(b),
        b.line < v.lines().len(),
    ensures
        copied(v, a, b) == v.text_between(a, b, b.line as nat + 1),
{
    let w = TranscriptView { select_anchor: Some(a), select_head: Some(b), ..v };
    laws::lemma_same_text(w, v, a, b, b.line as nat + 1);
    let t = v.text_between(a, b, b.line as nat + 1);
    if a == b {
        assert(v.text_between(a, b, a.line as nat).len() == 0);
        assert(t =~= Seq::<char>::empty());
    } else if t.len() == 0 {
        assert(t =~= Seq::<char>::empty());
    }
}

proof fn lemma_other_end(v: TranscriptView, a: SelPos, b: SelPos, c: SelPos, idx: nat)
    requires
        idx <= b.line,
        idx <= c.line + 1,
        c.line < v.lines().len(),
        idx == c.line + 1 ==> c.col == wrap::line_cols(v.lines()[c.line as int]),
    ensures
        v.text_between(a, b, idx) == v.text_between(a, c, idx),
    decreases idx,
{
    if idx > a.line {
        lemma_other_end(v, a, b, c, (idx - 1) as nat);
    }
}

proof fn lemma_other_start(v: TranscriptView, a: SelPos, b: SelPos, i: usize, idx: nat)
    requires
        a.line <= i < b.line < v.lines().len(),
        i < idx <= b.line + 1,
    ensures
        ({
            let head = v.text_between(a, b, i as nat + 1);
            let rest = v.text_between(SelPos { line: (i + 1) as usize, col: 0 }, b, idx);
            idx > i + 1 ==> v.text_between(a, b, idx) == head + seq!['\n'] + rest
        }),
    decreases idx,
{
    let head = v.text_between(a, b, i as nat + 1);
    let from = SelPos { line: (i + 1) as usize, col: 0 };
    if idx > i + 2 {
        lemma_other_start(v, a, b, i, (idx - 1) as nat);
        let last = v.lines()[idx - 1];
        let to = if idx - 1 == b.line {
            b.col as nat
        } else {
            wrap::line_cols(last)
        };
        let piece = selection::extracted(last, 0, to);
        let rest = v.text_between(from, b, (idx - 1) as nat);
        assert(head + seq!['\n'] + rest + seq!['\n'] + piece =~= head + seq!['\n'] + (rest
            + seq!['\n'] + piece));
    } else if idx == i + 2 {
        let last = v.lines()[idx - 1];
        let to = if idx - 1 == b.line {
            b.col as nat
        } else {
            wrap::line_cols(last)
        };
        let piece = selection::extracted(last, 0, to);
        let none = Seq::<char>::empty();
        assert(v.text_between(from, b, i as nat + 1) == none);
        assert(v.text_between(from, b, idx) =~= piece);
        assert(v.text_between(a, b, idx) =~= head + seq!['\n'] + piece);
    }
}

/// A selection over several lines is copied line by line: up to the end of a line,
/// a line break, and from the start of the next line on.
pub proof fn selections_split_at_line_ends(v: TranscriptView, a: SelPos, b: SelPos, i: usize)
    requires
        a.line <= i < b.line < v.lines().len(),
        a.col <= v.width_at(a.line as nat),
    ensures
        copied(v, a, b) == copied(v, a, line_end(v, i)) + seq!['\n'] + copied(
            v,
            SelPos { line: (i + 1) as usize, col: 0 },
            b,
        ),
{
    let end = line_end(v, i);
    let from = SelPos { line: (i + 1) as usize, col: 0 };
    lemma_line_cols(v.lines()[i as int]);
    lemma_copied(v, a, b);
    lemma_copied(v, a, end);
    lemma_copied(v, from, b);
    lemma_other_end(v, a, b, end, i as nat + 1);
    lemma_other_start(v, a, b, i, b.line as nat + 1);
}

/// What stands behind the gutter of a line is copied whole where the line is
/// selected from its start to its end, and nothing of the gutter.
pub proof fn whole_lines_are_copied(v: TranscriptView, i: usize)
    requires
        i < v.lines().len(),
        v.lines()[i as int].len() == 2,
        width::cols(v.lines()[i as int][0].text) == 2,
        2 + width::cols(v.lines()[i as int][1].text) <= usize::MAX,
        width::cols(v.lines()[i as int][1].text) > 0,
        v.lines()[i as int][1].text.len() > 0,
    ensures
        copied(v, SelPos { line: i, col: 0 }, line_end(v, i)) == v.lines()[i as int][1].text,
{
    let line = v.lines()[i as int];
    let body = line[1].text;
    let from = SelPos { line: i, col: 0 };
    let end = line_end(v, i);
    lemma_line_cols(line);
    lemma_copied(v, from, end);
    assert(line =~= style::pair_line(line[0].text, line[0].style, line[1].text, line[1].style));
    drawing::lemma_pair_body(line[0].text, line[0].style, line[1].text, line[1].style);
    assert(selection::body_text(line) == body);
    assert(wrap::line_cols(line) == 2 + width::cols(body)) by {
        reveal_with_fuel(wrap::line_cols, 3);
        assert(line.drop_last().last() == line[0]);
        assert(line.drop_last().drop_last() =~= Seq::<style::SpanView>::empty());
    }
    let max = width::cols(body) as nat;
    assert(selection::starting(body, 0, 0) == 0);
    assert(body.skip(0) =~= body);
    assert(body.take(body.len() as int) =~= body);
    assert(selection::extracted(line, 0, wrap::line_cols(line)) =~= body);
    let none = v.text_between(from, end, i as nat);
    assert(none.len() == 0);
    assert(v.text_between(from, end, i as nat + 1) =~= body);
}

/// Turning the wheel up over the transcript moves the first line shown up by
/// three lines, no further than the first line there is; turning it down moves it
/// down by three, no further than the last lines fill the view. Nothing else moves,
/// and beside the transcript the wheel does nothing.
pub proof fn the_wheel_scrolls(v: TranscriptView, mouse: MouseEvent, clipboard: bool)
    requires
        v.view_height > 0,
    ensures
        ({
            let next = v.after_mouse(mouse, clipboard);
            let top = v.current_top() as int;
            let last = if v.total() > v.view_height {
                v.total() - v.view_height
            } else {
                0
            };
            let inside = v.area.holds(mouse.column, mouse.row);
            let wheel = mouse.kind == MouseEventKind::ScrollUp || mouse.kind
                == MouseEventKind::ScrollDown;
            &&& mouse.kind == MouseEventKind::ScrollUp && inside ==> {
                &&& next.current_top() == if top >= 3 {
                    top - 3
                } else {
                    0
                }
                &&& !next.pinned
            }
            &&& mouse.kind == MouseEventKind::ScrollDown && inside ==> {
                &&& next.current_top() == if top + 3 <= last {
                    top + 3
                } else {
                    last
                }
                &&& top <= last ==> next.current_top() >= top
                &&& next.pinned <==> next.current_top() + v.view_height >= v.total()
            }
            &&& wheel && inside ==> next.lines() == v.lines() && next.rows == v.rows
                && next.select_anchor == v.select_anchor && next.select_head == v.select_head
                && v.mouse_answer(mouse, clipboard) == component::KeyResultView::Handled
            &&& wheel && !inside ==> next == v && v.mouse_answer(mouse, clipboard)
                == component::KeyResultView::Ignored
        }),
{
}

/// The rows of the view show the lines from the first shown on, one each.
pub proof fn rows_of_the_view_show_lines(v: TranscriptView, r: nat)
    requires
        v.current_top() + r < v.lines().len() <= usize::MAX,
        r < v.view_height,
        v.selection() is None,
    ensures
        r < v.screen().len() <= v.view_height,
        v.screen()[r as int] == v.lines()[v.current_top() + r as int],
{
}

/// A cell of the view stands for the column of the line that its row shows; behind
/// the line's last column for the line's end.
pub proof fn cells_stand_for_what_they_show(v: TranscriptView, column: u16, row: u16)
    requires
        v.area.holds(column, row),
        v.lines().len() <= usize::MAX,
        v.current_top() + (row - v.area.y) < v.lines().len(),
    ensures
        ({
            let pos = v.pos_at(column, row);
            let w = v.width_at(pos.line as nat);
            &&& pos.line == v.current_top() + (row - v.area.y)
            &&& pos.col == if column - v.area.x <= w {
                column - v.area.x
            } else {
                w as int
            }
        }),
{
    lemma_line_cols(v.lines()[v.current_top() + (row - v.area.y)]);
}

proof fn lemma_same_selected(a: TranscriptView, b: TranscriptView)
    requires
        a.lines() == b.lines(),
        a.select_anchor == b.select_anchor,
        a.select_head == b.select_head,
    ensures
        a.selection() == b.selection(),
        a.selected() == b.selected(),
{
    if let Some((start, end)) = a.selection() {
        laws::lemma_same_text(a, b, start, end, end.line as nat + 1);
    }
}

/// Pressing the button on a line, and drawing to another cell, selects what stands
/// between the two; the lines stay where they are. Letting go there copies it.
#[verifier::rlimit(60)]
pub proof fn dragging_selects_between(v: TranscriptView, down: MouseEvent, drag: MouseEvent)
    requires
        v.lines().len() > 0,
        down.kind == MouseEventKind::Down(MouseButton::Left),
        drag.kind == MouseEventKind::Drag(MouseButton::Left),
        v.area.holds(down.column, down.row),
    ensures
        ({
            let pressed = v.after_mouse(down, true);
            let drawn = pressed.after_mouse(drag, true);
            let up = MouseEvent { kind: MouseEventKind::Up(MouseButton::Left), ..drag };
            let from = v.pos_at(down.column, down.row);
            let to = v.pos_at(drag.column, drag.row);
            &&& pressed.dragging
            &&& pressed.selection() is None
            &&& drawn.lines() == v.lines()
            &&& drawn.current_top() == v.current_top()
            &&& (match drawn.selected() {
                Some(t) => t,
                None => Seq::empty(),
            }) == copied(v, from, to)
            &&& drawn.mouse_answer(up, true) == (if copied(v, from, to).len() > 0 {
                component::KeyResultView::Action(component::ActionView::Notify("Copied!"@))
            } else {
                component::KeyResultView::Handled
            })
            &&& !drawn.after_mouse(up, true).dragging
        }),
{
    let from = v.pos_at(down.column, down.row);
    let to = v.pos_at(drag.column, drag.row);
    let pressed = TranscriptView {
        select_anchor: Some(from),
        select_head: Some(from),
        dragging: true,
        ..v
    };
    assert(v.after_mouse(down, true) == pressed);
    let drawn = TranscriptView { select_head: Some(to), ..pressed };
    lemma_drag(pressed, drag, to);
    let sel = TranscriptView { select_anchor: Some(from), select_head: Some(to), ..v };
    lemma_same_selected(drawn, sel);
}

proof fn lemma_drag(v: TranscriptView, drag: MouseEvent, to: SelPos)
    requires
        v.dragging,
        v.total() > 0,
        v.pos_at(drag.column, drag.row) == to,
        drag.kind == MouseEventKind::Drag(MouseButton::Left),
    ensures
        v.after_mouse(drag, true) == (TranscriptView { select_head: Some(to), ..v }),
        (TranscriptView { select_head: Some(to), ..v }).pos_at(drag.column, drag.row) == to,
{
}

/// Drawing from one cell to another and letting go there asks for a copy of what
/// stands between the two, all of it and nothing else; while the button is held
/// down no copy is asked for.
#[verifier::rlimit(60)]
pub proof fn the_drawn_text_is_asked_for(v: TranscriptView, down: MouseEvent, drag: MouseEvent)
    requires
        v.lines().len() > 0,
        down.kind == MouseEventKind::Down(MouseButton::Left),
        drag.kind == MouseEventKind::Drag(MouseButton::Left),
        v.area.holds(down.column, down.row),
    ensures
        ({
            let pressed = v.after_mouse(down, true);
            let drawn = pressed.after_mouse(drag, true);
            let up = MouseEvent { kind: MouseEventKind::Up(MouseButton::Left), ..drag };
            let text = copied(v, v.pos_at(down.column, down.row), v.pos_at(drag.column, drag.row));
            &&& v.wanted_copy(down) is None
            &&& pressed.wanted_copy(drag) is None
            &&& text.len() > 0 ==> drawn.wanted_copy(up) == Some(text)
            &&& text.len() == 0 ==> drawn.wanted_copy(up) is None || drawn.wanted_copy(up)
                == Some(text)
            &&& drawn.before_copy(up).lines() == v.lines()
            &&& drawn.before_copy(up).current_top() == v.current_top()
        }),
{
    let from = v.pos_at(down.column, down.row);
    let to = v.pos_at(drag.column, drag.row);
    let pressed = TranscriptView {
        select_anchor: Some(from),
        select_head: Some(from),
        dragging: true,
        ..v
    };
    assert(v.after_mouse(down, true) == pressed);
    let drawn = TranscriptView { select_head: Some(to), ..pressed };
    lemma_drag(pressed, drag, to);
    let up = MouseEvent { kind: MouseEventKind::Up(MouseButton::Left), ..drag };
    let sel = TranscriptView { select_anchor: Some(from), select_head: Some(to), ..v };
    lemma_same_selected(drawn, sel);
    assert(drawn.before_copy(up) == drawn);
    dragging_selects_between(v, down, drag);
}

} // verus!
