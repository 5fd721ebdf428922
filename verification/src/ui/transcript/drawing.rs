//! What the lines of a row show of its text.
use vstd::prelude::*;

use super::kinds::LineKind;
use super::model;
use super::model::RowView;
use super::wrap;
use crate::components::transcript::drawing;
use crate::components::transcript::wrap as framed;
use crate::style;
use crate::text;
use crate::width;

verus! {

proof fn lemma_parts(kind: LineKind, parts: Seq<Seq<char>>)
    ensures
        ({
            let acc = wrap::with_parts(kind, parts);
            let shown = framed::shown_parts(parts);
            &&& drawing::bodies(acc.lines) == shown
            &&& forall|i: int|
                0 <= i < acc.lines.len() ==> (#[trigger] acc.lines[i]).len() == 2
                    && acc.lines[i][0].style == kind.style() && acc.lines[i][1].style
                    == style::Style::plain() && acc.lines[i][0].text == if i == 0 {
                    kind.gutter_text()
                } else {
                    "  "@
                }
            &&& acc.lines.len() > 0 && parts.len() > 0 ==> acc.blank == framed::is_blank(
                parts.last(),
            )
            &&& acc.lines.len() == 0 && parts.len() > 0 ==> framed::is_blank(parts.last())
        }),
    decreases parts.len(),
{
    let none = Seq::<char>::empty();
    if parts.len() == 0 {
        assert(drawing::bodies(wrap::with_parts(kind, parts).lines) =~= framed::shown_parts(parts));
    } else {
        let rest = parts.drop_last();
        lemma_parts(kind, rest);
        let acc = wrap::with_parts(kind, rest);
        let now = wrap::with_parts(kind, parts);
        let blank = framed::is_blank(parts.last());
        let head = if acc.lines.len() == 0 {
            kind.gutter_text()
        } else {
            "  "@
        };
        let body = if blank {
            none
        } else {
            parts.last()
        };
        drawing::lemma_pair_body(head, kind.style(), body, style::Style::plain());
        if parts.len() > 1 {
            assert(rest.last() == parts[parts.len() - 2]);
        }
        assert(drawing::bodies(acc.lines).len() == acc.lines.len());
        if blank && (acc.blank || acc.lines.len() == 0) {
            if parts.len() > 1 && !framed::is_blank(parts[parts.len() - 2]) {
                assert(false);
            }
        } else {
            assert(now.lines == acc.lines.push(
                style::pair_line(head, kind.style(), body, style::Style::plain()),
            ));
            assert(drawing::bodies(now.lines) =~= drawing::bodies(acc.lines).push(body));
        }
        assert(drawing::bodies(now.lines) =~= framed::shown_parts(parts));
    }
}

/// Formatting changes no line that has anything to see: behind the gutter the
/// lines that are not empty are exactly those of the text, unchanged and in order.
/// Lines without anything to see become one empty line behind each line that they
/// follow, and none above the first. The first line has the kind's gutter, the
/// others blanks.
pub proof fn formatting_keeps_the_lines(kind: LineKind, t: Seq<char>)
    ensures
        ({
            let lines = text::lines_of(t);
            let made = wrap::formatted(kind, t);
            let shown = drawing::bodies(made);
            &&& made.len() > 0
            &&& drawing::filled(shown) == drawing::inked(lines)
            &&& drawing::inked(lines).len() > 0 ==> shown.len() == drawing::inked(lines).len()
                + drawing::breaks(lines)
            &&& drawing::inked(lines).len() == 0 ==> shown == seq![Seq::<char>::empty()]
            &&& forall|j: int|
                0 <= j < shown.len() && (#[trigger] shown[j]).len() == 0 && shown.len() > 1 ==> j
                    > 0 && shown[j - 1].len() > 0
            &&& forall|i: int|
                0 <= i < made.len() ==> (#[trigger] made[i]).len() == 2 && made[i][0].style
                    == kind.style() && made[i][0].text == if i > 0 {
                    "  "@
                } else if kind == LineKind::User {
                    "› "@
                } else if kind == LineKind::Text {
                    "• "@
                } else if kind == LineKind::Thinking {
                    "· "@
                } else if kind == LineKind::Tool {
                    "$ "@
                } else {
                    "  "@
                }
        }),
{
    let lines = text::lines_of(t);
    let acc = wrap::with_parts(kind, lines);
    let parts = framed::shown_parts(lines);
    lemma_parts(kind, lines);
    drawing::lemma_shown(lines);
    drawing::lemma_breaks(lines);
    assert(drawing::bodies(acc.lines).len() == acc.lines.len());
    let none = Seq::<char>::empty();
    let shown = drawing::bodies(wrap::formatted(kind, t));
    if acc.lines.len() == 0 {
        drawing::lemma_pair_body(kind.gutter_text(), kind.style(), none, style::Style::plain());
        assert(shown =~= seq![none]);
        assert(seq![none].drop_last() =~= Seq::<Seq<char>>::empty());
        reveal_with_fuel(drawing::filled, 2);
    } else {
        if drawing::inked(lines).len() == 0 {
            assert(parts[0].len() > 0);
            drawing::lemma_filled(parts);
        }
    }
}

proof fn lemma_wrapped_bodies(lines: Seq<Seq<style::SpanView>>, width: usize)
    requires
        width > 0,
        forall|i: int| 0 <= i < lines.len() ==> (#[trigger] lines[i]).len() == 2,
    ensures
        framed::concatenated(drawing::bodies(wrap::wrapped_lines(lines, width)))
            == framed::concatenated(drawing::bodies(lines)),
    decreases lines.len(),
{
    if lines.len() == 0 {
        assert(drawing::bodies(wrap::wrapped_lines(lines, width)) =~= drawing::bodies(lines));
    } else {
        let rest = lines.drop_last();
        let last = lines.last();
        assert forall|i: int| 0 <= i < rest.len() implies (#[trigger] rest[i]).len() == 2 by {
            assert(rest[i] == lines[i]);
        }
        lemma_wrapped_bodies(rest, width);
        assert(lines[lines.len() - 1].len() == 2);
        wrap::wrapping_keeps_the_body(last, width);
        let a = wrap::wrapped_lines(rest, width);
        let b = wrap::wrapped_line(last, width);
        assert(drawing::bodies(b) =~= wrap::bodies(b));
        assert(drawing::bodies(a + b) =~= drawing::bodies(a) + drawing::bodies(b));
        framed::lemma_concatenated_add(drawing::bodies(a), drawing::bodies(b));
        assert(drawing::bodies(lines) =~= drawing::bodies(rest).push(drawing::body_of(last)));
        framed::lemma_concatenated_push(drawing::bodies(rest), drawing::body_of(last));
    }
}

/// A row is drawn with all that is to see of its text, whatever the width of the
/// view, behind an empty line below the rows above it, which stay as they are.
pub proof fn rows_show_their_text(rows: Seq<RowView>, row: RowView, width: usize)
    requires
        width > 0,
    ensures
        ({
            let before = model::drawn(rows, width);
            let all = model::drawn(rows.push(row), width);
            let n = if before.len() == 0 {
                0
            } else {
                before.len() as int + 1
            };
            &&& all.take(before.len() as int) == before
            &&& all.len() >= n
            &&& before.len() > 0 ==> style::line_text(all[before.len() as int]).len() == 0
            &&& framed::concatenated(drawing::bodies(all.skip(n))) == framed::concatenated(
                drawing::inked(text::lines_of(row.text)),
            )
        }),
{
    let before = model::drawn(rows, width);
    let all = model::drawn(rows.push(row), width);
    assert(rows.push(row).drop_last() =~= rows);
    let start = framed::gapped(before);
    let lines = wrap::formatted(row.kind, row.text);
    formatting_keeps_the_lines(row.kind, row.text);
    drawing::lemma_filled_concatenated(drawing::bodies(lines));
    lemma_wrapped_bodies(lines, width);
    assert(all.skip(start.len() as int) =~= wrap::row_lines(row.kind, row.text, width));
    assert(all.take(before.len() as int) =~= before);
    if before.len() > 0 {
        assert(all[before.len() as int] == style::blank_line());
        drawing::lemma_blank_line();
    }
}

/// A line wrapped to a width has pieces that fit beside its gutter or are a single
/// character; the first has the line's gutter, the others blanks, and a line that
/// fits stays whole.
pub proof fn wrapped_lines_fit(line: Seq<style::SpanView>, width: usize)
    requires
        line.len() == 2,
        width > 0,
    ensures
        ({
            let rows = wrap::wrapped_line(line, width);
            let max = if width > 3 {
                width - 2
            } else {
                1
            };
            &&& rows.len() > 0
            &&& forall|i: int|
                0 <= i < rows.len() ==> {
                    &&& (#[trigger] rows[i]).len() == 2
                    &&& rows[i][0].style == line[0].style
                    &&& rows[i][0].text == if i == 0 {
                        line[0].text
                    } else {
                        "  "@
                    }
                    &&& width::cols(rows[i][1].text) <= max || width::glyphs(rows[i][1].text) <= max
                        || rows[i][1].text.len() <= 1
                }
            &&& width::cols(line[1].text) <= max ==> rows.len() == 1
        }),
{
    let rows = wrap::wrapped_line(line, width);
    assert(line =~= style::pair_line(line[0].text, line[0].style, line[1].text, line[1].style));
    drawing::lemma_pair_body(line[0].text, line[0].style, line[1].text, line[1].style);
    let body = line[1].text;
    let max = wrap::body_cols(width);
    if body.len() > 0 {
        framed::wrapping_loses_nothing(body, max);
        assert forall|i: int| 0 <= i < rows.len() implies (width::cols(
            (#[trigger] rows[i])[1].text,
        ) <= max || width::glyphs(rows[i][1].text) <= max || rows[i][1].text.len() <= 1) by {
            drawing::lemma_chunks_fit(body, max, i);
        }
        if width::cols(body) <= max {
            assert(body.skip(body.len() as int) =~= Seq::<char>::empty());
            assert(framed::chunks(body.skip(body.len() as int), max).len() == 0);
        }
    }
}

} // verus!
