//! Rows as lines of the screen.
use vstd::prelude::*;
use vstd::string::*;

use super::kinds::{LineKind, LINE_INDENT, LINE_PREFIX_WIDTH};
use crate::components::queue;
use crate::components::queue::first_line_of;
use crate::components::transcript::wrap;
use crate::components::transcript::wrap::{chunk_text, trim_message};
use crate::seqs;
use crate::style::{Line, Style};
use crate::style;
use crate::text;

verus! {

broadcast use crate::seqs::views_push;

/// Lines of a tool's output that the transcript keeps.
pub const MAX_RESULT_LINES: usize = 6;

/// Reasoning as the transcript keeps it: its first line, with an ellipsis where
/// there are more.
pub open spec fn collapsed_thinking(t: Seq<char>) -> Seq<char> {
    let body = wrap::message_text(t);
    let first = text::trimmed_end(queue::first_line(body));
    if text::lines_of(body).len() > 1 {
        first.push('…')
    } else {
        first
    }
}

/// Cuts reasoning to its first line.
pub fn collapse_thinking(t: &str) -> (out: String)
    ensures
        out@ == collapsed_thinking(t@),
{
    let body = trim_message(t);
    let first = first_line_of(body.as_str());
    let mut out = text::trim_end(first.as_str());
    let lines = text::lines(body.as_str());
    assert(seqs::views(lines@).len() == lines@.len());
    if lines.len() > 1 {
        out.push('…');
    }
    out
}

/// A tool's output as the transcript keeps it: its first lines, and how many
/// there were behind them.
pub open spec fn truncated_result(t: Seq<char>) -> Seq<char> {
    let lines = text::lines_of(t);
    if lines.len() <= MAX_RESULT_LINES {
        t
    } else {
        text::joined(lines.take(MAX_RESULT_LINES as int), "\n"@) + "\n… "@ + text::decimal(
            (lines.len() - MAX_RESULT_LINES) as nat,
        ) + " more"@
    }
}

/// Cuts a tool's output to its first lines.
pub fn truncate_result(t: &str) -> (out: String)
    ensures
        out@ == truncated_result(t@),
{
    let lines = text::lines(t);
    let ghost all = seqs::views(lines@);
    if lines.len() <= MAX_RESULT_LINES {
        return t.to_owned();
    }
    let mut head: Vec<String> = Vec::new();
    let mut i: usize = 0;
    assert(seqs::views(head@) =~= all.take(0));
    while i < MAX_RESULT_LINES
        invariant
            i <= MAX_RESULT_LINES < lines@.len(),
            all == seqs::views(lines@),
            seqs::views(head@) == all.take(i as int),
        decreases MAX_RESULT_LINES - i,
    {
        assert(all.take(i + 1) =~= all.take(i as int).push(all[i as int]));
        head.push(lines[i].clone());
        i += 1;
    }
    let mut out = text::join(&head, "\n");
    out.append("\n… ");
    out.append(text::decimal_of((lines.len() - MAX_RESULT_LINES) as u64).as_str());
    out.append(" more");
    out
}

/// A row's text as the transcript keeps it.
pub open spec fn kept_text(kind: LineKind, t: Seq<char>) -> Seq<char> {
    match kind {
        LineKind::Thinking => collapsed_thinking(t),
        LineKind::ToolResult(_) => truncated_result(t),
        _ => t,
    }
}

/// A row's text as the transcript keeps it.
pub fn keep_text(kind: LineKind, t: &str) -> (out: String)
    ensures
        out@ == kept_text(kind, t@),
{
    match kind {
        LineKind::Thinking => collapse_thinking(t),
        LineKind::ToolResult(_) => truncate_result(t),
        _ => t.to_owned(),
    }
}

/// A line of a row.
pub open spec fn body_line(head: Seq<char>, s: Style, body: Seq<char>) -> Seq<style::SpanView> {
    style::pair_line(head, s, body, Style::plain())
}

/// A row that is being cut into lines: the lines so far, and whether the last
/// one was blank.
#[verifier::ext_equal]
pub struct Formatted {
    pub lines: Seq<Seq<style::SpanView>>,
    pub blank: bool,
}

/// The row with one more line of its text: blank lines at its start and behind
/// another blank line are dropped.
pub open spec fn with_part(acc: Formatted, kind: LineKind, part: Seq<char>) -> Formatted {
    let blank = text::trimmed(part).len() == 0;
    if blank && (acc.blank || acc.lines.len() == 0) {
        acc
    } else {
        Formatted {
            lines: acc.lines.push(
                body_line(
                    if acc.lines.len() == 0 {
                        kind.gutter_text()
                    } else {
                        LINE_INDENT@
                    },
                    kind.style(),
                    if blank {
                        Seq::empty()
                    } else {
                        part
                    },
                ),
            ),
            blank,
        }
    }
}

/// The lines of a row, cut at its line ends.
pub open spec fn with_parts(kind: LineKind, parts: Seq<Seq<char>>) -> Formatted
    decreases parts.len(),
{
    if parts.len() == 0 {
        Formatted { lines: Seq::empty(), blank: false }
    } else {
        with_part(with_parts(kind, parts.drop_last()), kind, parts.last())
    }
}

/// The lines of a row before they are wrapped, at least one.
pub open spec fn formatted(kind: LineKind, t: Seq<char>) -> Seq<Seq<style::SpanView>> {
    let lines = with_parts(kind, text::lines_of(t)).lines;
    if lines.len() == 0 {
        seq![body_line(kind.gutter_text(), kind.style(), Seq::empty())]
    } else {
        lines
    }
}

/// Cuts a row into lines.
pub fn format_lines(kind: LineKind, t: &str) -> (out: Vec<Line>)
    ensures
        seqs::views(out@) == formatted(kind, t@),
        out@.len() > 0,
{
    let parts = text::lines(t);
    let ghost all = seqs::views(parts@);
    let mut out: Vec<Line> = Vec::new();
    let mut prev = false;
    let mut i: usize = 0;
    proof {
        assert(all.take(0) =~= Seq::<Seq<char>>::empty());
        assert(seqs::views(out@) =~= Seq::<Seq<style::SpanView>>::empty());
    }
    while i < parts.len()
        invariant
            i <= parts@.len(),
            all == seqs::views(parts@),
            (Formatted { lines: seqs::views(out@), blank: prev }) == with_parts(
                kind,
                all.take(i as int),
            ),
        decreases parts.len() - i,
    {
        proof {
            let now = all.take(i + 1);
            assert(now.drop_last() =~= all.take(i as int));
            assert(now.last() == parts@[i as int]@);
            assert(seqs::views(out@).len() == out@.len());
        }
        let trimmed = text::trim(parts[i].as_str());
        let blank = trimmed.as_str().is_empty();
        if !(blank && (prev || out.len() == 0)) {
            prev = blank;
            let head = if out.len() == 0 {
                kind.gutter()
            } else {
                LINE_INDENT
            };
            let body = if blank {
                String::new()
            } else {
                parts[i].clone()
            };
            out.push(Line::pair(head.to_owned(), kind.style(), body, Style::plain()));
        }
        i += 1;
    }
    assert(all.take(all.len() as int) =~= all);
    if out.len() == 0 {
        assert(seqs::views(out@).len() == 0);
        out.push(
            Line::pair(kind.gutter().to_owned(), kind.style(), String::new(), Style::plain()),
        );
        assert(seqs::views(out@) =~= formatted(kind, t@));
    }
    out
}

/// Columns of a line behind its gutter.
pub open spec fn body_cols(width: usize) -> nat {
    if width > LINE_PREFIX_WIDTH + 1 {
        (width - LINE_PREFIX_WIDTH) as nat
    } else {
        1
    }
}

/// A line wrapped into `width` columns: each piece behind the gutter's columns.
pub open spec fn wrapped_line(line: Seq<style::SpanView>, width: usize) -> Seq<
    Seq<style::SpanView>,
> {
    if width == 0 || line.len() == 0 {
        seq![line]
    } else {
        let body = style::line_text(line.skip(1));
        let head = line[0];
        if body.len() == 0 {
            seq![body_line(head.text, head.style, Seq::empty())]
        } else {
            let pieces = wrap::chunks(body, body_cols(width));
            Seq::new(
                pieces.len(),
                |i: int|
                    body_line(
                        if i == 0 {
                            head.text
                        } else {
                            LINE_INDENT@
                        },
                        head.style,
                        pieces[i],
                    ),
            )
        }
    }
}

/// Wraps a line behind the lines there are.
pub fn wrap_line_into(out: &mut Vec<Line>, line: &Line, width: usize)
    ensures
        seqs::views(final(out)@) == seqs::views(old(out)@) + wrapped_line(line@, width),
{
    let ghost before = seqs::views(out@);
    if width == 0 || line.spans.len() == 0 {
        out.push(line.copy());
        assert(seqs::views(out@) =~= before + wrapped_line(line@, width));
        return ;
    }
    let body = line.text_from(1);
    let s = line.spans[0].style;
    assert(line@[0] == line.spans@[0]@);
    if body.as_str().is_empty() {
        out.push(
            Line::pair(line.spans[0].content.clone(), s, String::new(), Style::plain()),
        );
        assert(seqs::views(out@) =~= before + wrapped_line(line@, width));
        return ;
    }
    let cols: usize = if width > LINE_PREFIX_WIDTH + 1 {
        width - LINE_PREFIX_WIDTH
    } else {
        1
    };
    let pieces = chunk_text(body.as_str(), cols);
    let ghost all = wrapped_line(line@, width);
    let mut i: usize = 0;
    assert(before + all.take(0) =~= before);
    while i < pieces.len()
        invariant
            i <= pieces@.len() == all.len(),
            width > 0,
            line.spans@.len() > 0,
            s == line.spans@[0].style,
            line@[0] == line.spans@[0]@,
            style::line_text(line@.skip(1)).len() > 0,
            seqs::views(pieces@) == wrap::chunks(style::line_text(line@.skip(1)), body_cols(width)),
            all == wrapped_line(line@, width),
            seqs::views(out@) == before + all.take(i as int),
        decreases pieces.len() - i,
    {
        let head = if i == 0 {
            line.spans[0].content.clone()
        } else {
            LINE_INDENT.to_owned()
        };
        let made = Line::pair(head, s, pieces[i].clone(), Style::plain());
        proof {
            assert(seqs::views(pieces@)[i as int] == pieces@[i as int]@);
            assert(made@ == all[i as int]);
            assert((before + all.take(i as int)).push(made@) =~= before + all.take(i + 1));
        }
        out.push(made);
        i += 1;
    }
    assert(all.take(all.len() as int) =~= all);
}

/// Lines wrapped into `width` columns, one behind the other.
pub open spec fn wrapped_lines(lines: Seq<Seq<style::SpanView>>, width: usize) -> Seq<
    Seq<style::SpanView>,
>
    decreases lines.len(),
{
    if lines.len() == 0 {
        Seq::empty()
    } else {
        wrapped_lines(lines.drop_last(), width) + wrapped_line(lines.last(), width)
    }
}

/// The lines that a row is drawn as.
pub open spec fn row_lines(kind: LineKind, t: Seq<char>, width: usize) -> Seq<
    Seq<style::SpanView>,
> {
    wrapped_lines(formatted(kind, t), width)
}

/// Draws a row behind the lines there are.
pub fn wrap_row_into(out: &mut Vec<Line>, kind: LineKind, t: &str, width: usize)
    ensures
        seqs::views(final(out)@) == seqs::views(old(out)@) + row_lines(kind, t@, width),
{
    let ghost before = seqs::views(out@);
    let lines = format_lines(kind, t);
    let ghost all = seqs::views(lines@);
    let mut i: usize = 0;
    proof {
        assert(all.take(0) =~= Seq::<Seq<style::SpanView>>::empty());
        assert(before + Seq::<Seq<style::SpanView>>::empty() =~= before);
    }
    while i < lines.len()
        invariant
            i <= lines@.len(),
            all == seqs::views(lines@),
            seqs::views(out@) == before + wrapped_lines(all.take(i as int), width),
        decreases lines.len() - i,
    {
        wrap_line_into(out, &lines[i], width);
        proof {
            let now = all.take(i + 1);
            assert(now.drop_last() =~= all.take(i as int));
            assert(now.last() == lines@[i as int]@);
            assert(before + wrapped_lines(now, width) =~= (before + wrapped_lines(
                all.take(i as int),
                width,
            )) + wrapped_line(now.last(), width));
        }
        i += 1;
    }
    assert(all.take(all.len() as int) =~= all);
}

/// The bodies of lines, one behind the other.
pub open spec fn bodies(lines: Seq<Seq<style::SpanView>>) -> Seq<Seq<char>> {
    Seq::new(lines.len(), |i: int| style::line_text(lines[i].skip(1)))
}

/// Wrapping a line loses no character of it: the bodies of the pieces, one
/// behind the other, are the body of the line.
pub proof fn wrapping_keeps_the_body(line: Seq<style::SpanView>, width: usize)
    requires
        line.len() > 0,
        width > 0,
    ensures
        wrap::concatenated(bodies(wrapped_line(line, width))) == style::line_text(line.skip(1)),
{
    let body = style::line_text(line.skip(1));
    let all = wrapped_line(line, width);
    assert forall|i: int| 0 <= i < all.len() implies all[i].len() == 2 && style::line_text(
        #[trigger] all[i].skip(1),
    ) == all[i][1].text by {
        let rest = all[i].skip(1);
        assert(rest.len() == 1);
        assert(style::line_text(rest.drop_last()) =~= Seq::<char>::empty());
        assert(style::line_text(rest) =~= all[i][1].text);
    }
    if body.len() == 0 {
        let b = bodies(all);
        assert(all[0].skip(1).len() == 1);
        assert(b =~= seq![Seq::<char>::empty()]);
        assert(b.skip(1) =~= Seq::<Seq<char>>::empty());
        reveal_with_fuel(wrap::concatenated, 2);
        assert(wrap::concatenated(b) =~= body);
    } else {
        let pieces = wrap::chunks(body, body_cols(width));
        wrap::wrapping_loses_nothing(body, body_cols(width));
        assert forall|i: int| 0 <= i < all.len() implies bodies(all)[i] == pieces[i] by {
            assert(all[i].skip(1).len() == 1);
        }
        assert(bodies(all) =~= pieces);
    }
}

} // verus!
