//! Selecting text by screen columns.
use vstd::prelude::*;
use vstd::string::*;

use super::kinds::LINE_PREFIX_WIDTH;
use crate::components::theme;
use crate::components::transcript::selection;
use crate::components::transcript::wrap;
use crate::components::transcript::wrap::split_at_width;
use crate::seqs;
use crate::style::{Line, Span};
use crate::style;
use crate::text;
use crate::width;

verus! {

broadcast use crate::seqs::views_push;

/// The columns of a line's gutter.
pub open spec fn gutter_cols(line: Seq<style::SpanView>) -> nat {
    if line.len() > 1 && width::cols(line[0].text) == LINE_PREFIX_WIDTH {
        LINE_PREFIX_WIDTH as nat
    } else {
        0
    }
}

/// The text of a line behind its gutter.
pub open spec fn body_text(line: Seq<style::SpanView>) -> Seq<char> {
    if line.len() > 0 && width::cols(line[0].text) == LINE_PREFIX_WIDTH {
        style::line_text(line.skip(1))
    } else {
        style::line_text(line)
    }
}

fn line_prefix_width(line: &Line) -> (w: usize)
    ensures
        w == gutter_cols(line@),
{
    if line.spans.len() > 1 && width::str_width(line.spans[0].content.as_str())
        == LINE_PREFIX_WIDTH {
        LINE_PREFIX_WIDTH
    } else {
        0
    }
}

fn line_body(line: &Line) -> (out: String)
    ensures
        out@ == body_text(line@),
{
    if line.spans.len() > 0 && width::str_width(line.spans[0].content.as_str())
        == LINE_PREFIX_WIDTH {
        line.text_from(1)
    } else {
        line.text()
    }
}

/// The first character from `i` on that starts at column `n` or behind it.
pub open spec fn starting(s: Seq<char>, n: nat, i: nat) -> nat
    decreases s.len() - i,
{
    if i >= s.len() {
        s.len()
    } else if width::glyphs(s.take(i as int)) >= n {
        i
    } else {
        starting(s, n, i + 1)
    }
}

/// The characters of `s` from the first that starts at column `n` or behind it.
pub open spec fn skipped(s: Seq<char>, n: nat) -> Seq<char> {
    s.skip(starting(s, n, 0) as int)
}

/// The characters of `s` from the first that starts at column `n` or behind it.
pub fn skip_width(s: &str, n: usize) -> (out: String)
    ensures
        out@ == skipped(s@, n as nat),
{
    let cs = text::chars_of(s);
    let mut used: usize = 0;
    let mut i: usize = 0;
    assert(s@.take(0) =~= Seq::<char>::empty());
    while i < cs.len() && used < n
        invariant
            i <= cs@.len(),
            cs@ == s@,
            used == (if width::glyphs(s@.take(i as int)) <= n {
                width::glyphs(s@.take(i as int))
            } else {
                n as nat
            }),
            starting(s@, n as nat, 0) == starting(s@, n as nat, i as nat),
        decreases cs.len() - i,
    {
        let w: usize = width::glyph_width(cs[i]);
        proof {
            let next = s@.take(i + 1);
            assert(next.drop_last() =~= s@.take(i as int));
            assert(next.last() == cs@[i as int]);
        }
        used = if w > n - used {
            n
        } else {
            used + w
        };
        i += 1;
    }
    assert(cs@.subrange(i as int, s@.len() as int) =~= s@.skip(i as int));
    text::text_of(&cs, i, cs.len())
}

/// The characters of `s` in the columns `start..end`: those that start at column
/// `start` or behind it, as many as fit, and one at least.
pub open spec fn sliced(s: Seq<char>, start: nat, end: nat) -> Seq<char> {
    if start >= end {
        Seq::empty()
    } else {
        let rest = skipped(s, start);
        rest.take(wrap::cut(rest, (end - start) as nat) as int)
    }
}

/// The characters of `s` in the columns `start..end`.
pub fn slice_cols(s: &str, start: usize, end: usize) -> (out: String)
    ensures
        out@ == sliced(s@, start as nat, end as nat),
{
    if start >= end {
        return String::new();
    }
    let rest = skip_width(s, start);
    let (head, _tail) = split_at_width(rest.as_str(), end - start);
    head
}

/// The text of a line between two screen columns, without its gutter.
pub open spec fn extracted(line: Seq<style::SpanView>, from_col: nat, to_col: nat) -> Seq<char> {
    let body = body_text(line);
    let max = width::cols(body) as nat;
    sliced(
        body,
        selection::column_in(from_col, gutter_cols(line), max),
        selection::column_in(to_col, gutter_cols(line), max),
    )
}

/// The text of a line between two screen columns, without its gutter.
pub fn extract_line_range(line: &Line, from_col: usize, to_col: usize) -> (out: String)
    ensures
        out@ == extracted(line@, from_col as nat, to_col as nat),
{
    let prefix: usize = line_prefix_width(line);
    let body = line_body(line);
    let max: usize = width::str_width(body.as_str());
    let from: usize = from_col.saturating_sub(prefix);
    let to: usize = to_col.saturating_sub(prefix);
    slice_cols(
        body.as_str(),
        if from <= max {
            from
        } else {
            max
        },
        if to <= max {
            to
        } else {
            max
        },
    )
}

/// A span that starts at column `at`, with the columns `from..to` of the line
/// marked as selected.
pub open spec fn marked_span(span: style::SpanView, at: nat, from: nat, to: nat) -> Seq<
    style::SpanView,
> {
    let w = width::cols(span.text) as nat;
    let end = wrap::capped_sum(at, w);
    if w == 0 || end <= from || at >= to {
        seq![span]
    } else {
        let local_from = wrap::less(from, at);
        let local_to = wrap::less(if to <= end {
            to
        } else {
            end
        }, at);
        selection::piece(sliced(span.text, 0, local_from), span.style) + selection::piece(
            sliced(span.text, local_from, local_to),
            theme::selection(),
        ) + selection::piece(sliced(span.text, local_to, w), span.style)
    }
}

/// The spans of a line with the columns `from..to` marked as selected.
pub open spec fn marked(spans: Seq<style::SpanView>, from: nat, to: nat) -> Seq<style::SpanView>
    decreases spans.len(),
{
    if spans.len() == 0 {
        Seq::empty()
    } else {
        marked(spans.drop_last(), from, to) + marked_span(
            spans.last(),
            wrap::line_cols(spans.drop_last()),
            from,
            to,
        )
    }
}

/// A line with the columns `from..to` marked as selected.
pub open spec fn highlighted(line: Seq<style::SpanView>, from: nat, to: nat) -> Seq<
    style::SpanView,
> {
    if from >= to {
        line
    } else {
        marked(line, from, to)
    }
}

fn push_piece(spans: &mut Vec<Span>, t: String, s: style::Style)
    ensures
        seqs::views(final(spans)@) == seqs::views(old(spans)@) + selection::piece(t@, s),
{
    let ghost before = seqs::views(spans@);
    let ghost made = selection::piece(t@, s);
    if !t.as_str().is_empty() {
        spans.push(Span::styled(t, s));
    }
    assert(seqs::views(spans@) =~= before + made);
}

/// Marks the columns `from_col..to_col` of a line as selected.
pub fn highlight_line(line: &Line, from_col: usize, to_col: usize) -> (out: Line)
    ensures
        out@ == highlighted(line@, from_col as nat, to_col as nat),
{
    if from_col >= to_col {
        return line.copy();
    }
    let mut col: usize = 0;
    let mut spans: Vec<Span> = Vec::new();
    let mut i: usize = 0;
    proof {
        assert(line@.take(0) =~= Seq::<style::SpanView>::empty());
        assert(seqs::views(spans@) =~= Seq::<style::SpanView>::empty());
    }
    while i < line.spans.len()
        invariant
            i <= line.spans@.len(),
            from_col < to_col,
            col == wrap::line_cols(line@.take(i as int)),
            seqs::views(spans@) == marked(line@.take(i as int), from_col as nat, to_col as nat),
        decreases line.spans.len() - i,
    {
        let span = &line.spans[i];
        let ghost before = seqs::views(spans@);
        proof {
            let now = line@.take(i + 1);
            assert(now.drop_last() =~= line@.take(i as int));
            assert(now.last() == span@);
        }
        let t = span.content.as_str();
        let w: usize = width::str_width(t);
        let start: usize = col;
        let end: usize = start.saturating_add(w);
        col = end;
        if w == 0 || end <= from_col || start >= to_col {
            spans.push(span.copy());
            assert(seqs::views(spans@) =~= before + seq![span@]);
        } else {
            let local_from: usize = from_col.saturating_sub(start);
            let local_to: usize = (if to_col <= end {
                to_col
            } else {
                end
            }).saturating_sub(start);
            push_piece(&mut spans, slice_cols(t, 0, local_from), span.style);
            push_piece(&mut spans, slice_cols(t, local_from, local_to), theme::selection());
            push_piece(&mut spans, slice_cols(t, local_to, w), span.style);
            assert(seqs::views(spans@) =~= before + marked_span(
                span@,
                start as nat,
                from_col as nat,
                to_col as nat,
            ));
        }
        i += 1;
    }
    assert(line@.take(line@.len() as int) =~= line@);
    Line { spans }
}

/// Selected characters come from the line in one piece.
pub proof fn slices_are_pieces(s: Seq<char>, start: nat, end: nat)
    ensures
        exists|i: int, j: int|
            0 <= i <= j <= s.len() && #[trigger] s.subrange(i, j) == sliced(s, start, end),
{
    if start >= end {
        assert(s.subrange(0, 0) =~= sliced(s, start, end));
    } else {
        lemma_starting(s, start, 0);
        let i = starting(s, start, 0) as int;
        let rest = skipped(s, start);
        wrap::cut_loses_nothing(rest, (end - start) as nat);
        let j = i + wrap::cut(rest, (end - start) as nat);
        assert(s.subrange(i, j) =~= sliced(s, start, end));
    }
}

proof fn lemma_starting(s: Seq<char>, n: nat, i: nat)
    requires
        i <= s.len(),
    ensures
        i <= starting(s, n, i) <= s.len(),
    decreases s.len() - i,
{
    if i < s.len() {
        lemma_starting(s, n, i + 1);
    }
}

} // verus!
