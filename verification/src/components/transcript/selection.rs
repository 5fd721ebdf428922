//! Selecting text by screen columns.
use vstd::prelude::*;
use vstd::string::*;

use super::super::theme;
use super::kinds::LINE_PREFIX_WIDTH;
use super::wrap;
use crate::seqs;
use crate::style::{Line, Span};
use crate::style;
use crate::text;
use crate::width;

verus! {

broadcast use crate::seqs::views_push;

/// Columns of a gutter with the message margin before it.
pub const INDENTED_PREFIX_WIDTH: usize = 3;

/// A position in the wrapped lines: a line and a column in it.
#[derive(Clone, Copy, Debug, PartialEq, Eq, Structural)]
pub struct SelPos {
    pub line: usize,
    pub col: usize,
}

impl SelPos {
    /// Whether this position stands at or before `other`.
    pub open spec fn at_most(self, other: SelPos) -> bool {
        self.line < other.line || (self.line == other.line && self.col <= other.col)
    }

    /// Whether this position stands at or before `other`.
    pub fn le(self, other: SelPos) -> (yes: bool)
        ensures
            yes == self.at_most(other),
    {
        self.line < other.line || (self.line == other.line && self.col <= other.col)
    }
}

/// Whether a span is as wide as a gutter, with or without the margin.
pub open spec fn is_gutter(head: Seq<char>) -> bool {
    width::cols(head) == LINE_PREFIX_WIDTH || width::cols(head) == INDENTED_PREFIX_WIDTH
}

/// The columns of a line's gutter.
pub open spec fn gutter_cols(line: Seq<style::SpanView>) -> nat {
    if line.len() > 1 && is_gutter(line[0].text) {
        width::cols(line[0].text) as nat
    } else {
        0
    }
}

/// The text of a line behind its gutter.
pub open spec fn body_text(line: Seq<style::SpanView>) -> Seq<char> {
    if line.len() > 0 && is_gutter(line[0].text) {
        style::line_text(line.skip(1))
    } else {
        style::line_text(line)
    }
}

fn line_prefix_width(line: &Line) -> (w: usize)
    ensures
        w == gutter_cols(line@),
{
    if line.spans.len() > 1 {
        let w: usize = width::str_width(line.spans[0].content.as_str());
        if w == LINE_PREFIX_WIDTH || w == INDENTED_PREFIX_WIDTH {
            return w;
        }
    }
    0
}

fn line_body(line: &Line) -> (out: String)
    ensures
        out@ == body_text(line@),
{
    if line.spans.len() > 0 {
        let w: usize = width::str_width(line.spans[0].content.as_str());
        if w == LINE_PREFIX_WIDTH || w == INDENTED_PREFIX_WIDTH {
            return line.text_from(1);
        }
    }
    line.text()
}

/// The first character from `i` on that starts at column `n`, starts behind it
/// or covers it.
pub open spec fn reaching(s: Seq<char>, n: nat, i: nat) -> nat
    decreases s.len() - i,
{
    if i >= s.len() {
        s.len()
    } else if width::glyphs(s.take(i as int)) >= n || width::glyphs(s.take(i as int + 1)) > n {
        i
    } else {
        reaching(s, n, i + 1)
    }
}

/// The first character from `i` on that starts at column `n` or behind it. One
/// without a width belongs to the glyph before it.
pub open spec fn leaving(s: Seq<char>, n: nat, i: nat) -> nat
    decreases s.len() - i,
{
    if i >= s.len() {
        s.len()
    } else if width::glyphs(s.take(i as int)) >= n && width::glyph(s[i as int]) > 0 {
        i
    } else {
        leaving(s, n, i + 1)
    }
}

/// The characters of `s` from the one that reaches column `n` on.
pub open spec fn skipped(s: Seq<char>, n: nat) -> Seq<char> {
    s.skip(reaching(s, n, 0) as int)
}

/// Where the glyphs that meet the columns `start..end` begin in `s`.
pub open spec fn slice_start(s: Seq<char>, start: nat) -> nat {
    reaching(s, start, 0)
}

/// Where the glyphs that meet the columns `start..end` end in `s`.
pub open spec fn slice_end(s: Seq<char>, start: nat, end: nat) -> nat {
    let from = reaching(s, start, 0);
    if width::cols(s.skip(from as int)) <= end - start {
        s.len()
    } else {
        leaving(s, end, from)
    }
}

/// The glyphs of `s` that meet the columns `start..end`.
pub open spec fn sliced(s: Seq<char>, start: nat, end: nat) -> Seq<char> {
    if start >= end {
        Seq::empty()
    } else {
        s.subrange(slice_start(s, start) as int, slice_end(s, start, end) as int)
    }
}

proof fn lemma_reaching(s: Seq<char>, n: nat, i: nat)
    requires
        i <= s.len(),
    ensures
        i <= reaching(s, n, i) <= s.len(),
    decreases s.len() - i,
{
    if i < s.len() {
        lemma_reaching(s, n, i + 1);
    }
}

proof fn lemma_leaving(s: Seq<char>, n: nat, i: nat)
    requires
        i <= s.len(),
    ensures
        i <= leaving(s, n, i) <= s.len(),
    decreases s.len() - i,
{
    if i < s.len() {
        lemma_leaving(s, n, i + 1);
    }
}

/// Finds the first character that reaches column `n`, and the column it starts
/// at.
fn find_reaching(cs: &Vec<char>, n: usize) -> (out: (usize, usize))
    ensures
        out.0 == reaching(cs@, n as nat, 0),
        out.0 <= cs@.len(),
        out.1 <= n,
        out.0 < cs@.len() ==> out.1 == width::glyphs(cs@.take(out.0 as int)),
{
    let mut used: usize = 0;
    let mut i: usize = 0;
    assert(cs@.take(0) =~= Seq::<char>::empty());
    while i < cs.len()
        invariant
            i <= cs@.len(),
            used == width::glyphs(cs@.take(i as int)),
            used <= n,
            reaching(cs@, n as nat, 0) == reaching(cs@, n as nat, i as nat),
        decreases cs.len() - i,
    {
        let w: usize = width::glyph_width(cs[i]);
        proof {
            let next = cs@.take(i + 1);
            assert(next.drop_last() =~= cs@.take(i as int));
        }
        if used >= n || w > n - used {
            return (i, used);
        }
        used = used + w;
        i += 1;
    }
    (i, n)
}

/// The characters of `s` from the one that reaches column `n` on.
pub fn skip_width(s: &str, n: usize) -> (out: String)
    ensures
        out@ == skipped(s@, n as nat),
{
    let cs = text::chars_of(s);
    let (i, _used) = find_reaching(&cs, n);
    assert(cs@.subrange(i as int, s@.len() as int) =~= s@.skip(i as int));
    text::text_of(&cs, i, cs.len())
}

/// Where the glyphs that meet the columns `start..end` begin and end.
fn slice_bounds(cs: &Vec<char>, start: usize, end: usize) -> (out: (usize, usize))
    requires
        start < end,
    ensures
        out.0 <= out.1 <= cs@.len(),
        out.0 == slice_start(cs@, start as nat),
        out.1 == slice_end(cs@, start as nat, end as nat),
{
    let n: usize = cs.len();
    let (from, at) = find_reaching(cs, start);
    let rest = text::text_of(cs, from, n);
    assert(rest@ =~= cs@.skip(from as int));
    if width::str_width(rest.as_str()) <= end - start {
        return (from, n);
    }
    let mut used: usize = at;
    let mut i: usize = from;
    while i < n
        invariant
            from <= i <= n == cs@.len(),
            start < end,
            from == reaching(cs@, start as nat, 0),
            width::cols(cs@.skip(from as int)) > end - start,
            used <= end,
            i < n ==> used == (if width::glyphs(cs@.take(i as int)) <= end {
                width::glyphs(cs@.take(i as int))
            } else {
                end as nat
            }),
            leaving(cs@, end as nat, from as nat) == leaving(cs@, end as nat, i as nat),
        decreases n - i,
    {
        let w: usize = width::glyph_width(cs[i]);
        proof {
            let next = cs@.take(i + 1);
            assert(next.drop_last() =~= cs@.take(i as int));
        }
        if used >= end && w > 0 {
            proof {
                lemma_leaving(cs@, end as nat, i as nat);
            }
            return (from, i);
        }
        used = if w > end - used {
            end
        } else {
            used + w
        };
        i += 1;
    }
    (from, n)
}

/// The glyphs of `s` that meet the columns `start..end`.
pub fn slice_cols(s: &str, start: usize, end: usize) -> (out: String)
    ensures
        out@ == sliced(s@, start as nat, end as nat),
{
    if start >= end {
        return String::new();
    }
    let cs = text::chars_of(s);
    let (from, to) = slice_bounds(&cs, start, end);
    text::text_of(&cs, from, to)
}

/// `a` without `b`, but at most `max`.
pub open spec fn column_in(a: nat, b: nat, max: nat) -> nat {
    let left = wrap::less(a, b);
    if left <= max {
        left
    } else {
        max
    }
}

/// The text of a line between two screen columns, without its gutter.
pub open spec fn extracted(line: Seq<style::SpanView>, from_col: nat, to_col: nat) -> Seq<char> {
    let body = body_text(line);
    let max = width::cols(body) as nat;
    sliced(
        body,
        column_in(from_col, gutter_cols(line), max),
        column_in(to_col, gutter_cols(line), max),
    )
}

/// The text of a line between two screen columns, without its gutter.
pub fn extract_line_range(line: &Line, from_col: usize, to_col: usize) -> (out: String)
    ensures
        out@ == extracted(line@, from_col as nat, to_col as nat),
{
    let prefix: usize = line_prefix_width(line);
    let body = line_body(line);
    let max: usize = width::str_width(body.as_str());
    let from: usize = from_col.saturating_sub(prefix);
    let to: usize = to_col.saturating_sub(prefix);
    slice_cols(
        body.as_str(),
        if from <= max {
            from
        } else {
            max
        },
        if to <= max {
            to
        } else {
            max
        },
    )
}

/// A span in the given style, or nothing where it would be empty.
pub open spec fn piece(t: Seq<char>, s: style::Style) -> Seq<style::SpanView> {
    if t.len() == 0 {
        Seq::empty()
    } else {
        seq![style::SpanView { text: t, style: s }]
    }
}

/// A span that starts at column `at`, with the glyphs that meet the columns
/// `from..to` of the line marked as selected.
pub open spec fn marked_span(span: style::SpanView, at: nat, from: nat, to: nat) -> Seq<
    style::SpanView,
> {
    let w = width::cols(span.text) as nat;
    let end = wrap::capped_sum(at, w);
    if w == 0 || end <= from || at >= to {
        seq![span]
    } else {
        let local_from = wrap::less(from, at);
        let local_to = wrap::less(if to <= end {
            to
        } else {
            end
        }, at);
        let p = slice_start(span.text, local_from) as int;
        let q = if local_from < local_to {
            slice_end(span.text, local_from, local_to) as int
        } else {
            p
        };
        piece(span.text.take(p), span.style) + piece(span.text.subrange(p, q), theme::selection())
            + piece(span.text.skip(q), span.style)
    }
}

/// The spans of a line with the columns `from..to` marked as selected.
pub open spec fn marked(spans: Seq<style::SpanView>, from: nat, to: nat) -> Seq<style::SpanView>
    decreases spans.len(),
{
    if spans.len() == 0 {
        Seq::empty()
    } else {
        marked(spans.drop_last(), from, to) + marked_span(
            spans.last(),
            wrap::line_cols(spans.drop_last()),
            from,
            to,
        )
    }
}

/// A line with the columns `from..to` marked as selected.
pub open spec fn highlighted(line: Seq<style::SpanView>, from: nat, to: nat) -> Seq<
    style::SpanView,
> {
    if from >= to {
        line
    } else {
        marked(line, from, to)
    }
}

pub proof fn lemma_line_text_concat(a: Seq<style::SpanView>, b: Seq<style::SpanView>)
    ensures
        style::line_text(a + b) == style::line_text(a) + style::line_text(b),
    decreases b.len(),
{
    if b.len() == 0 {
        assert(a + b =~= a);
        assert(style::line_text(a) + style::line_text(b) =~= style::line_text(a));
    } else {
        lemma_line_text_concat(a, b.drop_last());
        assert((a + b).drop_last() =~= a + b.drop_last());
        assert((a + b).last() == b.last());
        assert(style::line_text(a + b) =~= style::line_text(a) + style::line_text(b));
    }
}

proof fn lemma_piece_text(t: Seq<char>, s: style::Style)
    ensures
        style::line_text(piece(t, s)) == t,
{
    if t.len() == 0 {
        assert(t =~= Seq::<char>::empty());
    } else {
        let one = piece(t, s);
        assert(style::line_text(one.drop_last()) =~= Seq::<char>::empty());
        assert(style::line_text(one) =~= t);
    }
}

proof fn lemma_slice_bounds(s: Seq<char>, start: nat, end: nat)
    ensures
        slice_start(s, start) <= s.len(),
        slice_start(s, start) <= slice_end(s, start, end) <= s.len(),
{
    lemma_reaching(s, start, 0);
    lemma_leaving(s, end, reaching(s, start, 0));
}

proof fn lemma_marked_span_text(span: style::SpanView, at: nat, from: nat, to: nat)
    ensures
        style::line_text(marked_span(span, at, from, to)) == span.text,
{
    let w = width::cols(span.text) as nat;
    let end = wrap::capped_sum(at, w);
    if w == 0 || end <= from || at >= to {
        let one = seq![span];
        assert(style::line_text(one.drop_last()) =~= Seq::<char>::empty());
        assert(style::line_text(one) =~= span.text);
    } else {
        let local_from = wrap::less(from, at);
        let local_to = wrap::less(if to <= end {
            to
        } else {
            end
        }, at);
        lemma_slice_bounds(span.text, local_from, local_to);
        let p = slice_start(span.text, local_from) as int;
        let q = if local_from < local_to {
            slice_end(span.text, local_from, local_to) as int
        } else {
            p
        };
        let a = piece(span.text.take(p), span.style);
        let b = piece(span.text.subrange(p, q), theme::selection());
        let c = piece(span.text.skip(q), span.style);
        lemma_piece_text(span.text.take(p), span.style);
        lemma_piece_text(span.text.subrange(p, q), theme::selection());
        lemma_piece_text(span.text.skip(q), span.style);
        lemma_line_text_concat(a, b);
        lemma_line_text_concat(a + b, c);
        assert(span.text =~= span.text.take(p) + span.text.subrange(p, q) + span.text.skip(q));
    }
}

/// Marking a selection keeps the text of the line: no glyph is lost, doubled
/// or cut in two.
pub proof fn highlighting_keeps_the_text(line: Seq<style::SpanView>, from: nat, to: nat)
    ensures
        style::line_text(highlighted(line, from, to)) == style::line_text(line),
    decreases line.len(),
{
    if from < to && line.len() > 0 {
        highlighting_keeps_the_text(line.drop_last(), from, to);
        let last = marked_span(line.last(), wrap::line_cols(line.drop_last()), from, to);
        lemma_marked_span_text(line.last(), wrap::line_cols(line.drop_last()), from, to);
        lemma_line_text_concat(marked(line.drop_last(), from, to), last);
    }
}

fn push_piece(spans: &mut Vec<Span>, t: String, s: style::Style)
    ensures
        seqs::views(final(spans)@) == seqs::views(old(spans)@) + piece(t@, s),
{
    let ghost before = seqs::views(spans@);
    let ghost made = piece(t@, s);
    if !t.as_str().is_empty() {
        spans.push(Span::styled(t, s));
    }
    assert(seqs::views(spans@) =~= before + made);
}

/// Marks the columns `from_col..to_col` of a line as selected.
pub fn highlight_line(line: &Line, from_col: usize, to_col: usize) -> (out: Line)
    ensures
        out@ == highlighted(line@, from_col as nat, to_col as nat),
{
    if from_col >= to_col {
        return line.copy();
    }
    let mark = theme::selection();
    let mut col: usize = 0;
    let mut spans: Vec<Span> = Vec::new();
    let mut i: usize = 0;
    proof {
        assert(line@.take(0) =~= Seq::<style::SpanView>::empty());
        assert(seqs::views(spans@) =~= Seq::<style::SpanView>::empty());
    }
    while i < line.spans.len()
        invariant
            i <= line.spans@.len(),
            mark == theme::selection(),
            from_col < to_col,
            col == wrap::line_cols(line@.take(i as int)),
            seqs::views(spans@) == marked(line@.take(i as int), from_col as nat, to_col as nat),
        decreases line.spans.len() - i,
    {
        let span = &line.spans[i];
        let ghost before = seqs::views(spans@);
        proof {
            let now = line@.take(i + 1);
            assert(now.drop_last() =~= line@.take(i as int));
            assert(now.last() == span@);
        }
        let w: usize = width::str_width(span.content.as_str());
        let start: usize = col;
        let end: usize = start.saturating_add(w);
        col = end;
        if w == 0 || end <= from_col || start >= to_col {
            spans.push(span.copy());
            assert(seqs::views(spans@) =~= before + seq![span@]);
        } else {
            let cs = text::chars_of(span.content.as_str());
            let local_from: usize = from_col.saturating_sub(start);
            let local_to: usize = (if to_col <= end {
                to_col
            } else {
                end
            }).saturating_sub(start);
            let (p, q) = if local_from < local_to {
                slice_bounds(&cs, local_from, local_to)
            } else {
                let (p, _used) = find_reaching(&cs, local_from);
                (p, p)
            };
            proof {
                assert(cs@.subrange(0, p as int) =~= span@.text.take(p as int));
                assert(cs@.subrange(q as int, cs@.len() as int) =~= span@.text.skip(q as int));
            }
            push_piece(&mut spans, text::text_of(&cs, 0, p), span.style);
            push_piece(&mut spans, text::text_of(&cs, p, q), mark);
            push_piece(&mut spans, text::text_of(&cs, q, cs.len()), span.style);
            assert(seqs::views(spans@) =~= before + marked_span(
                span@,
                start as nat,
                from_col as nat,
                to_col as nat,
            ));
        }
        i += 1;
    }
    assert(line@.take(line@.len() as int) =~= line@);
    Line { spans }
}

/// `Engine::encode` of the `base64` crate's `STANDARD` engine: the bytes in
/// base64, padded.
#[verifier::external_body]
fn base64_standard(bytes: &[u8]) -> (out: String)
    ensures
        out@ == crate::ui::transcript::base64::encoded(bytes@),
{
    base64::Engine::encode(&base64::engine::general_purpose::STANDARD, bytes)
}

/// The terminal sequence that puts an encoded text on the clipboard.
pub fn osc52_around(encoded: &str) -> (out: String)
    ensures
        out@ == "\x1b]52;c;"@ + encoded@ + "\x07"@,
{
    let mut out = "\x1b]52;c;".to_owned();
    out.append(encoded);
    out.append("\x07");
    out
}

/// The terminal sequence that puts `t` on the clipboard.
pub fn osc52_sequence(t: &str) -> (out: String)
    ensures
        out@ == "\x1b]52;c;"@ + crate::ui::transcript::base64::encoded(t.spec_bytes()) + "\x07"@,
{
    let encoded = base64_standard(t.as_bytes());
    osc52_around(encoded.as_str())
}

} // verus!
