//! Rows as lines of the screen: prefixes, wrapping and folded bodies.
use vstd::prelude::*;
use vstd::string::*;

use super::super::theme;
use super::collapsible::{Collapsible, Section};
use super::kinds::{
    Header, LineKind, COLLAPSED_MARKER, EXPANDED_MARKER, LINE_INDENT, MESSAGE_INDENT,
};
use super::collapsible;
use super::kinds;
use crate::seqs;
use crate::style::{Line, Span, Style};
use crate::style;
use crate::text;
use crate::width;

verus! {

broadcast use crate::seqs::views_push;

/// Lines of shell output that the transcript keeps.
pub const MAX_SHELL_DISPLAY_LINES: usize = 100;

/// Calls of a body still receiving content that stay visible, and lines of each
/// text in it. Lines are counted after wrapping, so one that wraps into many rows
/// is capped by the rows it takes, not by the newline it came from.
pub const MAX_LIVE_BODY_LINES: usize = 8;

/// The title of reasoning that is still streaming.
pub const THINKING_LABEL: &'static str = "Thinking...";

/// The title of reasoning without a known duration.
pub const THOUGHT_LABEL: &'static str = "Thought";

/// The title of a tool's output.
pub const RESULT_LABEL: &'static str = "Result";

/// Border plus one padding column on each side of a framed prompt.
pub const PROMPT_FRAME_COLS: usize = 4;

/// A duration: tenths of seconds below a minute, else minutes and seconds.
pub open spec fn duration_text(ms: nat) -> Seq<char> {
    let mins = ms / 60_000;
    let rest = ms % 60_000;
    if mins == 0 {
        let tenths = rest / 100;
        if tenths % 10 == 0 {
            text::decimal(tenths / 10) + "s"@
        } else {
            text::decimal(tenths / 10) + "."@ + text::decimal(tenths % 10) + "s"@
        }
    } else {
        text::decimal(mins) + "m "@ + text::decimal(rest / 1000) + "s"@
    }
}

/// Writes a duration given in milliseconds.
pub fn format_duration(ms: u64) -> (out: String)
    ensures
        out@ == duration_text(ms as nat),
{
    let mins: u64 = ms / 60_000;
    let rest: u64 = ms % 60_000;
    if mins == 0 {
        let tenths: u64 = rest / 100;
        let mut out = text::decimal_of(tenths / 10);
        if tenths % 10 != 0 {
            out.append(".");
            out.append(text::decimal_of(tenths % 10).as_str());
        }
        out.append("s");
        out
    } else {
        let mut out = text::decimal_of(mins);
        out.append("m ");
        out.append(text::decimal_of(rest / 1000).as_str());
        out.append("s");
        out
    }
}

/// Trailing line of a finished turn: how long the agent took.
pub fn format_elapsed(ms: u64) -> (out: String)
    ensures
        out@ == "Worked for "@ + duration_text(ms as nat),
{
    text::concat("Worked for ", format_duration(ms).as_str())
}

/// The title of finished reasoning: its duration, or the bare label.
pub open spec fn thought_text(ms: Option<u64>) -> Seq<char> {
    match ms {
        Some(ms) => "Thought for "@ + duration_text(ms as nat),
        None => THOUGHT_LABEL@,
    }
}

/// Header for a thinking row: the duration the agent reported, or a bare label
/// when the row carries no timed span.
pub fn format_thought(ms: Option<u64>) -> (out: String)
    ensures
        out@ == thought_text(ms),
{
    match ms {
        Some(ms) => text::concat("Thought for ", format_duration(ms).as_str()),
        None => THOUGHT_LABEL.to_owned(),
    }
}

/// What a thinking row may show of its text: the live label or a duration,
/// never the reasoning itself.
pub open spec fn thinking_label(t: Seq<char>) -> Seq<char> {
    if t == THINKING_LABEL@ || ("Thought for"@).is_prefix_of(t) {
        t
    } else {
        THOUGHT_LABEL@
    }
}

/// What a thinking row may show of its text.
pub fn thinking_display_label(t: &str) -> (out: String)
    ensures
        out@ == thinking_label(t@),
{
    if text::same_text(t, THINKING_LABEL) || text::starts_with(t, "Thought for") {
        t.to_owned()
    } else {
        THOUGHT_LABEL.to_owned()
    }
}

/// `s` without the line ends at its start.
pub open spec fn without_leading_breaks(s: Seq<char>) -> Seq<char>
    decreases s.len(),
{
    if s.len() > 0 && (s[0] == '\n' || s[0] == '\r') {
        without_leading_breaks(s.skip(1))
    } else {
        s
    }
}

/// `s` without the line ends at its end.
pub open spec fn without_trailing_breaks(s: Seq<char>) -> Seq<char>
    decreases s.len(),
{
    if s.len() > 0 && (s.last() == '\n' || s.last() == '\r') {
        without_trailing_breaks(s.drop_last())
    } else {
        s
    }
}

/// A message without the line ends around it.
pub open spec fn message_text(s: Seq<char>) -> Seq<char> {
    without_trailing_breaks(without_leading_breaks(s))
}

/// Drops the line ends around a message.
pub fn trim_message(s: &str) -> (out: String)
    ensures
        out@ == message_text(s@),
{
    let cs = text::chars_of(s);
    let mut i: usize = 0;
    assert(s@.skip(0) =~= s@);
    while i < cs.len() && (cs[i] == '\n' || cs[i] == '\r')
        invariant
            i <= cs@.len(),
            cs@ == s@,
            without_leading_breaks(s@) == without_leading_breaks(s@.skip(i as int)),
        decreases cs.len() - i,
    {
        assert(s@.skip(i as int).skip(1) =~= s@.skip(i + 1));
        i += 1;
    }
    let mut n: usize = cs.len();
    let ghost rest = s@.skip(i as int);
    assert(rest.take(n - i) =~= rest);
    while n > i && (cs[n - 1] == '\n' || cs[n - 1] == '\r')
        invariant
            i <= n <= cs@.len(),
            cs@ == s@,
            rest == s@.skip(i as int),
            without_trailing_breaks(rest) == without_trailing_breaks(rest.take(n - i)),
        decreases n,
    {
        assert(rest.take(n - i).drop_last() =~= rest.take(n - i - 1));
        assert(rest.take(n - i).last() == cs@[n - 1]);
        n -= 1;
    }
    proof {
        if n > i {
            assert(rest.take(n - i).last() == cs@[n - 1]);
        }
        assert(rest.take(n - i) =~= cs@.subrange(i as int, n as int));
    }
    text::text_of(&cs, i, n)
}

/// How many characters of `s` fit into `max` columns.
pub open spec fn fitting(s: Seq<char>, max: nat) -> nat
    decreases s.len(),
{
    if width::glyphs(s) <= max || s.len() == 0 {
        s.len()
    } else {
        fitting(s.drop_last(), max)
    }
}

/// Where a text is cut to fit into `max` columns: behind all of it where it
/// fits whole, else behind the characters that fit, and behind at least one so
/// that wrapping goes on.
pub open spec fn cut(s: Seq<char>, max: nat) -> nat {
    if max == 0 || s.len() == 0 {
        0
    } else if width::cols(s) <= max {
        s.len()
    } else if fitting(s, max) == 0 {
        1
    } else {
        fitting(s, max)
    }
}

proof fn lemma_fitting(s: Seq<char>, max: nat, k: nat)
    requires
        k <= s.len(),
        width::glyphs(s.take(k as int)) <= max || k == 0,
        k < s.len() ==> width::glyphs(s.take(k as int + 1)) > max,
    ensures
        fitting(s, max) == k,
    decreases s.len(),
{
    if s.len() == k {
        assert(s.take(k as int) =~= s);
    } else {
        width::glyphs_grow(s, k as int + 1, s.len() as int);
        assert(s.take(s.len() as int) =~= s);
        let t = s.drop_last();
        assert(t.take(k as int) =~= s.take(k as int));
        if k < t.len() {
            assert(t.take(k as int + 1) =~= s.take(k as int + 1));
        }
        lemma_fitting(t, max, k);
    }
}

proof fn lemma_cut_bounds(s: Seq<char>, max: nat)
    ensures
        fitting(s, max) <= s.len(),
        cut(s, max) <= s.len(),
        max > 0 && s.len() > 0 ==> cut(s, max) > 0,
    decreases s.len(),
{
    if s.len() > 0 {
        lemma_cut_bounds(s.drop_last(), max);
    }
}

/// The two halves of a cut text are the whole text, and a cut always moves on.
pub proof fn cut_loses_nothing(s: Seq<char>, max: nat)
    ensures
        cut(s, max) <= s.len(),
        s.take(cut(s, max) as int) + s.skip(cut(s, max) as int) == s,
        max > 0 && s.len() > 0 ==> cut(s, max) > 0,
{
    lemma_cut_bounds(s, max);
    assert(s.take(cut(s, max) as int) + s.skip(cut(s, max) as int) =~= s);
}

proof fn lemma_fitting_fits(s: Seq<char>, max: nat)
    ensures
        fitting(s, max) > 0 ==> width::glyphs(s.take(fitting(s, max) as int)) <= max,
    decreases s.len(),
{
    lemma_cut_bounds(s, max);
    if width::glyphs(s) <= max || s.len() == 0 {
        assert(s.take(s.len() as int) =~= s);
    } else {
        lemma_fitting_fits(s.drop_last(), max);
        lemma_cut_bounds(s.drop_last(), max);
        assert(s.drop_last().take(fitting(s, max) as int) =~= s.take(fitting(s, max) as int));
    }
}

/// What is cut off fits into the columns asked for, unless it is one glyph
/// that is wider than all of them.
pub proof fn cut_fits(s: Seq<char>, max: nat)
    ensures
        ({
            let head = s.take(cut(s, max) as int);
            ||| width::cols(head) <= max
            ||| width::glyphs(head) <= max
            ||| head.len() == 1
        }),
{
    lemma_cut_bounds(s, max);
    lemma_fitting_fits(s, max);
    assert(s.take(s.len() as int) =~= s);
    if s.len() == 0 || max == 0 {
        assert(s.take(0) =~= Seq::<char>::empty());
        assert(width::glyphs(s.take(0)) == 0);
    }
}

/// Where to cut `cs[from..]` to fit into `max_width` columns.
fn cut_point(cs: &Vec<char>, from: usize, max_width: usize) -> (k: usize)
    requires
        from <= cs@.len(),
    ensures
        from <= k <= cs@.len(),
        k - from == cut(cs@.skip(from as int), max_width as nat),
{
    let ghost s = cs@.skip(from as int);
    let n: usize = cs.len();
    if max_width == 0 || from == n {
        return from;
    }
    let whole = text::text_of(cs, from, n);
    assert(whole@ =~= s);
    if width::str_width(whole.as_str()) <= max_width {
        return n;
    }
    let mut used: usize = 0;
    let mut i: usize = from;
    assert(s.take(0) =~= Seq::<char>::empty());
    while i < n
        invariant
            from <= i <= n == cs@.len(),
            s == cs@.skip(from as int),
            used == width::glyphs(s.take(i - from)),
            used <= max_width,
            0 < max_width,
            from < n,
            width::cols(s) > max_width,
        decreases n - i,
    {
        let w: usize = width::glyph_width(cs[i]);
        proof {
            let next = s.take(i - from + 1);
            assert(next.drop_last() =~= s.take(i - from));
            assert(next.last() == cs@[i as int]);
        }
        if w > max_width - used {
            proof {
                lemma_fitting(s, max_width as nat, (i - from) as nat);
            }
            if i == from {
                return from + 1;
            }
            return i;
        }
        used = used + w;
        i += 1;
    }
    proof {
        lemma_fitting(s, max_width as nat, s.len());
    }
    n
}

/// Counts the characters that fit into `max` columns.
pub fn count_fitting(cs: &Vec<char>, max: usize) -> (k: usize)
    ensures
        k == fitting(cs@, max as nat),
        k <= cs@.len(),
{
    let mut used: usize = 0;
    let mut i: usize = 0;
    assert(cs@.take(0) =~= Seq::<char>::empty());
    while i < cs.len()
        invariant
            i <= cs@.len(),
            used == width::glyphs(cs@.take(i as int)),
            used <= max,
        decreases cs.len() - i,
    {
        let w: usize = width::glyph_width(cs[i]);
        proof {
            let next = cs@.take(i + 1);
            assert(next.drop_last() =~= cs@.take(i as int));
            assert(next.last() == cs@[i as int]);
        }
        if w > max - used {
            proof {
                lemma_fitting(cs@, max as nat, i as nat);
            }
            return i;
        }
        used = used + w;
        i += 1;
    }
    proof {
        lemma_fitting(cs@, max as nat, i as nat);
    }
    i
}

/// Cuts `s` behind what fits into `max_width` columns.
pub fn split_at_width(s: &str, max_width: usize) -> (halves: (String, String))
    ensures
        halves.0@ == s@.take(cut(s@, max_width as nat) as int),
        halves.1@ == s@.skip(cut(s@, max_width as nat) as int),
{
    let cs = text::chars_of(s);
    assert(cs@.skip(0) =~= s@);
    let k: usize = cut_point(&cs, 0, max_width);
    assert(cs@.subrange(0, k as int) =~= s@.take(k as int));
    assert(cs@.subrange(k as int, s@.len() as int) =~= s@.skip(k as int));
    (text::text_of(&cs, 0, k), text::text_of(&cs, k, cs.len()))
}

/// A text cut into pieces of `max` columns.
pub open spec fn chunks(s: Seq<char>, max: nat) -> Seq<Seq<char>>
    decreases s.len(),
{
    if s.len() == 0 || max == 0 {
        Seq::empty()
    } else {
        let k = cut(s, max);
        if 0 < k <= s.len() {
            seq![s.take(k as int)] + chunks(s.skip(k as int), max)
        } else {
            Seq::empty()
        }
    }
}

/// Texts one behind the other.
pub open spec fn concatenated(parts: Seq<Seq<char>>) -> Seq<char>
    decreases parts.len(),
{
    if parts.len() == 0 {
        Seq::empty()
    } else {
        parts[0] + concatenated(parts.skip(1))
    }
}

/// One more piece goes behind the others.
pub proof fn lemma_concatenated_push(parts: Seq<Seq<char>>, piece: Seq<char>)
    ensures
        concatenated(parts.push(piece)) == concatenated(parts) + piece,
    decreases parts.len(),
{
    let all = parts.push(piece);
    if parts.len() == 0 {
        assert(all.skip(1) =~= Seq::<Seq<char>>::empty());
        reveal_with_fuel(concatenated, 2);
        assert(concatenated(all) =~= piece);
    } else {
        lemma_concatenated_push(parts.skip(1), piece);
        assert(all.skip(1) =~= parts.skip(1).push(piece));
        assert(concatenated(all) =~= concatenated(parts) + piece);
    }
}

/// The pieces of a wrapped text, one behind the other, are the text.
pub proof fn wrapping_loses_nothing(s: Seq<char>, max: nat)
    requires
        max > 0,
    ensures
        concatenated(chunks(s, max)) == s,
        s.len() > 0 ==> chunks(s, max).len() > 0,
    decreases s.len(),
{
    if s.len() > 0 {
        cut_loses_nothing(s, max);
        let k = cut(s, max) as int;
        wrapping_loses_nothing(s.skip(k), max);
        let all = chunks(s, max);
        assert(all.skip(1) =~= chunks(s.skip(k), max));
        assert(all[0] == s.take(k));
    }
}

/// Cuts `s` into pieces of `max` columns.
pub fn chunk_text(s: &str, max: usize) -> (out: Vec<String>)
    requires
        max > 0,
    ensures
        seqs::views(out@) == chunks(s@, max as nat),
{
    let cs = text::chars_of(s);
    let mut out: Vec<String> = Vec::new();
    let mut i: usize = 0;
    assert(s@.skip(0) =~= s@);
    assert(seqs::views(out@) + chunks(s@, max as nat) =~= chunks(s@, max as nat));
    while i < cs.len()
        invariant
            i <= cs@.len(),
            cs@ == s@,
            max > 0,
            seqs::views(out@) + chunks(s@.skip(i as int), max as nat) == chunks(s@, max as nat),
        decreases cs.len() - i,
    {
        let ghost rest = s@.skip(i as int);
        let k: usize = cut_point(&cs, i, max);
        let piece = text::text_of(&cs, i, k);
        proof {
            lemma_cut_bounds(rest, max as nat);
            assert(piece@ =~= rest.take(k - i));
            assert(rest.skip(k - i) =~= s@.skip(k as int));
            assert(seqs::views(out@) + chunks(rest, max as nat) =~= seqs::views(out@).push(piece@)
                + chunks(s@.skip(k as int), max as nat));
        }
        out.push(piece);
        i = k;
    }
    assert(seqs::views(out@) + chunks(s@.skip(i as int), max as nat) =~= seqs::views(out@));
    out
}

/// The larger of `a - b` and zero.
pub open spec fn less(a: nat, b: nat) -> nat {
    if a >= b {
        (a - b) as nat
    } else {
        0
    }
}

/// What opens the lines of a row: the margin, but for the user's own, and the
/// gutter.
pub open spec fn prefix_text(kind: LineKind) -> Seq<char> {
    if kind == LineKind::User {
        kind.gutter_text()
    } else {
        MESSAGE_INDENT@ + kind.gutter_text()
    }
}

/// What opens the lines of a row.
pub fn line_prefix(kind: LineKind) -> (out: String)
    ensures
        out@ == prefix_text(kind),
{
    if kind == LineKind::User {
        kind.gutter().to_owned()
    } else {
        text::concat(MESSAGE_INDENT, kind.gutter())
    }
}

/// What opens the lines of a row behind its first: blanks of the same width
/// where the gutter shows once, else the same again.
pub open spec fn rest_prefix(kind: LineKind, first: Seq<char>) -> Seq<char> {
    if kind.gutter_once() {
        text::run_of(' ', width::cols(first) as nat)
    } else {
        first
    }
}

/// What opens the lines of a row behind its first.
pub fn continuation_prefix(kind: LineKind, first_prefix: &str) -> (out: String)
    ensures
        out@ == rest_prefix(kind, first_prefix@),
{
    if kind.gutter_once() {
        text::spaces(width::str_width(first_prefix))
    } else {
        first_prefix.to_owned()
    }
}

/// The style of a line: in a diff, added and removed lines have their own.
pub open spec fn diff_style(part: Seq<char>, fallback: Style, kind: LineKind) -> Style {
    if kind != LineKind::Diff || part.len() == 0 {
        fallback
    } else if part[0] == '+' {
        theme::diff_added()
    } else if part[0] == '-' {
        theme::diff_removed()
    } else {
        fallback
    }
}

/// The style of a line: in a diff, added and removed lines have their own.
pub fn diff_line_style(part: &str, fallback: Style, kind: LineKind) -> (s: Style)
    ensures
        s == diff_style(part@, fallback, kind),
{
    if kind != LineKind::Diff || part.is_empty() {
        return fallback;
    }
    let first = part.get_char(0);
    if first == '+' {
        theme::diff_added()
    } else if first == '-' {
        theme::diff_removed()
    } else {
        fallback
    }
}

/// Whether a line holds nothing but whitespace.
pub open spec fn is_blank(part: Seq<char>) -> bool {
    text::trimmed(part).len() == 0
}

/// The lines of a message that are drawn: blank ones at its start are left
/// out, and a run of blank ones becomes a single empty line.
pub open spec fn shown_parts(parts: Seq<Seq<char>>) -> Seq<Seq<char>>
    decreases parts.len(),
{
    if parts.len() == 0 {
        Seq::empty()
    } else {
        let before = shown_parts(parts.drop_last());
        if !is_blank(parts.last()) {
            before.push(parts.last())
        } else if parts.len() > 1 && !is_blank(parts[parts.len() - 2]) {
            before.push(Seq::empty())
        } else {
            before
        }
    }
}

/// Whether the text of a row is drawn in its kind's own style.
pub open spec fn styles_body(kind: LineKind) -> bool {
    kind == LineKind::Diff || kind == LineKind::Shell || kind == LineKind::Separator
}

/// The line that shows one drawn part of a message.
pub open spec fn part_line(kind: LineKind, first: bool, part: Seq<char>) -> Seq<style::SpanView> {
    let line_style = diff_style(part, kind.style(), kind);
    style::pair_line(
        if first {
            prefix_text(kind)
        } else {
            rest_prefix(kind, prefix_text(kind))
        },
        line_style,
        part,
        if styles_body(kind) {
            line_style
        } else {
            Style::plain()
        },
    )
}

/// The lines of a row before they are wrapped.
pub open spec fn formatted(kind: LineKind, t: Seq<char>) -> Seq<Seq<style::SpanView>> {
    if kind == LineKind::Thinking {
        seq![style::pair_line(prefix_text(kind), kind.style(), thinking_label(t), kind.style())]
    } else {
        let parts = shown_parts(text::lines_of(t));
        if parts.len() == 0 {
            seq![style::pair_line(prefix_text(kind), kind.style(), Seq::empty(), Style::plain())]
        } else {
            Seq::new(parts.len(), |i: int| part_line(kind, i == 0, parts[i]))
        }
    }
}

/// Formats a row: prefixes, styles and the rule on blank lines.
pub fn format_lines(kind: LineKind, t: &str) -> (out: Vec<Line>)
    ensures
        seqs::views(out@) == formatted(kind, t@),
        out@.len() > 0,
{
    let first_prefix = line_prefix(kind);
    let kind_style = kind.style();
    let mut out: Vec<Line> = Vec::new();
    if kind == LineKind::Thinking {
        out.push(
            Line::pair(first_prefix, kind_style, thinking_display_label(t), kind_style),
        );
        assert(seqs::views(out@) =~= formatted(kind, t@));
        return out;
    }
    let rest = continuation_prefix(kind, first_prefix.as_str());
    let parts = text::lines(t);
    let ghost all = text::lines_of(t@);
    let mut prev_blank = true;
    let mut i: usize = 0;
    assert(all.take(0) =~= Seq::<Seq<char>>::empty());
    while i < parts.len()
        invariant
            i <= parts@.len(),
            all == seqs::views(parts@),
            kind != LineKind::Thinking,
            kind_style == kind.style(),
            first_prefix@ == prefix_text(kind),
            rest@ == rest_prefix(kind, prefix_text(kind)),
            prev_blank == (i == 0 || is_blank(all[i - 1])),
            out@.len() == shown_parts(all.take(i as int)).len(),
            forall|j: int|
                0 <= j < out@.len() ==> (#[trigger] out@[j])@ == part_line(
                    kind,
                    j == 0,
                    shown_parts(all.take(i as int))[j],
                ),
        decreases parts.len() - i,
    {
        let part = parts[i].as_str();
        let blank = text::trim(part).as_str().is_empty();
        proof {
            let now = all.take(i + 1);
            assert(now.drop_last() =~= all.take(i as int));
            assert(now.last() == part@);
            if i > 0 {
                assert(now[now.len() - 2] == all[i - 1]);
            }
        }
        if !(blank && prev_blank) {
            let body = if blank {
                String::new()
            } else {
                part.to_owned()
            };
            let line_style = diff_line_style(body.as_str(), kind_style, kind);
            let head = if out.len() == 0 {
                first_prefix.clone()
            } else {
                rest.clone()
            };
            let body_style = match kind {
                LineKind::Diff | LineKind::Shell | LineKind::Separator => line_style,
                _ => Style::plain(),
            };
            assert(blank ==> body@ =~= Seq::<char>::empty());
            out.push(Line::pair(head, line_style, body, body_style));
        }
        prev_blank = blank;
        i += 1;
    }
    assert(all.take(all.len() as int) =~= all);
    if out.len() == 0 {
        out.push(Line::pair(first_prefix, kind_style, String::new(), Style::plain()));
    }
    assert(seqs::views(out@) =~= formatted(kind, t@));
    out
}

/// The style of what follows the first span of a line.
pub open spec fn body_style_of(line: Seq<style::SpanView>) -> Style {
    if line.len() > 1 {
        line[1].style
    } else {
        Style::plain()
    }
}

/// The columns left beside a prefix: at least one.
pub open spec fn body_cols(total: usize, prefix: Seq<char>) -> nat {
    let left = less(total as nat, width::cols(prefix) as nat);
    if left == 0 {
        1
    } else {
        left
    }
}

/// A line wrapped to `total` columns: its first span is the prefix, and the
/// rest is cut into pieces that each get a prefix.
pub open spec fn wrapped_line(line: Seq<style::SpanView>, total: usize, kind: LineKind) -> Seq<
    Seq<style::SpanView>,
> {
    if total == 0 || line.len() == 0 {
        seq![line]
    } else {
        let head = line[0];
        let body = style::line_text(line.skip(1));
        let pieces = chunks(body, body_cols(total, head.text));
        if body.len() == 0 {
            seq![style::pair_line(head.text, head.style, body, body_style_of(line))]
        } else {
            Seq::new(
                pieces.len(),
                |i: int|
                    style::pair_line(
                        if i == 0 {
                            head.text
                        } else {
                            rest_prefix(kind, head.text)
                        },
                        head.style,
                        pieces[i],
                        body_style_of(line),
                    ),
            )
        }
    }
}

/// Wraps a line to `total` columns and appends what comes of it.
pub fn wrap_line_into(out: &mut Vec<Line>, line: &Line, total: usize, kind: LineKind)
    ensures
        seqs::views(final(out)@) == seqs::views(old(out)@) + wrapped_line(line@, total, kind),
{
    let ghost before = seqs::views(out@);
    if total == 0 || line.spans.len() == 0 {
        out.push(line.copy());
        assert(seqs::views(out@) =~= before + seq![line@]);
        return ;
    }
    let prefix = line.spans[0].content.clone();
    let head_style = line.spans[0].style;
    let body = line.text_from(1);
    let body_style = if line.spans.len() > 1 {
        line.spans[1].style
    } else {
        Style::plain()
    };
    let left: usize = total.saturating_sub(width::str_width(prefix.as_str()));
    let max: usize = if left == 0 {
        1
    } else {
        left
    };
    if body.as_str().is_empty() {
        let ghost made = style::pair_line(prefix@, head_style, body@, body_style);
        out.push(Line::pair(prefix, head_style, body, body_style));
        assert(seqs::views(out@) =~= before + seq![made]);
        return ;
    }
    let continuation = continuation_prefix(kind, prefix.as_str());
    let pieces = chunk_text(body.as_str(), max);
    let ghost made = wrapped_line(line@, total, kind);
    let mut i: usize = 0;
    assert(seqs::views(out@) =~= before + made.take(0));
    while i < pieces.len()
        invariant
            i <= pieces@.len() == made.len(),
            forall|j: int|
                0 <= j < made.len() ==> #[trigger] made[j] == style::pair_line(
                    if j == 0 {
                        prefix@
                    } else {
                        continuation@
                    },
                    head_style,
                    pieces@[j]@,
                    body_style,
                ),
            seqs::views(out@) == before + made.take(i as int),
        decreases pieces.len() - i,
    {
        let head = if i == 0 {
            prefix.clone()
        } else {
            continuation.clone()
        };
        out.push(Line::pair(head, head_style, pieces[i].clone(), body_style));
        assert(before + made.take(i + 1) =~= (before + made.take(i as int)).push(made[i as int]));
        i += 1;
    }
    assert(made.take(made.len() as int) =~= made);
}

/// Lines wrapped one after the other.
pub open spec fn wrapped_lines(
    lines: Seq<Seq<style::SpanView>>,
    total: usize,
    kind: LineKind,
) -> Seq<Seq<style::SpanView>>
    decreases lines.len(),
{
    if lines.len() == 0 {
        Seq::empty()
    } else {
        wrapped_lines(lines.drop_last(), total, kind) + wrapped_line(lines.last(), total, kind)
    }
}

/// Wraps lines one after the other and appends what comes of them.
pub fn wrap_lines_into(out: &mut Vec<Line>, lines: &Vec<Line>, total: usize, kind: LineKind)
    ensures
        seqs::views(final(out)@) == seqs::views(old(out)@) + wrapped_lines(
            seqs::views(lines@),
            total,
            kind,
        ),
{
    let ghost before = seqs::views(out@);
    let ghost all = seqs::views(lines@);
    let mut i: usize = 0;
    assert(all.take(0) =~= Seq::<Seq<style::SpanView>>::empty());
    assert(before + wrapped_lines(all.take(0), total, kind) =~= before);
    while i < lines.len()
        invariant
            i <= lines@.len(),
            all == seqs::views(lines@),
            seqs::views(out@) == before + wrapped_lines(all.take(i as int), total, kind),
        decreases lines.len() - i,
    {
        wrap_line_into(out, &lines[i], total, kind);
        proof {
            let now = all.take(i + 1);
            assert(now.drop_last() =~= all.take(i as int));
            assert(now.last() == lines@[i as int]@);
            assert(before + wrapped_lines(now, total, kind) =~= (before + wrapped_lines(
                all.take(i as int),
                total,
                kind,
            )) + wrapped_line(now.last(), total, kind));
        }
        i += 1;
    }
    assert(all.take(all.len() as int) =~= all);
}

/// The sum of `a` and `b`, or the largest machine number where it is larger.
pub open spec fn capped_sum(a: nat, b: nat) -> nat {
    if a + b <= usize::MAX {
        a + b
    } else {
        usize::MAX as nat
    }
}

/// The columns that the spans of a line take.
pub open spec fn line_cols(line: Seq<style::SpanView>) -> nat
    decreases line.len(),
{
    if line.len() == 0 {
        0
    } else {
        capped_sum(line_cols(line.drop_last()), width::cols(line.last().text) as nat)
    }
}

/// The columns that the spans of a line take.
pub fn line_display_width(line: &Line) -> (w: usize)
    ensures
        w == line_cols(line@),
{
    let mut w: usize = 0;
    let mut i: usize = 0;
    assert(line@.take(0) =~= Seq::<style::SpanView>::empty());
    while i < line.spans.len()
        invariant
            i <= line.spans@.len(),
            w == line_cols(line@.take(i as int)),
        decreases line.spans.len() - i,
    {
        proof {
            let now = line@.take(i + 1);
            assert(now.drop_last() =~= line@.take(i as int));
            assert(now.last() == line@[i as int]);
        }
        w = w.saturating_add(width::str_width(line.spans[i].content.as_str()));
        i += 1;
    }
    assert(line@.take(line@.len() as int) =~= line@);
    w
}

/// The lines `start..end` of the history followed by the stream.
pub fn collect_lines(history: &Vec<Line>, stream: &Vec<Line>, start: usize, end: usize) -> (out: Vec<
    Line,
>)
    requires
        end <= history@.len() + stream@.len(),
        start <= end || start <= history@.len(),
    ensures
        seqs::views(out@) == (if start <= end {
            (seqs::views(history@) + seqs::views(stream@)).subrange(start as int, end as int)
        } else {
            Seq::empty()
        }),
{
    let ghost all = seqs::views(history@) + seqs::views(stream@);
    if start > end {
        let none: Vec<Line> = Vec::new();
        assert(seqs::views(none@) =~= Seq::<Seq<style::SpanView>>::empty());
        return none;
    }
    let n: usize = history.len();
    let mut out: Vec<Line> = Vec::new();
    let mut i: usize = start;
    assert(seqs::views(out@) =~= all.subrange(start as int, start as int));
    while i < end
        invariant
            start <= i <= end <= history@.len() + stream@.len(),
            n == history@.len(),
            all == seqs::views(history@) + seqs::views(stream@),
            seqs::views(out@) == all.subrange(start as int, i as int),
        decreases end - i,
    {
        if i < n {
            out.push(history[i].copy());
        } else {
            out.push(stream[i - n].copy());
        }
        assert(all.subrange(start as int, i + 1) =~= all.subrange(start as int, i as int).push(
            all[i as int],
        ));
        i += 1;
    }
    out
}

/// The label of live reasoning with a shade of gray for each character.
pub open spec fn shimmered(line: Seq<style::SpanView>, shades: Seq<u8>) -> Seq<style::SpanView> {
    let body = style::line_text(line.skip(1));
    if line.len() == 0 || body.len() == 0 {
        line
    } else {
        seq![line[0]] + Seq::new(
            body.len(),
            |i: int|
                style::SpanView {
                    text: seq![body[i]],
                    style: Style::fg(style::Color::Rgb(shades[i], shades[i], shades[i])),
                },
        )
    }
}

/// Paints the body of a live reasoning line, one shade per character.
pub fn apply_thinking_shimmer(line: &Line, shades: &Vec<u8>) -> (out: Line)
    requires
        line@.len() > 0 ==> style::line_text(line@.skip(1)).len() <= shades@.len(),
    ensures
        out@ == shimmered(line@, shades@),
{
    if line.spans.len() == 0 {
        return line.copy();
    }
    let body = line.text_from(1);
    if body.as_str().is_empty() {
        return line.copy();
    }
    let cs = text::chars_of(body.as_str());
    let ghost made = shimmered(line@, shades@);
    let mut spans: Vec<Span> = vec![line.spans[0].copy()];
    let mut i: usize = 0;
    assert(seqs::views(spans@) =~= made.take(1));
    while i < cs.len()
        invariant
            i <= cs@.len() <= shades@.len(),
            made.len() == cs@.len() + 1,
            forall|j: int|
                0 <= j < cs@.len() ==> made[j + 1] == (style::SpanView {
                    text: seq![#[trigger] cs@[j]],
                    style: Style::fg(style::Color::Rgb(shades@[j], shades@[j], shades@[j])),
                }),
            seqs::views(spans@) == made.take(i + 1),
        decreases cs.len() - i,
    {
        let mut glyph = String::new();
        glyph.push(cs[i]);
        let shade: u8 = shades[i];
        proof {
            assert(glyph@ =~= seq![cs@[i as int]]);
            assert(made.take(i + 2) =~= made.take(i + 1).push(made[i + 1]));
        }
        spans.push(Span::styled(glyph, Style::fg(style::Color::Rgb(shade, shade, shade))));
        i += 1;
    }
    assert(made.take(made.len() as int) =~= made);
    Line { spans }
}

/// How many characters of a line are painted when it shimmers.
pub fn shimmer_len(line: &Line) -> (n: usize)
    ensures
        line@.len() > 0 ==> n == style::line_text(line@.skip(1)).len(),
        line@.len() == 0 ==> n == 0,
{
    if line.spans.len() == 0 {
        0
    } else {
        text::chars_of(line.text_from(1).as_str()).len()
    }
}

/// A line under the pointer: the hover style on every span, and blanks in it
/// up to the width of the view.
pub open spec fn hovered(line: Seq<style::SpanView>, total: usize) -> Seq<style::SpanView> {
    let spans = Seq::new(
        line.len(),
        |i: int|
            style::SpanView { text: line[i].text, style: line[i].style.patch(theme::hover()) },
    );
    let pad = less(total as nat, line_cols(line));
    if pad > 0 {
        spans.push(style::SpanView { text: text::run_of(' ', pad), style: theme::hover() })
    } else {
        spans
    }
}

/// Paints the line under the pointer.
pub fn apply_hover(line: &Line, total: usize) -> (out: Line)
    ensures
        out@ == hovered(line@, total),
{
    let hover = theme::hover();
    let ghost made = Seq::new(
        line@.len(),
        |i: int|
            style::SpanView { text: line@[i].text, style: line@[i].style.patch(theme::hover()) },
    );
    let mut spans: Vec<Span> = Vec::new();
    let mut i: usize = 0;
    assert(seqs::views(spans@) =~= made.take(0));
    while i < line.spans.len()
        invariant
            i <= line.spans@.len(),
            hover == theme::hover(),
            made == Seq::new(
                line@.len(),
                |i: int|
                    style::SpanView {
                        text: line@[i].text,
                        style: line@[i].style.patch(theme::hover()),
                    },
            ),
            seqs::views(spans@) == made.take(i as int),
        decreases line.spans.len() - i,
    {
        let span = &line.spans[i];
        assert(made.take(i + 1) =~= made.take(i as int).push(made[i as int]));
        spans.push(Span::styled(span.content.clone(), span.style.patch(hover)));
        i += 1;
    }
    assert(made.take(made.len() as int) =~= made);
    let pad: usize = total.saturating_sub(line_display_width(line));
    if pad > 0 {
        spans.push(Span::styled(text::spaces(pad), hover));
    }
    Line { spans }
}

/// The marker that stands for lines left out of a body.
pub fn earlier_lines(skipped: usize) -> (out: String)
    ensures
        out@ == "… "@ + text::decimal(skipped as nat) + " earlier lines"@,
{
    let mut out = "… ".to_owned();
    out.append(text::decimal_of(skipped as u64).as_str());
    out.append(" earlier lines");
    out
}

/// The marker that stands for calls left out of a body.
pub fn earlier_calls(skipped: usize) -> (out: String)
    ensures
        out@ == "… "@ + text::decimal(skipped as nat) + " earlier calls"@,
{
    let mut out = "… ".to_owned();
    out.append(text::decimal_of(skipped as u64).as_str());
    out.append(" earlier calls");
    out
}

/// One level of nesting further in.
pub open spec fn deeper(depth: usize) -> usize {
    if depth < usize::MAX {
        (depth + 1) as usize
    } else {
        depth
    }
}

/// Left margin every row at nesting `depth` shares.
pub open spec fn indent_text(depth: nat) -> Seq<char>
    decreases depth,
{
    if depth == 0 {
        MESSAGE_INDENT@
    } else {
        indent_text((depth - 1) as nat) + LINE_INDENT@
    }
}

/// Left margin every row at nesting `depth` shares, so bodies line up.
pub fn indent(depth: usize) -> (out: String)
    ensures
        out@ == indent_text(depth as nat),
{
    let mut out = MESSAGE_INDENT.to_owned();
    let mut i: usize = 0;
    while i < depth
        invariant
            i <= depth,
            out@ == indent_text(i as nat),
        decreases depth - i,
    {
        out.append(LINE_INDENT);
        i += 1;
    }
    out
}

/// What opens the body lines at nesting `depth`.
pub open spec fn body_prefix_text(depth: nat) -> Seq<char> {
    indent_text(depth) + LINE_INDENT@
}

/// What opens the body lines at nesting `depth`.
pub fn body_prefix(depth: usize) -> (out: String)
    ensures
        out@ == body_prefix_text(depth as nat),
{
    let mut out = indent(depth);
    out.append(LINE_INDENT);
    out
}

/// What opens the header of a collapsible at nesting `depth`.
pub open spec fn marker_text(expanded: bool, depth: nat) -> Seq<char> {
    indent_text(depth) + if expanded {
        EXPANDED_MARKER@
    } else {
        COLLAPSED_MARKER@
    }
}

/// What opens the header of a collapsible at nesting `depth`.
pub fn marker_prefix(collapsible: &Collapsible, depth: usize) -> (out: String)
    ensures
        out@ == marker_text(collapsible@.expanded, depth as nat),
{
    let mut out = indent(depth);
    if collapsible.is_expanded() {
        out.append(EXPANDED_MARKER);
    } else {
        out.append(COLLAPSED_MARKER);
    }
    out
}

/// The line that stands for lines left out of a body.
pub open spec fn earlier_marker(skipped: nat, what: Seq<char>) -> Seq<style::SpanView> {
    style::pair_line(
        body_prefix_text(0),
        theme::dim(),
        "… "@ + text::decimal(skipped) + what,
        theme::dim(),
    )
}

/// The line that stands for lines left out of a body.
pub fn earlier_lines_marker(skipped: usize) -> (line: Line)
    ensures
        line@ == earlier_marker(skipped as nat, " earlier lines"@),
{
    Line::pair(body_prefix(0), theme::dim(), earlier_lines(skipped), theme::dim())
}

/// The last `max` lines of a text, under a marker for those before them.
pub open spec fn tail_text(t: Seq<char>, max: nat) -> Seq<char> {
    let lines = text::lines_of(t);
    if lines.len() <= max {
        t
    } else {
        let skip = (lines.len() - max) as nat;
        "… "@ + text::decimal(skip) + " earlier lines"@ + "\n"@ + text::joined(
            lines.skip(skip as int),
            "\n"@,
        )
    }
}

/// Keeps the last `max` lines of a text, under a marker for those before them.
pub fn tail_lines(t: &str, max: usize) -> (out: String)
    ensures
        out@ == tail_text(t@, max as nat),
{
    let lines = text::lines(t);
    let ghost all = text::lines_of(t@);
    let n: usize = lines.len();
    if n <= max {
        return t.to_owned();
    }
    let skip: usize = n - max;
    let mut out = earlier_lines(skip);
    out.append("\n");
    let mut kept: Vec<String> = Vec::new();
    let mut i: usize = skip;
    assert(seqs::views(kept@) =~= all.subrange(skip as int, skip as int));
    while i < n
        invariant
            skip <= i <= n == lines@.len(),
            all == seqs::views(lines@),
            seqs::views(kept@) == all.subrange(skip as int, i as int),
        decreases n - i,
    {
        kept.push(lines[i].clone());
        assert(all.subrange(skip as int, i + 1) =~= all.subrange(skip as int, i as int).push(
            all[i as int],
        ));
        i += 1;
    }
    assert(all.subrange(skip as int, n as int) =~= all.skip(skip as int));
    out.append(text::join(&kept, "\n").as_str());
    out
}

/// The lines of a text section, each behind the prefix of its depth.
pub open spec fn section_lines(parts: Seq<Seq<char>>, kind: LineKind, depth: nat) -> Seq<
    Seq<style::SpanView>,
> {
    Seq::new(
        parts.len(),
        |i: int|
            style::pair_line(
                body_prefix_text(depth),
                kind.style(),
                parts[i],
                diff_style(parts[i], kind.style(), kind),
            ),
    )
}

/// All rows that a text section is wrapped into.
pub open spec fn section_rows(t: Seq<char>, kind: LineKind, total: usize, depth: usize) -> Seq<
    Seq<style::SpanView>,
> {
    wrapped_lines(section_lines(text::lines_of(t), kind, depth as nat), total, kind)
}

/// The rows that a text section is drawn as: all of them, or the newest `limit`
/// under a marker for those before them.
pub open spec fn text_section(
    t: Seq<char>,
    kind: LineKind,
    total: usize,
    depth: usize,
    limit: Option<usize>,
) -> Seq<Seq<style::SpanView>> {
    let rows = section_rows(t, kind, total, depth);
    let skipped = collapsible::left_out(rows.len(), limit);
    if skipped > 0 {
        seq![earlier_marker(skipped, " earlier lines"@)] + rows.skip(skipped as int)
    } else {
        rows
    }
}

/// A text that is still growing takes no more rows than it may and one for the
/// marker, and its newest rows are among them.
pub proof fn live_texts_keep_to_their_rows(
    t: Seq<char>,
    kind: LineKind,
    total: usize,
    depth: usize,
    limit: usize,
)
    ensures
        ({
            let shown = text_section(t, kind, total, depth, Some(limit));
            let rows = section_rows(t, kind, total, depth);
            &&& shown.len() <= limit + 1
            &&& rows.len() <= limit ==> shown == rows
            &&& rows.len() > limit ==> shown.skip(1) == rows.skip(rows.len() - limit)
        }),
{
    let shown = text_section(t, kind, total, depth, Some(limit));
    let rows = section_rows(t, kind, total, depth);
    if rows.len() > limit {
        assert(shown.skip(1) =~= rows.skip(rows.len() - limit));
    }
}

/// The lines that a nested item's own header is drawn as.
pub open spec fn item_header(
    kind: LineKind,
    title: Seq<char>,
    expanded: bool,
    total: usize,
    depth: usize,
) -> Seq<Seq<style::SpanView>> {
    wrapped_line(
        style::pair_line(
            marker_text(expanded, deeper(depth) as nat),
            kind.style(),
            title,
            kind.style(),
        ),
        total,
        kind,
    )
}

/// What a body is drawn as, and the headers of the nested items in it: the
/// sections from `from` on, starting at wrapped line `base`.
pub open spec fn body_lines(
    sections: Seq<collapsible::SectionView>,
    from: nat,
    kind: LineKind,
    total: usize,
    depth: usize,
    path: Seq<usize>,
    base: nat,
    limit: Option<usize>,
) -> (Seq<Seq<style::SpanView>>, Seq<kinds::HeaderView>)
    decreases sections,
{
    if sections.len() <= from || sections.len() == 0 {
        (Seq::empty(), Seq::empty())
    } else {
        let (lines, headers) = body_lines(
            sections.drop_last(),
            from,
            kind,
            total,
            depth,
            path,
            base,
            limit,
        );
        let at = base + lines.len();
        let here = path.push((sections.len() - 1) as usize);
        match sections.last() {
            collapsible::SectionView::Text(t) => (
                lines + text_section(t, kind, total, depth, limit),
                headers,
            ),
            collapsible::SectionView::Item { kind: item, title, detail } => {
                let top = item_header(item, title, detail.expanded, total, depth);
                let header = kinds::HeaderView { line: at, path: here };
                if detail.expanded {
                    let (inner, below) = body_lines(
                        detail.sections,
                        0,
                        item,
                        total,
                        deeper(depth),
                        here,
                        at + top.len(),
                        None,
                    );
                    (lines + top + inner, headers.push(header) + below)
                } else {
                    (lines + top, headers.push(header))
                }
            },
        }
    }
}

/// Draws a text section.
fn wrap_text_section(
    out: &mut Vec<Line>,
    t: &str,
    kind: LineKind,
    total: usize,
    depth: usize,
    limit: Option<usize>,
)
    ensures
        seqs::views(final(out)@) == seqs::views(old(out)@) + text_section(
            t@,
            kind,
            total,
            depth,
            limit,
        ),
{
    let ghost before = seqs::views(out@);
    let parts = text::lines(t);
    let ghost all = text::lines_of(t@);
    let ghost made = section_lines(all, kind, depth as nat);
    let n: usize = parts.len();
    let mut lines: Vec<Line> = Vec::new();
    let mut i: usize = 0;
    assert(seqs::views(lines@) =~= made.take(0));
    while i < n
        invariant
            i <= n == parts@.len(),
            all == seqs::views(parts@),
            made == section_lines(all, kind, depth as nat),
            seqs::views(lines@) == made.take(i as int),
        decreases n - i,
    {
        let part = parts[i].clone();
        let body_style = diff_line_style(part.as_str(), kind.style(), kind);
        proof {
            assert(all[i as int] == part@);
            assert(made.take(i + 1) =~= made.take(i as int).push(made[i as int]));
        }
        lines.push(Line::pair(body_prefix(depth), kind.style(), part, body_style));
        i += 1;
    }
    assert(made.take(made.len() as int) =~= made);
    let mut rows: Vec<Line> = Vec::new();
    assert(seqs::views(rows@) =~= Seq::<Seq<style::SpanView>>::empty());
    wrap_lines_into(&mut rows, &lines, total, kind);
    let ghost wrapped = section_rows(t@, kind, total, depth);
    assert(seqs::views(rows@) =~= wrapped);
    let skipped: usize = match limit {
        Some(max) => rows.len().saturating_sub(max),
        None => 0,
    };
    if skipped > 0 {
        out.push(earlier_lines_marker(skipped));
    }
    let ghost middle = out@;
    let mut newest = rows.split_off(skipped);
    let ghost kept = newest@;
    out.append(&mut newest);
    proof {
        assert(seqs::views(kept) =~= wrapped.skip(skipped as int));
        assert(seqs::views(middle + kept) =~= seqs::views(middle) + seqs::views(kept));
        assert(seqs::views(out@) =~= before + text_section(t@, kind, total, depth, limit));
    }
}

/// Draws the sections of a body from `from` on, and returns the headers of the
/// nested items.
#[verifier::spinoff_prover]
#[verifier::rlimit(50)]
pub fn wrap_sections_into(
    out: &mut Vec<Line>,
    body: &Collapsible,
    from: usize,
    kind: LineKind,
    total: usize,
    depth: usize,
    path: &Vec<usize>,
    limit: Option<usize>,
) -> (headers: Vec<Header>)
    ensures
        ({
            let (lines, found) = body_lines(
                body@.sections,
                from as nat,
                kind,
                total,
                depth,
                path@,
                old(out)@.len(),
                limit,
            );
            &&& seqs::views(final(out)@) == seqs::views(old(out)@) + lines
            &&& seqs::views(headers@) == found
        }),
    decreases *body,
{
    let ghost before = seqs::views(out@);
    let ghost base = out@.len();
    let ghost sections = body@.sections;
    let mut headers: Vec<Header> = Vec::new();
    let mut i: usize = from;
    proof {
        collapsible::lemma_section_views(body.sections@);
        if from <= sections.len() {
            assert(sections.take(from as int).len() == from);
        }
        assert(before + Seq::<Seq<style::SpanView>>::empty() =~= before);
        assert(seqs::views(headers@) =~= Seq::<kinds::HeaderView>::empty());
    }
    while i < body.sections.len()
        invariant
            from <= i,
            i <= sections.len() || i == from,
            sections.len() == body.sections@.len(),
            forall|j: int|
                0 <= j < sections.len() ==> #[trigger] sections[j] == collapsible::section_view(
                    body.sections@[j],
                ),
            i <= sections.len() ==> {
                let (lines, found) = body_lines(
                    sections.take(i as int),
                    from as nat,
                    kind,
                    total,
                    depth,
                    path@,
                    base,
                    limit,
                );
                &&& seqs::views(out@) == before + lines
                &&& seqs::views(headers@) == found
            },
            i > sections.len() ==> {
                &&& seqs::views(out@) == before
                &&& headers@.len() == 0
            },
            before.len() == base,
        decreases body.sections.len() - i,
    {
        let mut here: Vec<usize> = path.clone();
        here.push(i);
        let ghost lines = body_lines(
            sections.take(i as int),
            from as nat,
            kind,
            total,
            depth,
            path@,
            base,
            limit,
        ).0;
        let ghost found = seqs::views(headers@);
        proof {
            let now = sections.take(i + 1);
            assert(now.drop_last() =~= sections.take(i as int));
            assert(now.last() == sections[i as int]);
            assert(here@ =~= path@.push(i));
        }
        match &body.sections[i] {
            Section::Text(t) => {
                wrap_text_section(out, t.as_str(), kind, total, depth, limit);
                proof {
                    assert(seqs::views(out@) =~= before + (lines + text_section(
                        t@,
                        kind,
                        total,
                        depth,
                        limit,
                    )));
                }
            },
            Section::Item { kind: item, title, detail } => {
                let inner_depth: usize = depth.saturating_add(1);
                let marker = Line::pair(
                    marker_prefix(detail, inner_depth),
                    item.style(),
                    title.clone(),
                    item.style(),
                );
                let line: usize = out.len();
                let ghost top = item_header(*item, title@, detail@.expanded, total, depth);
                assert(seqs::views(out@).len() == line);
                wrap_line_into(out, &marker, total, *item);
                headers.push(Header { line, path: here.clone() });
                proof {
                    assert(seqs::views(out@) =~= before + (lines + top));
                    assert(headers@.last()@ =~= (kinds::HeaderView {
                        line: base + lines.len(),
                        path: here@,
                    }));
                }
                if detail.is_expanded() {
                    assert(seqs::views(out@).len() == out@.len());
                    let mut below = wrap_sections_into(
                        out,
                        detail,
                        0,
                        *item,
                        total,
                        inner_depth,
                        &here,
                        None,
                    );
                    let ghost b = below@;
                    let ghost h = headers@;
                    headers.append(&mut below);
                    proof {
                        let (inner, nested) = body_lines(
                            detail@.sections,
                            0,
                            *item,
                            total,
                            deeper(depth),
                            here@,
                            base + lines.len() + top.len(),
                            None,
                        );
                        assert(seqs::views(out@) =~= before + (lines + top + inner));
                        assert(seqs::views(h + b) =~= seqs::views(h) + seqs::views(b));
                    }
                }
            },
        }
        i += 1;
    }
    proof {
        assert(sections.take(sections.len() as int) =~= sections);
        if from > sections.len() {
            assert(before + Seq::<Seq<style::SpanView>>::empty() =~= before);
            assert(seqs::views(headers@) =~= Seq::<kinds::HeaderView>::empty());
        }
    }
    headers
}

/// The lines so far, with an empty one behind them where there are any.
pub open spec fn gapped(lines: Seq<Seq<style::SpanView>>) -> Seq<Seq<style::SpanView>> {
    if lines.len() == 0 {
        lines
    } else {
        lines.push(style::blank_line())
    }
}

/// Sets the next row apart from those before it.
pub fn push_gap(out: &mut Vec<Line>)
    ensures
        seqs::views(final(out)@) == gapped(seqs::views(old(out)@)),
{
    if out.len() > 0 {
        out.push(Line::blank());
    }
}

/// What a row without a body to fold is drawn as.
pub open spec fn row_lines(kind: LineKind, t: Seq<char>, total: usize) -> Seq<
    Seq<style::SpanView>,
> {
    if kind == LineKind::Separator && t.len() == 0 {
        seq![style::blank_line()]
    } else {
        wrapped_lines(formatted(kind, t), total, kind)
    }
}

/// Draws a row without a body to fold.
pub fn wrap_plain_row_into(out: &mut Vec<Line>, kind: LineKind, t: &str, total: usize)
    ensures
        seqs::views(final(out)@) == gapped(seqs::views(old(out)@)) + row_lines(kind, t@, total),
{
    push_gap(out);
    let ghost before = seqs::views(out@);
    if kind == LineKind::Separator && t.is_empty() {
        out.push(Line::blank());
        assert(seqs::views(out@) =~= before + seq![style::blank_line()]);
        return ;
    }
    let lines = format_lines(kind, t);
    wrap_lines_into(out, &lines, total, kind);
}

/// How the composer looked when a prompt was submitted: its border, prompt
/// marker and text colors.
#[derive(Clone, Copy, Debug, PartialEq, Eq, Structural)]
pub struct PromptFrame {
    pub kind: LineKind,
    pub border: Style,
    pub marker_style: Style,
    pub body: Style,
}

impl PromptFrame {
    /// The frame of a prompt, for the kinds of row that are prompts.
    #[verifier::allow_in_spec]
    pub fn of(kind: LineKind) -> Option<PromptFrame>
        returns
            (match kind {
                LineKind::User => Some(
                    PromptFrame {
                        kind,
                        border: theme::border_idle(),
                        marker_style: kind.style(),
                        body: Style::plain(),
                    },
                ),
                LineKind::Shell => Some(
                    PromptFrame {
                        kind,
                        border: kind.style(),
                        marker_style: kind.style(),
                        body: kind.style(),
                    },
                ),
                _ => None,
            }),
    {
        match kind {
            LineKind::User => Some(
                PromptFrame {
                    kind,
                    border: theme::border_idle(),
                    marker_style: kind.style(),
                    body: Style::plain(),
                },
            ),
            LineKind::Shell => Some(
                PromptFrame {
                    kind,
                    border: kind.style(),
                    marker_style: kind.style(),
                    body: kind.style(),
                },
            ),
            _ => None,
        }
    }
}

/// The pieces of one line of a framed prompt: an empty line is one of them.
pub open spec fn frame_chunks(part: Seq<char>, max: nat) -> Seq<Seq<char>> {
    if part.len() == 0 {
        seq![part]
    } else {
        chunks(part, max)
    }
}

/// The pieces of the lines of a framed prompt, in order.
pub open spec fn frame_pieces(parts: Seq<Seq<char>>, max: nat) -> Seq<Seq<char>>
    decreases parts.len(),
{
    if parts.len() == 0 {
        Seq::empty()
    } else {
        frame_pieces(parts.drop_last(), max) + frame_chunks(text::without_cr(parts.last()), max)
    }
}

/// One text line of a framed prompt: left edge, marker, text, padded right
/// edge. The marker shows on the first line only.
pub open spec fn frame_line(frame: PromptFrame, first: bool, piece: Seq<char>, max: nat) -> Seq<
    style::SpanView,
> {
    let marker = frame.kind.gutter_text();
    let side = theme::border_type().vertical;
    seq![
        style::SpanView { text: seq![side, ' '], style: frame.border },
        style::SpanView {
            text: if first {
                marker
            } else {
                text::run_of(' ', width::cols(marker) as nat)
            },
            style: frame.marker_style,
        },
        style::SpanView { text: piece, style: frame.body },
        style::SpanView {
            text: text::run_of(' ', less(max, width::cols(piece) as nat)) + seq![' ', side],
            style: frame.border,
        },
    ]
}

/// The top or bottom edge of a framed prompt.
pub open spec fn frame_rule(frame: PromptFrame, left: char, right: char, total: nat) -> Seq<
    style::SpanView,
> {
    seq![
        style::SpanView {
            text: seq![left] + text::run_of(theme::border_type().horizontal, less(total, 2)) + seq![
                right,
            ],
            style: frame.border,
        },
    ]
}

/// A submitted prompt in its frame.
pub open spec fn framed_lines(frame: PromptFrame, t: Seq<char>, total: usize) -> Seq<
    Seq<style::SpanView>,
> {
    let set = theme::border_type();
    let max = less(
        total as nat,
        PROMPT_FRAME_COLS as nat + width::cols(frame.kind.gutter_text()) as nat,
    );
    let pieces = frame_pieces(text::split_on(message_text(t), '\n'), max);
    seq![frame_rule(frame, set.top_left, set.top_right, total as nat)] + Seq::new(
        pieces.len(),
        |i: int| frame_line(frame, i == 0, pieces[i], max),
    ) + seq![frame_rule(frame, set.bottom_left, set.bottom_right, total as nat)]
}

/// Whether a prompt is drawn in a frame: where there is room for the frame, the
/// marker and some text.
pub open spec fn is_framed(kind: LineKind, total: usize) -> bool {
    &&& PromptFrame::of(kind) is Some
    &&& total > PROMPT_FRAME_COLS + width::cols(kind.gutter_text())
}

fn frame_rule_line(frame: &PromptFrame, left: char, right: char, total: usize) -> (line: Line)
    ensures
        line@ == frame_rule(*frame, left, right, total as nat),
{
    let mut edge = String::new();
    edge.push(left);
    let fill = text::repeat_char(theme::border_type().horizontal, total.saturating_sub(2));
    edge.append(fill.as_str());
    edge.push(right);
    proof {
        assert(edge@ =~= seq![left] + text::run_of(
            theme::border_type().horizontal,
            less(total as nat, 2),
        ) + seq![right]);
    }
    Line::of(edge, frame.border)
}

fn frame_text_line(frame: &PromptFrame, first: bool, piece: String, max: usize) -> (line: Line)
    ensures
        line@ == frame_line(*frame, first, piece@, max as nat),
{
    let ghost expected = frame_line(*frame, first, piece@, max as nat);
    let marker = frame.kind.gutter();
    let side = theme::border_type().vertical;
    let mut left = String::new();
    left.push(side);
    left.push(' ');
    let head = if first {
        marker.to_owned()
    } else {
        text::spaces(width::str_width(marker))
    };
    let mut right = text::spaces(max.saturating_sub(width::str_width(piece.as_str())));
    right.push(' ');
    right.push(side);
    proof {
        assert(left@ =~= seq![side, ' ']);
        assert(right@ =~= expected[3].text);
    }
    let line = Line {
        spans: vec![
            Span::styled(left, frame.border),
            Span::styled(head, frame.marker_style),
            Span::styled(piece, frame.body),
            Span::styled(right, frame.border),
        ],
    };
    assert(line@ =~= expected);
    line
}

/// Frames a submitted prompt like the composer, so it reads as input rather
/// than an answer.
pub fn wrap_prompt_frame_into(out: &mut Vec<Line>, frame: &PromptFrame, t: &str, total: usize)
    requires
        total > PROMPT_FRAME_COLS + width::cols(frame.kind.gutter_text()),
    ensures
        seqs::views(final(out)@) == seqs::views(old(out)@) + framed_lines(*frame, t@, total),
{
    let ghost before = seqs::views(out@);
    let set = theme::border_type();
    let marker_width: usize = width::str_width(frame.kind.gutter());
    let max: usize = total - PROMPT_FRAME_COLS - marker_width;
    let ghost top = frame_rule(*frame, set.top_left, set.top_right, total as nat);
    out.push(frame_rule_line(frame, set.top_left, set.top_right, total));
    let message = trim_message(t);
    let parts = text::split(message.as_str(), '\n');
    let ghost all = seqs::views(parts@);
    let ghost made = |n: int|
        Seq::new(
            frame_pieces(all.take(n), max as nat).len(),
            |i: int| frame_line(*frame, i == 0, frame_pieces(all.take(n), max as nat)[i], max as nat),
        );
    let mut first = true;
    let mut i: usize = 0;
    proof {
        assert(all.take(0) =~= Seq::<Seq<char>>::empty());
        assert(seqs::views(out@) =~= before + seq![top] + made(0));
    }
    while i < parts.len()
        invariant
            i <= parts@.len(),
            all == seqs::views(parts@),
            max > 0,
            first == (frame_pieces(all.take(i as int), max as nat).len() == 0),
            made == (|n: int|
                Seq::new(
                    frame_pieces(all.take(n), max as nat).len(),
                    |i: int|
                        frame_line(
                            *frame,
                            i == 0,
                            frame_pieces(all.take(n), max as nat)[i],
                            max as nat,
                        ),
                )),
            seqs::views(out@) == before + seq![top] + made(i as int),
        decreases parts.len() - i,
    {
        let part = text::strip_cr(parts[i].as_str());
        let pieces = if part.as_str().is_empty() {
            vec![part.clone()]
        } else {
            chunk_text(part.as_str(), max)
        };
        let ghost earlier = frame_pieces(all.take(i as int), max as nat);
        let ghost new = frame_chunks(part@, max as nat);
        let ghost start = seqs::views(out@);
        proof {
            assert(seqs::views(pieces@) =~= new);
            let now = all.take(i + 1);
            assert(now.drop_last() =~= all.take(i as int));
            assert(now.last() == parts@[i as int]@);
            assert(frame_pieces(now, max as nat) == earlier + new);
            wrapping_loses_nothing(part@, max as nat);
        }
        let mut j: usize = 0;
        let ghost drawn = Seq::new(
            new.len(),
            |k: int| frame_line(*frame, earlier.len() + k == 0, new[k], max as nat),
        );
        assert(seqs::views(out@) =~= start + drawn.take(0));
        while j < pieces.len()
            invariant
                j <= pieces@.len() == new.len(),
                new == seqs::views(pieces@),
                first == (earlier.len() == 0 && j == 0),
                drawn == Seq::new(
                    new.len(),
                    |k: int| frame_line(*frame, earlier.len() + k == 0, new[k], max as nat),
                ),
                seqs::views(out@) == start + drawn.take(j as int),
            decreases pieces.len() - j,
        {
            out.push(frame_text_line(frame, first, pieces[j].clone(), max));
            first = false;
            assert(start + drawn.take(j + 1) =~= (start + drawn.take(j as int)).push(
                drawn[j as int],
            ));
            j += 1;
        }
        proof {
            assert(drawn.take(drawn.len() as int) =~= drawn);
            assert(made(i + 1) =~= made(i as int) + drawn);
            assert(start + drawn =~= before + seq![top] + made(i + 1));
        }
        i += 1;
    }
    out.push(frame_rule_line(frame, set.bottom_left, set.bottom_right, total));
    proof {
        assert(all.take(all.len() as int) =~= all);
        assert(seqs::views(out@) =~= before + framed_lines(*frame, t@, total));
    }
}

/// Draws a row: prompts in a frame where there is room for it, the others with
/// their gutter.
pub fn wrap_row_into(out: &mut Vec<Line>, kind: LineKind, t: &str, total: usize)
    ensures
        seqs::views(final(out)@) == gapped(seqs::views(old(out)@)) + (if is_framed(kind, total) {
            framed_lines(PromptFrame::of(kind)->0, t@, total)
        } else {
            row_lines(kind, t@, total)
        }),
{
    let marker_width: usize = width::str_width(kind.gutter());
    if total > PROMPT_FRAME_COLS && total - PROMPT_FRAME_COLS > marker_width {
        if let Some(frame) = PromptFrame::of(kind) {
            push_gap(out);
            wrap_prompt_frame_into(out, &frame, t, total);
            return ;
        }
    }
    wrap_plain_row_into(out, kind, t, total);
}

/// The lines that the header of a row with a body is drawn as.
pub open spec fn row_header(
    kind: LineKind,
    title: Seq<char>,
    expanded: bool,
    total: usize,
) -> Seq<Seq<style::SpanView>> {
    wrapped_line(
        style::pair_line(marker_text(expanded, 0), kind.style(), title, kind.style()),
        total,
        kind,
    )
}

/// Draws the header of a row with a body, and returns it.
fn wrap_header_into(
    out: &mut Vec<Line>,
    kind: LineKind,
    title: &str,
    body: &Collapsible,
    total: usize,
) -> (header: Header)
    ensures
        seqs::views(final(out)@) == gapped(seqs::views(old(out)@)) + row_header(
            kind,
            title@,
            body@.expanded,
            total,
        ),
        header@ == (kinds::HeaderView {
            line: gapped(seqs::views(old(out)@)).len(),
            path: Seq::empty(),
        }),
{
    push_gap(out);
    let line: usize = out.len();
    assert(line == seqs::views(out@).len());
    let kind_style = kind.style();
    let top = Line::pair(marker_prefix(body, 0), kind_style, title.to_owned(), kind_style);
    wrap_line_into(out, &top, total, kind);
    let header = Header { line, path: Vec::new() };
    assert(header@.path =~= Seq::<usize>::empty());
    header
}

/// A run of headers without those above `cut`, each moved up by `by`.
pub open spec fn shifted_headers(headers: Seq<kinds::HeaderView>, cut: nat, by: nat) -> Seq<
    kinds::HeaderView,
>
    decreases headers.len(),
{
    if headers.len() == 0 {
        Seq::empty()
    } else {
        let rest = shifted_headers(headers.drop_last(), cut, by);
        let last = headers.last();
        if last.line >= cut {
            rest.push(kinds::HeaderView { line: less(last.line, by), path: last.path })
        } else {
            rest
        }
    }
}

/// The lines of a body from `body` on, kept within `rows`: those dropped from
/// its head hide behind one marker line.
pub open spec fn windowed(
    lines: Seq<Seq<style::SpanView>>,
    headers: Seq<kinds::HeaderView>,
    body: nat,
    rows: nat,
) -> (Seq<Seq<style::SpanView>>, Seq<kinds::HeaderView>) {
    let all = (lines.len() - body) as nat;
    if all <= rows {
        (lines, headers)
    } else {
        let skipped = (all - rows + 1) as nat;
        (
            lines.take(body as int).push(earlier_marker(skipped, " earlier lines"@)) + lines.skip(
                (body + skipped) as int,
            ),
            shifted_headers(headers, body + skipped, (skipped - 1) as nat),
        )
    }
}

/// A windowed body takes no more rows than it may.
pub proof fn window_keeps_to_its_rows(
    lines: Seq<Seq<style::SpanView>>,
    headers: Seq<kinds::HeaderView>,
    body: nat,
    rows: nat,
)
    requires
        body <= lines.len(),
        rows >= 1,
    ensures
        windowed(lines, headers, body, rows).0.len() <= body + rows,
        windowed(lines, headers, body, rows).0.take(body as int) == lines.take(body as int),
        rows >= 2 && lines.len() > body ==> windowed(lines, headers, body, rows).0.last()
            == lines.last(),
{
    let out = windowed(lines, headers, body, rows).0;
    assert(out.take(body as int) =~= lines.take(body as int));
}

/// Keeps a live body within `rows` screen rows, so deltas cannot push older
/// rows out of the view. Rows dropped from the head — counted after wrapping,
/// so a single long line may cost many of them — hide behind one marker row.
pub fn window_live_body(out: &mut Vec<Line>, nested: &mut Vec<Header>, body: usize, rows: usize)
    requires
        body <= old(out)@.len(),
        rows >= 1 || body == old(out)@.len(),
    ensures
        ({
            let (lines, headers) = windowed(
                seqs::views(old(out)@),
                seqs::views(old(nested)@),
                body as nat,
                rows as nat,
            );
            &&& seqs::views(final(out)@) == lines
            &&& seqs::views(final(nested)@) == headers
        }),
{
    let all: usize = out.len() - body;
    if all <= rows {
        return ;
    }
    let skipped: usize = all - rows + 1;
    let cut: usize = body + skipped;
    let ghost lines = seqs::views(out@);
    let ghost headers = seqs::views(nested@);
    let mut tail = out.split_off(cut);
    out.truncate(body);
    let ghost t = tail@;
    proof {
        assert(seqs::views(out@) =~= lines.take(body as int));
        assert(seqs::views(t) =~= lines.skip(cut as int));
    }
    out.push(earlier_lines_marker(skipped));
    let ghost o = out@;
    out.append(&mut tail);
    assert(seqs::views(o + t) =~= seqs::views(o) + seqs::views(t));
    let mut kept: Vec<Header> = Vec::new();
    let mut i: usize = 0;
    let by: usize = skipped - 1;
    proof {
        assert(headers.take(0) =~= Seq::<kinds::HeaderView>::empty());
        assert(seqs::views(kept@) =~= Seq::<kinds::HeaderView>::empty());
    }
    while i < nested.len()
        invariant
            i <= nested@.len(),
            headers == seqs::views(nested@),
            by < cut,
            seqs::views(kept@) == shifted_headers(headers.take(i as int), cut as nat, by as nat),
        decreases nested.len() - i,
    {
        proof {
            let now = headers.take(i + 1);
            assert(now.drop_last() =~= headers.take(i as int));
            assert(now.last() == nested@[i as int]@);
        }
        if nested[i].line >= cut {
            kept.push(Header { line: nested[i].line - by, path: nested[i].path.clone() });
        }
        i += 1;
    }
    assert(headers.take(headers.len() as int) =~= headers);
    *nested = kept;
}

/// What a row with a body is drawn as, behind the lines so far: its header and
/// its body, kept within `rows` while it grows.
pub open spec fn collapsible_rows(
    before: Seq<Seq<style::SpanView>>,
    kind: LineKind,
    title: Seq<char>,
    body: collapsible::CollapsibleView,
    total: usize,
    rows: Option<usize>,
) -> (Seq<Seq<style::SpanView>>, Seq<kinds::HeaderView>) {
    let start = gapped(before);
    let top = row_header(kind, title, body.expanded, total);
    let own = kinds::HeaderView { line: start.len(), path: Seq::empty() };
    if !body.expanded {
        (start + top, seq![own])
    } else {
        let at = start.len() + top.len();
        let (lines, nested) = body_lines(
            body.sections,
            0,
            kind,
            total,
            0,
            Seq::empty(),
            at,
            None,
        );
        let (shown, found) = match rows {
            Some(rows) => windowed(start + top + lines, nested, at, rows as nat),
            None => (start + top + lines, nested),
        };
        (shown, seq![own] + found)
    }
}

proof fn lemma_headers_inside(
    sections: Seq<collapsible::SectionView>,
    from: nat,
    kind: LineKind,
    total: usize,
    depth: usize,
    path: Seq<usize>,
    base: nat,
    limit: Option<usize>,
)
    ensures
        forall|i: int|
            0 <= i < body_lines(sections, from, kind, total, depth, path, base, limit).1.len()
                ==> (#[trigger] body_lines(
                sections,
                from,
                kind,
                total,
                depth,
                path,
                base,
                limit,
            ).1[i]).line >= base,
    decreases sections,
{
    if sections.len() > from && sections.len() > 0 {
        lemma_headers_inside(sections.drop_last(), from, kind, total, depth, path, base, limit);
        let (lines, headers) = body_lines(
            sections.drop_last(),
            from,
            kind,
            total,
            depth,
            path,
            base,
            limit,
        );
        let all = body_lines(sections, from, kind, total, depth, path, base, limit).1;
        if let collapsible::SectionView::Item { kind: item, title, detail } = sections.last() {
            let top = item_header(item, title, detail.expanded, total, depth);
            let here = path.push((sections.len() - 1) as usize);
            let at = base + lines.len();
            lemma_headers_inside(
                detail.sections,
                0,
                item,
                total,
                deeper(depth),
                here,
                at + top.len(),
                None,
            );
            let below = body_lines(
                detail.sections,
                0,
                item,
                total,
                deeper(depth),
                here,
                at + top.len(),
                None,
            ).1;
            assert forall|i: int| 0 <= i < all.len() implies all[i].line >= base by {
                if i < headers.len() {
                    assert(all[i] == headers[i]);
                } else if i > headers.len() {
                    assert(all[i] == below[i - headers.len() - 1]);
                }
            }
        } else {
            assert(all == headers);
        }
    }
}

/// Wraps a collapsible row and returns its markers: the row's own header
/// first, then one per nested item that is currently rendered. `live_rows`
/// caps the rows of a body that is still growing.
pub fn wrap_collapsible_into(
    out: &mut Vec<Line>,
    kind: LineKind,
    title: &str,
    body: &Collapsible,
    total: usize,
    live_rows: Option<usize>,
) -> (headers: Vec<Header>)
    requires
        live_rows is Some ==> live_rows->0 >= 1,
    ensures
        ({
            let (lines, found) = collapsible_rows(
                seqs::views(old(out)@),
                kind,
                title@,
                body@,
                total,
                live_rows,
            );
            &&& seqs::views(final(out)@) == lines
            &&& seqs::views(headers@) == found
        }),
{
    let own = wrap_header_into(out, kind, title, body, total);
    let ghost o = own@;
    let mut headers = vec![own];
    let ghost first = headers@;
    assert(seqs::views(first) =~= seq![o]);
    if body.is_expanded() {
        let at: usize = out.len();
        let ghost start = seqs::views(out@);
        assert(start.len() == at);
        let empty: Vec<usize> = Vec::new();
        assert(empty@ =~= Seq::<usize>::empty());
        let mut nested = wrap_sections_into(out, body, 0, kind, total, 0, &empty, None);
        proof {
            lemma_headers_inside(
                body@.sections,
                0,
                kind,
                total,
                0,
                Seq::empty(),
                at as nat,
                None,
            );
            assert forall|i: int| 0 <= i < nested@.len() implies nested@[i].line >= at by {
                assert(seqs::views(nested@)[i].line >= at);
            }
            assert(seqs::views(out@).len() == out@.len());
        }
        if let Some(rows) = live_rows {
            window_live_body(out, &mut nested, at, rows);
        }
        let ghost n = nested@;
        headers.append(&mut nested);
        assert(seqs::views(first + n) =~= seqs::views(first) + seqs::views(n));
    }
    headers
}

/// What a row with a body is drawn as in the transcript, behind the lines so
/// far. Of a body that is still growing only the newest `limit` calls, and the
/// newest `limit` rows of each text, are drawn, under markers for the others.
pub open spec fn live_rows(
    before: Seq<Seq<style::SpanView>>,
    kind: LineKind,
    title: Seq<char>,
    body: collapsible::CollapsibleView,
    total: usize,
    limit: Option<usize>,
) -> (Seq<Seq<style::SpanView>>, Seq<kinds::HeaderView>) {
    let start = gapped(before);
    let top = row_header(kind, title, body.expanded, total);
    let own = kinds::HeaderView { line: start.len(), path: Seq::empty() };
    if !body.expanded {
        (start + top, seq![own])
    } else {
        let skipped = collapsible::left_out(body.sections.len(), limit);
        let head = if skipped > 0 {
            (start + top).push(earlier_marker(skipped, " earlier calls"@))
        } else {
            start + top
        };
        let (lines, nested) = body_lines(
            body.sections,
            skipped,
            kind,
            total,
            0,
            Seq::empty(),
            head.len(),
            limit,
        );
        (head + lines, seq![own] + nested)
    }
}

/// Wraps a collapsible row of the transcript and returns its markers: the
/// row's own header first, then one per nested item that is drawn.
pub fn wrap_live_collapsible_into(
    out: &mut Vec<Line>,
    kind: LineKind,
    title: &str,
    body: &Collapsible,
    total: usize,
    limit: Option<usize>,
) -> (headers: Vec<Header>)
    ensures
        ({
            let (lines, found) = live_rows(
                seqs::views(old(out)@),
                kind,
                title@,
                body@,
                total,
                limit,
            );
            &&& seqs::views(final(out)@) == lines
            &&& seqs::views(headers@) == found
        }),
{
    let own = wrap_header_into(out, kind, title, body, total);
    let ghost o = own@;
    let mut headers = vec![own];
    let ghost first = headers@;
    assert(seqs::views(first) =~= seq![o]);
    if body.is_expanded() {
        proof {
            collapsible::lemma_section_views(body.sections@);
        }
        let (skipped, _rest) = body.visible_sections(limit);
        if skipped > 0 {
            out.push(
                Line::pair(body_prefix(0), theme::dim(), earlier_calls(skipped), theme::dim()),
            );
        }
        let empty: Vec<usize> = Vec::new();
        assert(empty@ =~= Seq::<usize>::empty());
        assert(seqs::views(out@).len() == out@.len());
        let mut nested = wrap_sections_into(out, body, skipped, kind, total, 0, &empty, limit);
        let ghost n = nested@;
        headers.append(&mut nested);
        assert(seqs::views(first + n) =~= seqs::views(first) + seqs::views(n));
    }
    headers
}

/// Reasoning that is still growing takes no more rows below its header than it
/// may and one for the marker, however long its lines are.
pub proof fn live_reasoning_keeps_to_its_rows(
    before: Seq<Seq<style::SpanView>>,
    kind: LineKind,
    title: Seq<char>,
    body: collapsible::CollapsibleView,
    t: Seq<char>,
    total: usize,
    limit: usize,
)
    requires
        limit >= 1,
        body.sections == seq![collapsible::SectionView::Text(t)],
    ensures
        live_rows(before, kind, title, body, total, Some(limit)).0.len() <= gapped(before).len()
            + row_header(kind, title, body.expanded, total).len() + limit + 1,
{
    live_texts_keep_to_their_rows(t, kind, total, 0, limit);
    let start = gapped(before) + row_header(kind, title, body.expanded, total);
    let none = body.sections.drop_last();
    assert(none =~= Seq::<collapsible::SectionView>::empty());
    reveal_with_fuel(body_lines, 2);
    assert(body_lines(body.sections, 0, kind, total, 0, Seq::empty(), start.len(), Some(limit)).0
        =~= text_section(t, kind, total, 0, Some(limit)));
}

/// Pieces behind others go behind what those are together.
pub proof fn lemma_concatenated_add(a: Seq<Seq<char>>, b: Seq<Seq<char>>)
    ensures
        concatenated(a + b) == concatenated(a) + concatenated(b),
    decreases b.len(),
{
    if b.len() == 0 {
        assert(a + b =~= a);
        assert(concatenated(a) + concatenated(b) =~= concatenated(a));
    } else {
        lemma_concatenated_add(a, b.drop_last());
        assert(a + b =~= (a + b.drop_last()).push(b.last()));
        assert(b =~= b.drop_last().push(b.last()));
        lemma_concatenated_push(a + b.drop_last(), b.last());
        lemma_concatenated_push(b.drop_last(), b.last());
        assert(concatenated(a) + (concatenated(b.drop_last()) + b.last())
            =~= concatenated(a) + concatenated(b.drop_last()) + b.last());
    }
}

/// A duration below a minute is told in seconds, with a digit behind the point
/// where it is not nought; a longer one in minutes and seconds.
pub proof fn durations_are_told(ms: nat)
    ensures
        ms < 60_000 && (ms / 100) % 10 == 0 ==> duration_text(ms) == text::decimal(ms / 1000)
            + "s"@,
        ms < 60_000 && (ms / 100) % 10 != 0 ==> duration_text(ms) == text::decimal(ms / 1000)
            + "."@ + text::decimal((ms / 100) % 10) + "s"@,
        ms >= 60_000 ==> duration_text(ms) == text::decimal(ms / 60_000) + "m "@ + text::decimal(
            (ms % 60_000) / 1000,
        ) + "s"@,
{
    assert(ms < 60_000 ==> ms / 60_000 == 0 && ms % 60_000 == ms);
    assert((ms / 100) / 10 == ms / 1000);
}

/// Of a text with more lines than may stay the last ones stay, under a line that
/// tells how many were left out; a shorter text stays whole.
pub proof fn tails_keep_the_last_lines(t: Seq<char>, max: nat)
    ensures
        text::lines_of(t).len() <= max ==> tail_text(t, max) == t,
        text::lines_of(t).len() > max ==> tail_text(t, max) == "… "@ + text::decimal(
            (text::lines_of(t).len() - max) as nat,
        ) + " earlier lines"@ + "\n"@ + text::joined(
            text::lines_of(t).skip(text::lines_of(t).len() - max),
            "\n"@,
        ),
{
}

} // verus!
