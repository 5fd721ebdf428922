//! What the lines of a row show of its text.
use vstd::prelude::*;

use super::collapsible;
use super::kinds::LineKind;
use super::model;
use super::selection;
use super::wrap;
use crate::style;
use crate::text;
use crate::width;

verus! {

/// What a line shows behind its first span.
pub open spec fn body_of(line: Seq<style::SpanView>) -> Seq<char> {
    style::line_text(line.skip(1))
}

/// What lines show behind their first spans.
pub open spec fn bodies(lines: Seq<Seq<style::SpanView>>) -> Seq<Seq<char>> {
    Seq::new(lines.len(), |i: int| body_of(lines[i]))
}

/// Whether a text has anything to see.
pub open spec fn has_ink(t: Seq<char>) -> bool {
    exists|k: int| 0 <= k < t.len() && !text::is_white(#[trigger] t[k])
}

/// The texts that have anything to see, in order.
pub open spec fn inked(texts: Seq<Seq<char>>) -> Seq<Seq<char>>
    decreases texts.len(),
{
    if texts.len() == 0 {
        Seq::empty()
    } else if has_ink(texts.last()) {
        inked(texts.drop_last()).push(texts.last())
    } else {
        inked(texts.drop_last())
    }
}

/// The texts that are not empty, in order.
pub open spec fn filled(texts: Seq<Seq<char>>) -> Seq<Seq<char>>
    decreases texts.len(),
{
    if texts.len() == 0 {
        Seq::empty()
    } else if texts.last().len() > 0 {
        filled(texts.drop_last()).push(texts.last())
    } else {
        filled(texts.drop_last())
    }
}

/// How often a text without anything to see follows one with.
pub open spec fn breaks(texts: Seq<Seq<char>>) -> nat
    decreases texts.len(),
{
    if texts.len() < 2 {
        0
    } else {
        breaks(texts.drop_last()) + if has_ink(texts[texts.len() - 2]) && !has_ink(texts.last()) {
            1nat
        } else {
            0nat
        }
    }
}

pub proof fn lemma_pair_body(a: Seq<char>, s: style::Style, b: Seq<char>, z: style::Style)
    ensures
        body_of(style::pair_line(a, s, b, z)) == b,
{
    let rest = style::pair_line(a, s, b, z).skip(1);
    assert(rest =~= seq![style::SpanView { text: b, style: z }]);
    assert(rest.drop_last() =~= Seq::<style::SpanView>::empty());
    reveal_with_fuel(style::line_text, 3);
    assert(style::line_text(rest) =~= b);
}

proof fn lemma_trimmed_start(t: Seq<char>)
    ensures
        text::trimmed_start(t).len() > 0 <==> has_ink(t),
        text::trimmed_start(t).len() > 0 ==> !text::is_white(text::trimmed_start(t)[0]),
    decreases t.len(),
{
    if t.len() > 0 {
        if text::is_white(t[0]) {
            let rest = t.skip(1);
            lemma_trimmed_start(rest);
            if has_ink(t) {
                let k = choose|k: int| 0 <= k < t.len() && !text::is_white(#[trigger] t[k]);
                assert(rest[k - 1] == t[k]);
            }
            if has_ink(rest) {
                let k = choose|k: int| 0 <= k < rest.len() && !text::is_white(#[trigger] rest[k]);
                assert(t[k + 1] == rest[k]);
            }
        } else {
            assert(!text::is_white(t[0]));
        }
    }
}

proof fn lemma_trimmed_end(t: Seq<char>)
    ensures
        text::trimmed_end(t).len() > 0 <==> has_ink(t),
    decreases t.len(),
{
    if t.len() > 0 {
        if text::is_white(t.last()) {
            let rest = t.drop_last();
            lemma_trimmed_end(rest);
            if has_ink(t) {
                let k = choose|k: int| 0 <= k < t.len() && !text::is_white(#[trigger] t[k]);
                assert(rest[k] == t[k]);
            }
            if has_ink(rest) {
                let k = choose|k: int| 0 <= k < rest.len() && !text::is_white(#[trigger] rest[k]);
                assert(t[k] == rest[k]);
            }
        } else {
            assert(!text::is_white(t[t.len() - 1]));
        }
    }
}

/// A line counts as blank exactly where it has nothing to see.
pub proof fn blank_lines_have_nothing_to_see(t: Seq<char>)
    ensures
        wrap::is_blank(t) <==> !has_ink(t),
{
    lemma_trimmed_start(t);
    lemma_trimmed_end(t);
    lemma_trimmed_start(text::trimmed_end(t));
    lemma_trimmed_end(text::trimmed_start(t));
    let a = text::trimmed_start(t);
    if a.len() > 0 {
        assert(!text::is_white(a[0]));
        assert(has_ink(a));
    }
    let b = text::trimmed_end(t);
    if t.len() > 0 {
        lemma_trimmed_end_ink(t);
    }
}

proof fn lemma_trimmed_end_ink(t: Seq<char>)
    ensures
        has_ink(t) ==> has_ink(text::trimmed_end(t)),
    decreases t.len(),
{
    if t.len() > 0 && text::is_white(t.last()) {
        lemma_trimmed_end_ink(t.drop_last());
        if has_ink(t) {
            let k = choose|k: int| 0 <= k < t.len() && !text::is_white(#[trigger] t[k]);
            assert(t.drop_last()[k] == t[k]);
        }
    }
}

pub proof fn lemma_shown(parts: Seq<Seq<char>>)
    ensures
        filled(wrap::shown_parts(parts)) == inked(parts),
        wrap::shown_parts(parts).len() == inked(parts).len() + breaks(parts),
        forall|j: int|
            0 <= j < wrap::shown_parts(parts).len() && (#[trigger] wrap::shown_parts(
                parts,
            )[j]).len() == 0 ==> j > 0 && wrap::shown_parts(parts)[j - 1].len() > 0,
        parts.len() > 0 && has_ink(parts.last()) ==> wrap::shown_parts(parts).len() > 0
            && wrap::shown_parts(parts).last() == parts.last(),
    decreases parts.len(),
{
    if parts.len() > 0 {
        let rest = parts.drop_last();
        lemma_shown(rest);
        let before = wrap::shown_parts(rest);
        let now = wrap::shown_parts(parts);
        blank_lines_have_nothing_to_see(parts.last());
        if parts.len() > 1 {
            blank_lines_have_nothing_to_see(parts[parts.len() - 2]);
            assert(rest.last() == parts[parts.len() - 2]);
        }
        if now.len() > before.len() {
            assert(now.drop_last() =~= before);
        }
        assert forall|j: int| 0 <= j < now.len() && (#[trigger] now[j]).len() == 0 implies j > 0
            && now[j - 1].len() > 0 by {
            if j < before.len() {
                assert(before[j] == now[j]);
            }
        }
    }
}

/// Formatting changes no line that has anything to see: behind the gutter the
/// lines that are not empty are exactly those of the text, unchanged and in order.
/// Lines without anything to see become one empty line behind each line that they
/// follow, and none above the first; a text without anything to see is one empty
/// line.
pub proof fn formatting_keeps_the_lines(kind: LineKind, t: Seq<char>)
    requires
        kind != LineKind::Thinking,
    ensures
        ({
            let lines = text::lines_of(t);
            let shown = bodies(wrap::formatted(kind, t));
            &&& filled(shown) == inked(lines)
            &&& inked(lines).len() > 0 ==> shown.len() == inked(lines).len() + breaks(lines)
            &&& inked(lines).len() == 0 ==> shown == seq![Seq::<char>::empty()]
            &&& forall|j: int|
                0 <= j < shown.len() && (#[trigger] shown[j]).len() == 0 && shown.len() > 1 ==> j
                    > 0 && shown[j - 1].len() > 0
        }),
{
    let lines = text::lines_of(t);
    let parts = wrap::shown_parts(lines);
    let made = wrap::formatted(kind, t);
    let shown = bodies(made);
    lemma_shown(lines);
    lemma_breaks(lines);
    let none = Seq::<char>::empty();
    if parts.len() == 0 {
        lemma_pair_body(wrap::prefix_text(kind), kind.style(), none, style::Style::plain());
        assert(shown =~= seq![none]);
        assert(seq![none].drop_last() =~= Seq::<Seq<char>>::empty());
        reveal_with_fuel(filled, 2);
    } else {
        assert forall|i: int| 0 <= i < parts.len() implies #[trigger] shown[i] == parts[i] by {
            let line_style = wrap::diff_style(parts[i], kind.style(), kind);
            lemma_pair_body(
                if i == 0 {
                    wrap::prefix_text(kind)
                } else {
                    wrap::rest_prefix(kind, wrap::prefix_text(kind))
                },
                line_style,
                parts[i],
                if wrap::styles_body(kind) {
                    line_style
                } else {
                    style::Style::plain()
                },
            );
        }
        assert(shown =~= parts);
        assert(filled(shown) == inked(lines));
        if inked(lines).len() == 0 {
            assert(false) by {
                assert(parts[0].len() == 0 ==> false);
                lemma_filled(parts);
            }
        }
    }
}

pub proof fn lemma_filled(texts: Seq<Seq<char>>)
    requires
        texts.len() > 0,
        texts[0].len() > 0,
    ensures
        filled(texts).len() > 0,
    decreases texts.len(),
{
    if texts.last().len() == 0 {
        lemma_filled(texts.drop_last());
    }
}

pub proof fn lemma_breaks(texts: Seq<Seq<char>>)
    ensures
        inked(texts).len() == 0 ==> breaks(texts) == 0,
        texts.len() > 0 && has_ink(texts.last()) ==> inked(texts).len() > 0,
    decreases texts.len(),
{
    if texts.len() > 0 {
        lemma_breaks(texts.drop_last());
    }
}

/// A formatted line is a gutter and what it shows. The first gutter is the kind's;
/// behind it assistant prose has blanks as wide, and the others the same again.
/// Only diffs, commands and separators colour what they show, and of a diff the
/// added and the removed lines each in their own way.
pub proof fn formatted_lines_have_their_gutters(kind: LineKind, t: Seq<char>, i: int)
    requires
        kind != LineKind::Thinking,
        0 <= i < wrap::formatted(kind, t).len(),
    ensures
        ({
            let line = wrap::formatted(kind, t)[i];
            let gutter = if kind == LineKind::User {
                "› "@
            } else if kind == LineKind::Shell {
                " "@ + "$ "@
            } else if kind == LineKind::Text {
                " "@ + "∙ "@
            } else {
                " "@ + "  "@
            };
            &&& line.len() == 2
            &&& i == 0 || kind != LineKind::Text ==> line[0].text == gutter
            &&& i > 0 && kind == LineKind::Text ==> line[0].text == text::run_of(
                ' ',
                width::cols(gutter) as nat,
            )
            &&& kind != LineKind::Diff ==> line[0].style == kind.style()
            &&& kind == LineKind::Diff && line[1].text.len() > 0 && line[1].text[0] == '+' ==> line[1].style
                == super::super::theme::diff_added()
            &&& kind == LineKind::Diff && line[1].text.len() > 0 && line[1].text[0] == '-' ==> line[1].style
                == super::super::theme::diff_removed()
            &&& kind == LineKind::Shell && line[1].text.len() > 0 ==> line[1].style == kind.style()
            &&& kind != LineKind::Diff && kind != LineKind::Shell && kind != LineKind::Separator
                ==> line[1].style == style::Style::plain()
        }),
{
}

/// Of reasoning a row shows its label alone: the one of reasoning under way, or how
/// long it took, or that there was some.
pub proof fn reasoning_shows_its_label_alone(t: Seq<char>)
    ensures
        ({
            let shown = bodies(wrap::formatted(LineKind::Thinking, t));
            &&& shown.len() == 1
            &&& shown[0] == "Thinking..."@ || ("Thought for"@).is_prefix_of(shown[0]) || shown[0]
                == "Thought"@
            &&& t == "Thinking..."@ || ("Thought for"@).is_prefix_of(t) ==> shown[0] == t
        }),
{
    let kind = LineKind::Thinking;
    lemma_pair_body(wrap::prefix_text(kind), kind.style(), wrap::thinking_label(t), kind.style());
}

proof fn lemma_leading(s: Seq<char>) -> (i: int)
    ensures
        0 <= i <= s.len(),
        wrap::without_leading_breaks(s) == s.skip(i),
        forall|k: int| 0 <= k < i ==> #[trigger] s[k] == '\n' || s[k] == '\r',
        i < s.len() ==> s[i] != '\n' && s[i] != '\r',
    decreases s.len(),
{
    if s.len() > 0 && (s[0] == '\n' || s[0] == '\r') {
        let rest = s.skip(1);
        let j = lemma_leading(rest);
        assert(rest.skip(j) =~= s.skip(j + 1));
        assert forall|k: int| 0 <= k < j + 1 implies #[trigger] s[k] == '\n' || s[k] == '\r' by {
            if k > 0 {
                assert(rest[k - 1] == s[k]);
            }
        }
        j + 1
    } else {
        assert(s.skip(0) =~= s);
        0
    }
}

proof fn lemma_trailing(s: Seq<char>) -> (j: int)
    ensures
        0 <= j <= s.len(),
        wrap::without_trailing_breaks(s) == s.take(j),
        forall|k: int| j <= k < s.len() ==> #[trigger] s[k] == '\n' || s[k] == '\r',
        j > 0 ==> s[j - 1] != '\n' && s[j - 1] != '\r',
    decreases s.len(),
{
    if s.len() > 0 && (s.last() == '\n' || s.last() == '\r') {
        let rest = s.drop_last();
        let j = lemma_trailing(rest);
        assert(rest.take(j) =~= s.take(j));
        assert forall|k: int| j <= k < s.len() implies #[trigger] s[k] == '\n' || s[k] == '\r' by {
            if k < rest.len() {
                assert(rest[k] == s[k]);
            }
        }
        j
    } else {
        assert(s.take(s.len() as int) =~= s);
        s.len() as int
    }
}

/// A message is what was said without the line ends around it, and nothing else is
/// taken away: it is the part from `at.0` to `at.1`, with line ends alone before and
/// behind it and none at its own ends.
pub proof fn messages_lose_only_line_ends(s: Seq<char>) -> (at: (int, int))
    ensures
        0 <= at.0 <= at.1 <= s.len(),
        wrap::message_text(s) == s.subrange(at.0, at.1),
        forall|k: int| 0 <= k < at.0 ==> #[trigger] s[k] == '\n' || s[k] == '\r',
        forall|k: int| at.1 <= k < s.len() ==> #[trigger] s[k] == '\n' || s[k] == '\r',
        at.0 < at.1 ==> s[at.0] != '\n' && s[at.0] != '\r' && s[at.1 - 1] != '\n' && s[at.1 - 1]
            != '\r',
{
    let i = lemma_leading(s);
    let rest = s.skip(i);
    let j = lemma_trailing(rest);
    assert(rest.take(j) =~= s.subrange(i, i + j));
    assert forall|k: int| i + j <= k < s.len() implies #[trigger] s[k] == '\n' || s[k] == '\r' by {
        assert(rest[k - i] == s[k]);
    }
    if j > 0 {
        assert(rest[j - 1] == s[i + j - 1]);
        assert(rest[0] == s[i]);
    }
    (i, i + j)
}

pub proof fn lemma_chunks_fit(s: Seq<char>, max: nat, i: int)
    requires
        max > 0,
        0 <= i < wrap::chunks(s, max).len(),
    ensures
        ({
            let piece = wrap::chunks(s, max)[i];
            &&& piece.len() > 0
            &&& width::cols(piece) <= max || width::glyphs(piece) <= max || piece.len() == 1
        }),
    decreases s.len(),
{
    wrap::cut_loses_nothing(s, max);
    wrap::cut_fits(s, max);
    if i > 0 {
        lemma_chunks_fit(s.skip(wrap::cut(s, max) as int), max, i - 1);
    }
}

/// A line wrapped to `total` columns shows the same text, one piece behind the
/// other, and each piece but an empty line's is short enough to stand beside its
/// gutter or a single character. The gutter and the colours are those of the line;
/// where it would fit, the line stays whole.
pub proof fn wrapped_lines_hold_the_line(line: Seq<style::SpanView>, total: usize, kind: LineKind)
    requires
        line.len() == 2,
        total > 0,
    ensures
        ({
            let rows = wrap::wrapped_line(line, total, kind);
            let left = total - width::cols(line[0].text);
            let max = if left > 0 {
                left
            } else {
                1
            };
            &&& rows.len() > 0
            &&& wrap::concatenated(bodies(rows)) == line[1].text
            &&& forall|i: int|
                0 <= i < rows.len() ==> {
                    &&& (#[trigger] rows[i]).len() == 2
                    &&& rows[i][0].style == line[0].style
                    &&& rows[i][1].style == line[1].style
                    &&& i == 0 || kind != LineKind::Text ==> rows[i][0].text == line[0].text
                    &&& i > 0 && kind == LineKind::Text ==> rows[i][0].text == text::run_of(
                        ' ',
                        width::cols(line[0].text) as nat,
                    )
                    &&& width::cols(rows[i][1].text) <= max || width::glyphs(rows[i][1].text) <= max
                        || rows[i][1].text.len() <= 1
                }
            &&& width::cols(line[1].text) <= max || line[1].text.len() == 0 ==> rows.len() == 1
        }),
{
    let rows = wrap::wrapped_line(line, total, kind);
    assert(line =~= style::pair_line(line[0].text, line[0].style, line[1].text, line[1].style));
    lemma_pair_body(line[0].text, line[0].style, line[1].text, line[1].style);
    let body = line[1].text;
    let max = wrap::body_cols(total, line[0].text);
    let pieces = wrap::chunks(body, max);
    if body.len() == 0 {
        assert(body =~= Seq::<char>::empty());
        assert(bodies(rows) =~= seq![body]);
        assert(seq![body].skip(1) =~= Seq::<Seq<char>>::empty());
        reveal_with_fuel(wrap::concatenated, 2);
        assert(wrap::concatenated(bodies(rows)) =~= body);
    } else {
        wrap::wrapping_loses_nothing(body, max);
        assert forall|i: int| 0 <= i < rows.len() implies #[trigger] bodies(rows)[i]
            == pieces[i] by {
            lemma_pair_body(rows[i][0].text, rows[i][0].style, pieces[i], wrap::body_style_of(line));
        }
        assert(bodies(rows) =~= pieces);
        assert forall|i: int| 0 <= i < rows.len() implies (width::cols(
            (#[trigger] rows[i])[1].text,
        ) <= max || width::glyphs(rows[i][1].text) <= max || rows[i][1].text.len() <= 1) by {
            lemma_chunks_fit(body, max, i);
        }
        if width::cols(body) <= max {
            assert(body.skip(body.len() as int) =~= Seq::<char>::empty());
            assert(wrap::chunks(body.skip(body.len() as int), max).len() == 0);
        }
    }
}

proof fn lemma_bodies_add(a: Seq<Seq<style::SpanView>>, b: Seq<Seq<style::SpanView>>)
    ensures
        bodies(a + b) == bodies(a) + bodies(b),
        wrap::concatenated(bodies(a + b)) == wrap::concatenated(bodies(a)) + wrap::concatenated(
            bodies(b),
        ),
{
    assert(bodies(a + b) =~= bodies(a) + bodies(b));
    wrap::lemma_concatenated_add(bodies(a), bodies(b));
}

proof fn lemma_wrapped_bodies(lines: Seq<Seq<style::SpanView>>, total: usize, kind: LineKind)
    requires
        total > 0,
        forall|i: int| 0 <= i < lines.len() ==> (#[trigger] lines[i]).len() == 2,
    ensures
        wrap::concatenated(bodies(wrap::wrapped_lines(lines, total, kind))) == wrap::concatenated(
            bodies(lines),
        ),
    decreases lines.len(),
{
    if lines.len() == 0 {
        assert(bodies(wrap::wrapped_lines(lines, total, kind)) =~= bodies(lines));
    } else {
        let rest = lines.drop_last();
        let last = lines.last();
        lemma_wrapped_bodies(rest, total, kind);
        wrapped_lines_hold_the_line(last, total, kind);
        lemma_bodies_add(
            wrap::wrapped_lines(rest, total, kind),
            wrap::wrapped_line(last, total, kind),
        );
        assert(bodies(lines) =~= bodies(rest).push(body_of(last)));
        wrap::lemma_concatenated_push(bodies(rest), body_of(last));
        assert(last =~= style::pair_line(last[0].text, last[0].style, last[1].text, last[1].style));
        lemma_pair_body(last[0].text, last[0].style, last[1].text, last[1].style);
    }
}

pub proof fn lemma_filled_concatenated(texts: Seq<Seq<char>>)
    ensures
        wrap::concatenated(filled(texts)) == wrap::concatenated(texts),
    decreases texts.len(),
{
    if texts.len() > 0 {
        let rest = texts.drop_last();
        lemma_filled_concatenated(rest);
        assert(texts =~= rest.push(texts.last()));
        wrap::lemma_concatenated_push(rest, texts.last());
        wrap::lemma_concatenated_push(filled(rest), texts.last());
        if texts.last().len() == 0 {
            assert(wrap::concatenated(rest) + texts.last() =~= wrap::concatenated(rest));
        }
    }
}

/// A row is drawn with all that is to see of its text, whatever the width of the
/// view, and changes no line above it: an empty line sets it apart from those.
pub proof fn rows_show_their_text(
    before: Seq<Seq<style::SpanView>>,
    kind: LineKind,
    t: Seq<char>,
    total: usize,
    limit: Option<usize>,
)
    requires
        total > 0,
        kind != LineKind::Thinking,
        kind != LineKind::Separator || t.len() > 0,
    ensures
        ({
            let row = model::RowView {
                kind,
                text: t,
                collapsible: None,
                headers: Seq::empty(),
            };
            let drawn = model::drawn_row(before, row, total, limit);
            let n = if before.len() == 0 {
                0
            } else {
                before.len() as int + 1
            };
            &&& drawn.0.len() > n
            &&& drawn.0.take(before.len() as int) == before
            &&& before.len() > 0 ==> style::line_text(drawn.0[before.len() as int]).len() == 0
            &&& wrap::concatenated(bodies(drawn.0.skip(n))) == wrap::concatenated(
                inked(text::lines_of(t)),
            )
            &&& drawn.1.len() == 0
        }),
{
    let row = model::RowView { kind, text: t, collapsible: None, headers: Seq::empty() };
    let drawn = model::drawn_row(before, row, total, limit);
    let start = wrap::gapped(before);
    let lines = wrap::formatted(kind, t);
    let rows = wrap::row_lines(kind, t, total);
    formatting_keeps_the_lines(kind, t);
    lemma_filled_concatenated(bodies(lines));
    lemma_wrapped_bodies(lines, total, kind);
    lemma_wrapped_some(lines, total, kind);
    assert(drawn.0.skip(start.len() as int) =~= rows);
    assert(drawn.0.take(before.len() as int) =~= before);
    if before.len() > 0 {
        assert(drawn.0[before.len() as int] == style::blank_line());
        lemma_blank_line();
    }
}

pub proof fn lemma_blank_line()
    ensures
        style::line_text(style::blank_line()).len() == 0,
{
    let line = style::blank_line();
    assert(line.drop_last() =~= Seq::<style::SpanView>::empty());
    reveal_with_fuel(style::line_text, 3);
}

proof fn lemma_wrapped_some(lines: Seq<Seq<style::SpanView>>, total: usize, kind: LineKind)
    requires
        lines.len() > 0,
        total > 0,
        forall|i: int| 0 <= i < lines.len() ==> (#[trigger] lines[i]).len() == 2,
    ensures
        wrap::wrapped_lines(lines, total, kind).len() > 0,
{
    wrapped_lines_hold_the_line(lines.last(), total, kind);
}

/// What an unfolded body shows: its texts without their line ends, and the titles of
/// nested bodies with what they show where they are unfolded too.
pub open spec fn shown_text(sections: Seq<collapsible::SectionView>) -> Seq<char>
    decreases sections,
{
    if sections.len() == 0 {
        Seq::empty()
    } else {
        shown_text(sections.drop_last()) + section_text(sections.last())
    }
}

/// What a section of an unfolded body shows.
pub open spec fn section_text(section: collapsible::SectionView) -> Seq<char>
    decreases section,
{
    match section {
        collapsible::SectionView::Text(t) => wrap::concatenated(text::lines_of(t)),
        collapsible::SectionView::Item { kind, title, detail } => title + if detail.expanded {
            shown_text(detail.sections)
        } else {
            Seq::empty()
        },
    }
}

proof fn lemma_section_rows(t: Seq<char>, kind: LineKind, total: usize, depth: usize)
    requires
        total > 0,
    ensures
        wrap::concatenated(bodies(wrap::text_section(t, kind, total, depth, None)))
            == wrap::concatenated(text::lines_of(t)),
{
    let parts = text::lines_of(t);
    let lines = wrap::section_lines(parts, kind, depth as nat);
    lemma_wrapped_bodies(lines, total, kind);
    assert forall|i: int| 0 <= i < parts.len() implies #[trigger] bodies(lines)[i] == parts[i] by {
        lemma_pair_body(
            wrap::body_prefix_text(depth as nat),
            kind.style(),
            parts[i],
            wrap::diff_style(parts[i], kind.style(), kind),
        );
    }
    assert(bodies(lines) =~= parts);
}

proof fn lemma_item_header(
    kind: LineKind,
    title: Seq<char>,
    expanded: bool,
    total: usize,
    depth: usize,
)
    requires
        total > 0,
    ensures
        wrap::concatenated(bodies(wrap::item_header(kind, title, expanded, total, depth))) == title,
        wrap::item_header(kind, title, expanded, total, depth).len() > 0,
{
    wrapped_lines_hold_the_line(
        style::pair_line(
            wrap::marker_text(expanded, wrap::deeper(depth) as nat),
            kind.style(),
            title,
            kind.style(),
        ),
        total,
        kind,
    );
}

proof fn lemma_body_text(
    sections: Seq<collapsible::SectionView>,
    kind: LineKind,
    total: usize,
    depth: usize,
    path: Seq<usize>,
    base: nat,
)
    requires
        total > 0,
    ensures
        wrap::concatenated(
            bodies(wrap::body_lines(sections, 0, kind, total, depth, path, base, None).0),
        ) == shown_text(sections),
    decreases sections,
{
    let all = wrap::body_lines(sections, 0, kind, total, depth, path, base, None);
    reveal_with_fuel(shown_text, 2);
    reveal_with_fuel(section_text, 2);
    if sections.len() == 0 {
        assert(bodies(all.0) =~= Seq::<Seq<char>>::empty());
    } else {
        let rest = sections.drop_last();
        let (lines, headers) = wrap::body_lines(rest, 0, kind, total, depth, path, base, None);
        lemma_body_text(rest, kind, total, depth, path, base);
        match sections.last() {
            collapsible::SectionView::Text(t) => {
                lemma_section_rows(t, kind, total, depth);
                lemma_bodies_add(lines, wrap::text_section(t, kind, total, depth, None));
            },
            collapsible::SectionView::Item { kind: item, title, detail } => {
                let top = wrap::item_header(item, title, detail.expanded, total, depth);
                lemma_item_header(item, title, detail.expanded, total, depth);
                lemma_bodies_add(lines, top);
                if detail.expanded {
                    let here = path.push((sections.len() - 1) as usize);
                    let at = base + lines.len();
                    let inner = wrap::body_lines(
                        detail.sections,
                        0,
                        item,
                        total,
                        wrap::deeper(depth),
                        here,
                        at + top.len(),
                        None,
                    ).0;
                    lemma_body_text(
                        detail.sections,
                        item,
                        total,
                        wrap::deeper(depth),
                        here,
                        at + top.len(),
                    );
                    lemma_bodies_add(lines + top, inner);
                    assert(shown_text(rest) + title + shown_text(detail.sections)
                        =~= shown_text(rest) + (title + shown_text(detail.sections)));
                } else {
                    assert(title + Seq::<char>::empty() =~= title);
                }
            },
        }
    }
}

/// A row with a body is drawn behind an empty line below the others, which stay:
/// first its title behind a mark that tells whether it is folded. Folded it shows
/// nothing else; unfolded all of its body, in order, unless the body is still
/// growing.
pub proof fn rows_with_bodies_show_them(
    before: Seq<Seq<style::SpanView>>,
    kind: LineKind,
    title: Seq<char>,
    body: collapsible::CollapsibleView,
    total: usize,
)
    requires
        total > 0,
    ensures
        ({
            let row = model::RowView {
                kind,
                text: title,
                collapsible: Some(body),
                headers: Seq::empty(),
            };
            let drawn = model::drawn_row(before, row, total, None);
            let n = if before.len() == 0 {
                0
            } else {
                before.len() as int + 1
            };
            let mark = if body.expanded {
                " "@ + "▾ "@
            } else {
                " "@ + "▸ "@
            };
            &&& drawn.0.len() > n
            &&& drawn.0.take(before.len() as int) == before
            &&& drawn.0[n][0].text == mark
            &&& drawn.1.len() > 0
            &&& drawn.1[0].line == n
            &&& drawn.1[0].path.len() == 0
            &&& wrap::concatenated(bodies(drawn.0.skip(n))) == title + if body.expanded {
                shown_text(body.sections)
            } else {
                Seq::empty()
            }
        }),
{
    let start = wrap::gapped(before);
    let top = wrap::row_header(kind, title, body.expanded, total);
    let line = style::pair_line(
        wrap::marker_text(body.expanded, 0),
        kind.style(),
        title,
        kind.style(),
    );
    wrapped_lines_hold_the_line(line, total, kind);
    let row = model::RowView {
        kind,
        text: title,
        collapsible: Some(body),
        headers: Seq::empty(),
    };
    let drawn = model::drawn_row(before, row, total, None);
    let n = start.len() as int;
    assert(drawn.0.take(before.len() as int) =~= before);
    assert(drawn.0[n] == top[0]);
    if body.expanded {
        let lines = wrap::body_lines(
            body.sections,
            0,
            kind,
            total,
            0,
            Seq::empty(),
            (start + top).len(),
            None,
        ).0;
        lemma_body_text(body.sections, kind, total, 0, Seq::empty(), (start + top).len());
        lemma_bodies_add(top, lines);
        assert(drawn.0.skip(n) =~= top + lines);
    } else {
        assert(drawn.0.skip(n) =~= top);
        assert(title + Seq::<char>::empty() =~= title);
    }
}

/// Where everything is drawn anew, each row stands below those before it, which
/// stay as they are, and shows what it holds: its text, or its title and, where the
/// body is unfolded and not growing, all of that.
pub proof fn redrawing_shows_every_row(v: model::TranscriptView, i: nat)
    requires
        i < v.rows.len(),
        v.width() > 0,
        v.rows[i as int].collapsible is Some ==> v.limit_of(i) is None,
        v.rows[i as int].collapsible is None ==> v.rows[i as int].kind != LineKind::Thinking,
        v.rows[i as int].kind == LineKind::Separator ==> v.rows[i as int].text.len() > 0,
    ensures
        v.rewrapped().wrapped == v.lines_upto(v.rows.len()),
        ({
            let before = v.lines_upto(i);
            let all = v.lines_upto(i + 1);
            let row = v.rows[i as int];
            let n = if before.len() == 0 {
                0
            } else {
                before.len() as int + 1
            };
            &&& all.len() > n
            &&& all.take(before.len() as int) == before
            &&& wrap::concatenated(bodies(all.skip(n))) == match row.collapsible {
                None => wrap::concatenated(inked(text::lines_of(row.text))),
                Some(c) => row.text + if c.expanded {
                    shown_text(c.sections)
                } else {
                    Seq::empty()
                },
            }
        }),
{
    reveal(model::TranscriptView::rewrapped);
    let before = v.lines_upto(i);
    let row = v.rows[i as int];
    match row.collapsible {
        None => {
            rows_show_their_text(before, row.kind, row.text, v.width(), v.limit_of(i));
        },
        Some(c) => {
            rows_with_bodies_show_them(before, row.kind, row.text, c, v.width());
        },
    }
}

/// Text that is streaming is shown below the rows, all that is to see of it, behind
/// an empty line where there are rows; laying the transcript out brings it up to
/// date.
pub proof fn streamed_text_is_shown(v: model::TranscriptView, area: style::Rect)
    requires
        area.width > 0,
        v.streaming.len() > 0,
        v.stream_kind != LineKind::Thinking,
    ensures
        ({
            let next = v.laid_out(area);
            let n = if next.wrapped.len() > 0 {
                1
            } else {
                0int
            };
            &&& next.wrapped_stream.len() > n
            &&& n == 1 ==> style::line_text(next.wrapped_stream[0]).len() == 0
            &&& wrap::concatenated(bodies(next.wrapped_stream.skip(n))) == wrap::concatenated(
                inked(text::lines_of(v.streaming)),
            )
            &&& next.area == area
            &&& next.streaming == v.streaming
        }),
{
    reveal(model::TranscriptView::laid_out);
    reveal(model::TranscriptView::rewrapped);
    let next = v.laid_out(area);
    let kind = v.stream_kind;
    let total = area.width as usize;
    let lines = wrap::formatted(kind, v.streaming);
    let rows = wrap::wrapped_lines(lines, total, kind);
    formatting_keeps_the_lines(kind, v.streaming);
    lemma_filled_concatenated(bodies(lines));
    lemma_wrapped_bodies(lines, total, kind);
    lemma_wrapped_some(lines, total, kind);
    if next.wrapped.len() > 0 {
        assert(next.wrapped_stream =~= seq![style::blank_line()] + rows);
        assert(next.wrapped_stream.skip(1) =~= rows);
        lemma_blank_line();
    } else {
        assert(next.wrapped_stream =~= rows);
        assert(next.wrapped_stream.skip(0) =~= rows);
    }
}

/// A view that follows shows the newest lines, as many as it has rows.
pub proof fn following_shows_the_newest(v: model::TranscriptView, frame: u64, shades: Seq<u8>)
    requires
        v.top is None,
    ensures
        v.end_line() == v.total(),
        v.screen(frame, shades).len() == if v.total() <= v.height() {
            v.total()
        } else {
            v.height()
        },
{
}

proof fn lemma_first_text(line: Seq<style::SpanView>)
    requires
        line.len() > 0,
    ensures
        style::line_text(line) == line[0].text + style::line_text(line.skip(1)),
{
    let one = seq![line[0]];
    assert(one + line.skip(1) =~= line);
    selection::lemma_line_text_concat(one, line.skip(1));
    assert(one.drop_last() =~= Seq::<style::SpanView>::empty());
    reveal_with_fuel(style::line_text, 2);
    assert(style::line_text(one) =~= line[0].text);
}

proof fn lemma_same_texts(a: Seq<style::SpanView>, b: Seq<style::SpanView>)
    requires
        a.len() == b.len(),
        forall|i: int| 0 <= i < a.len() ==> (#[trigger] a[i]).text == b[i].text,
    ensures
        style::line_text(a) == style::line_text(b),
    decreases a.len(),
{
    if a.len() > 0 {
        lemma_same_texts(a.drop_last(), b.drop_last());
        assert(a[a.len() - 1].text == b[b.len() - 1].text);
    }
}

proof fn lemma_glyph_spans(body: Seq<char>, spans: Seq<style::SpanView>)
    requires
        spans.len() == body.len(),
        forall|i: int| 0 <= i < body.len() ==> (#[trigger] spans[i]).text == seq![body[i]],
    ensures
        style::line_text(spans) == body,
    decreases body.len(),
{
    if body.len() == 0 {
        assert(style::line_text(spans) =~= body);
    } else {
        lemma_glyph_spans(body.drop_last(), spans.drop_last());
        assert(spans[spans.len() - 1].text == seq![body[body.len() - 1]]);
        assert(style::line_text(spans) =~= body);
    }
}

/// The shimmer of reasoning under way, and the colour of the line under the pointer,
/// change no text but for blanks behind the line, `k` of them; the caret of an
/// answer that is streaming stands behind the last line.
pub proof fn painting_keeps_the_text(
    v: model::TranscriptView,
    idx: nat,
    frame: u64,
    shades: Seq<u8>,
) -> (k: nat)
    ensures
        style::line_text(v.painted(idx, frame, shades)) == style::line_text(v.lines()[idx as int])
            + text::run_of(' ', k) + (if v.caret_on(frame) && idx + 1 == v.end_line() {
            "▊"@
        } else {
            Seq::empty()
        }),
        v.hovered is None ==> k == 0,
{
    let plain = v.lines()[idx as int];
    let none = Seq::<char>::empty();
    let shimmers = v.live_header() == Some(idx) && plain.len() > 0 && style::line_text(
        plain.skip(1),
    ).len() <= shades.len();
    let shimmering = if shimmers {
        wrap::shimmered(plain, shades)
    } else {
        plain
    };
    if shimmers {
        let body = style::line_text(plain.skip(1));
        if body.len() > 0 {
            let spans = shimmering.skip(1);
            lemma_first_text(plain);
            lemma_first_text(shimmering);
            lemma_glyph_spans(body, spans);
        }
    }
    assert(style::line_text(shimmering) == style::line_text(plain));
    let is_hovered = v.hovered matches Some(h) && h.line == idx;
    let pointed = if is_hovered {
        wrap::hovered(shimmering, v.width())
    } else {
        shimmering
    };
    let pad = if is_hovered {
        wrap::less(v.width() as nat, wrap::line_cols(shimmering))
    } else {
        0
    };
    if is_hovered {
        let spans = Seq::new(
            shimmering.len(),
            |i: int|
                style::SpanView {
                    text: shimmering[i].text,
                    style: shimmering[i].style.patch(super::super::theme::hover()),
                },
        );
        lemma_same_texts(spans, shimmering);
        if pad > 0 {
            assert(pointed.drop_last() =~= spans);
        } else {
            assert(text::run_of(' ', 0) =~= none);
            assert(style::line_text(shimmering) + none =~= style::line_text(shimmering));
        }
    } else {
        assert(text::run_of(' ', 0) =~= none);
        assert(style::line_text(shimmering) + none =~= style::line_text(shimmering));
    }
    assert(style::line_text(pointed) == style::line_text(plain) + text::run_of(' ', pad));
    if v.caret_on(frame) && idx + 1 == v.end_line() {
        assert(v.painted(idx, frame, shades).drop_last() =~= pointed);
    } else {
        assert(style::line_text(pointed) + none =~= style::line_text(pointed));
    }
    pad
}

/// The text of a line that is marked as selected.
pub open spec fn marked_text(line: Seq<style::SpanView>) -> Seq<char>
    decreases line.len(),
{
    if line.len() == 0 {
        Seq::empty()
    } else {
        marked_text(line.drop_last()) + if line.last().style == super::super::theme::selection() {
            line.last().text
        } else {
            Seq::empty()
        }
    }
}

proof fn lemma_marked_concat(a: Seq<style::SpanView>, b: Seq<style::SpanView>)
    ensures
        marked_text(a + b) == marked_text(a) + marked_text(b),
    decreases b.len(),
{
    if b.len() == 0 {
        assert(a + b =~= a);
        assert(marked_text(a) + marked_text(b) =~= marked_text(a));
    } else {
        lemma_marked_concat(a, b.drop_last());
        assert((a + b).drop_last() =~= a + b.drop_last());
        assert((a + b).last() == b.last());
        assert(marked_text(a + b) =~= marked_text(a) + marked_text(b));
    }
}

proof fn lemma_marked_piece(t: Seq<char>, s: style::Style)
    ensures
        marked_text(selection::piece(t, s)) == if s == super::super::theme::selection() {
            t
        } else {
            Seq::empty()
        },
{
    let one = selection::piece(t, s);
    if t.len() == 0 {
        assert(t =~= Seq::<char>::empty());
    } else {
        assert(one.drop_last() =~= Seq::<style::SpanView>::empty());
        reveal_with_fuel(marked_text, 2);
        assert(marked_text(one) =~= if s == super::super::theme::selection() {
            t
        } else {
            Seq::empty()
        });
    }
}

/// What a line marks as selected behind its gutter is what is copied of it.
pub proof fn marked_text_is_copied(line: Seq<style::SpanView>, from: nat, to: nat)
    requires
        line.len() == 2,
        width::cols(line[0].text) == 2 || width::cols(line[0].text) == 3,
        width::cols(line[0].text) <= from < to <= width::cols(line[0].text) + width::cols(
            line[1].text,
        ) <= usize::MAX,
        line[0].style != super::super::theme::selection(),
        line[1].style != super::super::theme::selection(),
    ensures
        marked_text(selection::highlighted(line, from, to)) == selection::extracted(line, from, to),
{
    let g = width::cols(line[0].text) as nat;
    let body = line[1].text;
    let first = seq![line[0]];
    assert(line.drop_last() =~= first);
    assert(first.drop_last() =~= Seq::<style::SpanView>::empty());
    reveal_with_fuel(wrap::line_cols, 2);
    assert(wrap::line_cols(first) == g);
    reveal_with_fuel(selection::marked, 3);
    assert(selection::marked(first, from, to) =~= first);
    let tail = selection::marked_span(line[1], g, from, to);
    assert(selection::highlighted(line, from, to) == first + tail);
    lemma_marked_concat(first, tail);
    reveal_with_fuel(marked_text, 2);
    assert(marked_text(first) =~= Seq::<char>::empty());
    let a = (from - g) as nat;
    let b = (to - g) as nat;
    let p = selection::slice_start(body, a) as int;
    let q = selection::slice_end(body, a, b) as int;
    let x = selection::piece(body.take(p), line[1].style);
    let y = selection::piece(body.subrange(p, q), super::super::theme::selection());
    let z = selection::piece(body.skip(q), line[1].style);
    assert(tail == x + y + z);
    lemma_marked_concat(x, y);
    lemma_marked_concat(x + y, z);
    lemma_marked_piece(body.take(p), line[1].style);
    lemma_marked_piece(body.subrange(p, q), super::super::theme::selection());
    lemma_marked_piece(body.skip(q), line[1].style);
    assert(line =~= style::pair_line(line[0].text, line[0].style, line[1].text, line[1].style));
    lemma_pair_body(line[0].text, line[0].style, line[1].text, line[1].style);
    assert(selection::extracted(line, from, to) == selection::sliced(body, a, b));
    assert(marked_text(first + tail) =~= body.subrange(p, q));
}

proof fn lemma_frame_pieces(parts: Seq<Seq<char>>, max: nat)
    requires
        max > 0,
    ensures
        wrap::concatenated(wrap::frame_pieces(parts, max)) == wrap::concatenated(
            Seq::new(parts.len(), |i: int| text::without_cr(parts[i])),
        ),
    decreases parts.len(),
{
    let all = Seq::new(parts.len(), |i: int| text::without_cr(parts[i]));
    if parts.len() == 0 {
        assert(wrap::frame_pieces(parts, max) =~= all);
    } else {
        let rest = parts.drop_last();
        let last = text::without_cr(parts.last());
        lemma_frame_pieces(rest, max);
        let before = Seq::new(rest.len(), |i: int| text::without_cr(rest[i]));
        assert(all =~= before.push(last));
        wrap::lemma_concatenated_push(before, last);
        wrap::lemma_concatenated_add(
            wrap::frame_pieces(rest, max),
            wrap::frame_chunks(last, max),
        );
        if last.len() == 0 {
            assert(seq![last].skip(1) =~= Seq::<Seq<char>>::empty());
            reveal_with_fuel(wrap::concatenated, 2);
            assert(wrap::concatenated(wrap::frame_chunks(last, max)) =~= last);
        } else {
            wrap::wrapping_loses_nothing(last, max);
        }
    }
}

/// A prompt in a frame shows all of its text, line by line, between an edge above
/// and one below: the third span of each line between, one behind the other.
pub proof fn framed_prompts_show_their_text(
    frame: wrap::PromptFrame,
    t: Seq<char>,
    total: usize,
)
    requires
        total > 4 + width::cols(frame.kind.gutter_text()),
    ensures
        ({
            let lines = wrap::framed_lines(frame, t, total);
            let parts = text::split_on(wrap::message_text(t), '\n');
            let shown = Seq::new((lines.len() - 2) as nat, |i: int| lines[i + 1][2].text);
            &&& lines.len() >= 3
            &&& wrap::concatenated(shown) == wrap::concatenated(
                Seq::new(parts.len(), |i: int| text::without_cr(parts[i])),
            )
            &&& lines[1][1].text == frame.kind.gutter_text()
        }),
{
    let lines = wrap::framed_lines(frame, t, total);
    let parts = text::split_on(wrap::message_text(t), '\n');
    let max = wrap::less(
        total as nat,
        wrap::PROMPT_FRAME_COLS as nat + width::cols(frame.kind.gutter_text()) as nat,
    );
    let pieces = wrap::frame_pieces(parts, max);
    text::join_undoes_split(wrap::message_text(t), '\n');
    lemma_frame_pieces(parts, max);
    let shown = Seq::new((lines.len() - 2) as nat, |i: int| lines[i + 1][2].text);
    assert(shown =~= pieces);
    let last = text::without_cr(parts.last());
    if last.len() > 0 {
        wrap::wrapping_loses_nothing(last, max);
    }
}

} // verus!
