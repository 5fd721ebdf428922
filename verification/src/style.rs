//! Styled text and screen areas as plain values.
use vstd::prelude::*;

use crate::seqs;

verus! {

broadcast use crate::seqs::views_push;

/// A terminal color.
#[derive(Clone, Copy, Debug, PartialEq, Eq, Structural)]
pub enum Color {
    Black,
    Red,
    Green,
    Yellow,
    Blue,
    Magenta,
    Cyan,
    Gray,
    DarkGray,
    LightRed,
    LightGreen,
    LightYellow,
    LightBlue,
    LightMagenta,
    LightCyan,
    White,
    Rgb(u8, u8, u8),
}

/// How a piece of text is drawn.
#[derive(Clone, Copy, Debug, PartialEq, Eq, Structural)]
pub struct Style {
    pub fg: Option<Color>,
    pub bg: Option<Color>,
    pub bold: bool,
    pub reversed: bool,
}

impl Style {
    /// The style that changes nothing.
    #[verifier::allow_in_spec]
    pub fn plain() -> Style
        returns
            (Style { fg: None, bg: None, bold: false, reversed: false }),
    {
        Style { fg: None, bg: None, bold: false, reversed: false }
    }

    /// A plain style with a foreground color.
    #[verifier::allow_in_spec]
    pub fn fg(color: Color) -> Style
        returns
            (Style { fg: Some(color), bg: None, bold: false, reversed: false }),
    {
        Style { fg: Some(color), bg: None, bold: false, reversed: false }
    }

    /// This style with `over` laid on top: its colors win where it has them,
    /// and its attributes are added.
    #[verifier::allow_in_spec]
    pub fn patch(self, over: Style) -> Style
        returns
            (Style {
                fg: if over.fg is Some {
                    over.fg
                } else {
                    self.fg
                },
                bg: if over.bg is Some {
                    over.bg
                } else {
                    self.bg
                },
                bold: self.bold || over.bold,
                reversed: self.reversed || over.reversed,
            }),
    {
        Style {
            fg: if over.fg.is_some() {
                over.fg
            } else {
                self.fg
            },
            bg: if over.bg.is_some() {
                over.bg
            } else {
                self.bg
            },
            bold: self.bold || over.bold,
            reversed: self.reversed || over.reversed,
        }
    }
}

/// A piece of text in one style.
#[derive(Debug)]
pub struct Span {
    pub content: String,
    pub style: Style,
}

/// What a span shows: its characters and their style.
#[verifier::ext_equal]
pub struct SpanView {
    pub text: Seq<char>,
    pub style: Style,
}

impl View for Span {
    type V = SpanView;

    open spec fn view(&self) -> SpanView {
        SpanView { text: self.content@, style: self.style }
    }
}

impl Span {
    /// A span of `content` in `style`.
    pub fn styled(content: String, style: Style) -> (span: Span)
        ensures
            span@ == (SpanView { text: content@, style }),
    {
        Span { content, style }
    }

    /// A span of `content` without a style of its own.
    pub fn raw(content: String) -> (span: Span)
        ensures
            span@ == (SpanView { text: content@, style: Style::plain() }),
    {
        Span { content, style: Style::plain() }
    }

    /// The same span again.
    pub fn copy(&self) -> (span: Span)
        ensures
            span@ == self@,
    {
        Span { content: self.content.clone(), style: self.style }
    }
}

/// One line of spans, drawn left to right.
#[derive(Debug)]
pub struct Line {
    pub spans: Vec<Span>,
}

impl View for Line {
    type V = Seq<SpanView>;

    open spec fn view(&self) -> Seq<SpanView> {
        seqs::views(self.spans@)
    }
}

/// The characters of a line, its spans one after the other.
pub open spec fn line_text(spans: Seq<SpanView>) -> Seq<char>
    decreases spans.len(),
{
    if spans.len() == 0 {
        Seq::empty()
    } else {
        line_text(spans.drop_last()) + spans.last().text
    }
}

/// A line of one empty, unstyled span.
pub open spec fn blank_line() -> Seq<SpanView> {
    seq![SpanView { text: Seq::empty(), style: Style::plain() }]
}

/// A line of two spans.
pub open spec fn pair_line(
    head: Seq<char>,
    head_style: Style,
    body: Seq<char>,
    body_style: Style,
) -> Seq<SpanView> {
    seq![
        SpanView { text: head, style: head_style },
        SpanView { text: body, style: body_style },
    ]
}

impl Line {
    /// A line of one empty, unstyled span.
    pub fn blank() -> (line: Line)
        ensures
            line@ == blank_line(),
    {
        let line = Line { spans: vec![Span::raw(String::new())] };
        assert(line@ =~= blank_line());
        line
    }

    /// A line of one span.
    pub fn of(content: String, style: Style) -> (line: Line)
        ensures
            line@ == seq![SpanView { text: content@, style }],
    {
        let ghost text = content@;
        let line = Line { spans: vec![Span::styled(content, style)] };
        assert(line@ =~= seq![SpanView { text, style }]);
        line
    }

    /// A line of two spans.
    pub fn pair(head: String, head_style: Style, body: String, body_style: Style) -> (line: Line)
        ensures
            line@ == pair_line(head@, head_style, body@, body_style),
    {
        let ghost expected = pair_line(head@, head_style, body@, body_style);
        let line = Line {
            spans: vec![Span::styled(head, head_style), Span::styled(body, body_style)],
        };
        assert(line@ =~= expected);
        line
    }

    /// The same line again.
    pub fn copy(&self) -> (line: Line)
        ensures
            line@ == self@,
    {
        let mut spans: Vec<Span> = Vec::new();
        let mut i: usize = 0;
        assert(seqs::views(spans@) =~= self@.take(0));
        while i < self.spans.len()
            invariant
                i <= self.spans@.len(),
                seqs::views(spans@) == self@.take(i as int),
            decreases self.spans.len() - i,
        {
            spans.push(self.spans[i].copy());
            assert(self@.take(i + 1) =~= self@.take(i as int).push(self@[i as int]));
            i += 1;
        }
        assert(self@.take(self@.len() as int) =~= self@);
        Line { spans }
    }

    /// The characters of the line from the span at `from` on.
    pub fn text_from(&self, from: usize) -> (out: String)
        requires
            from <= self@.len(),
        ensures
            out@ == line_text(self@.skip(from as int)),
    {
        let mut out = String::new();
        let mut i: usize = from;
        assert(self@.subrange(from as int, from as int) =~= Seq::<SpanView>::empty());
        while i < self.spans.len()
            invariant
                from <= i <= self.spans@.len(),
                out@ == line_text(self@.subrange(from as int, i as int)),
            decreases self.spans.len() - i,
        {
            out.append(self.spans[i].content.as_str());
            proof {
                let next = self@.subrange(from as int, i + 1);
                assert(next.drop_last() =~= self@.subrange(from as int, i as int));
                assert(next.last() == self@[i as int]);
            }
            i += 1;
        }
        assert(self@.subrange(from as int, self@.len() as int) =~= self@.skip(from as int));
        out
    }

    /// The characters of the line.
    pub fn text(&self) -> (out: String)
        ensures
            out@ == line_text(self@),
    {
        assert(self@.skip(0) =~= self@);
        self.text_from(0)
    }
}

/// The same lines again.
pub fn copy_lines(lines: &Vec<Line>) -> (out: Vec<Line>)
    ensures
        seqs::views(out@) == seqs::views(lines@),
{
    let mut out: Vec<Line> = Vec::new();
    let mut i: usize = 0;
    assert(seqs::views(out@) =~= seqs::views(lines@).take(0));
    while i < lines.len()
        invariant
            i <= lines@.len(),
            seqs::views(out@) == seqs::views(lines@).take(i as int),
        decreases lines.len() - i,
    {
        out.push(lines[i].copy());
        assert(seqs::views(lines@).take(i + 1) =~= seqs::views(lines@).take(i as int).push(
            lines@[i as int]@,
        ));
        i += 1;
    }
    assert(seqs::views(lines@).take(lines@.len() as int) =~= seqs::views(lines@));
    out
}

/// A rectangle of terminal cells.
#[derive(Clone, Copy, Debug, PartialEq, Eq, Structural)]
pub struct Rect {
    pub x: u16,
    pub y: u16,
    pub width: u16,
    pub height: u16,
}

impl Rect {
    /// The rectangle at (`x`, `y`) of the given size.
    #[verifier::allow_in_spec]
    pub fn new(x: u16, y: u16, width: u16, height: u16) -> Rect
        returns
            (Rect { x, y, width, height }),
    {
        Rect { x, y, width, height }
    }

    /// Whether the cell at (`column`, `row`) lies in the rectangle.
    pub open spec fn holds(self, column: u16, row: u16) -> bool {
        &&& self.x <= column < self.x + self.width
        &&& self.y <= row < self.y + self.height
        &&& column < u16::MAX
        &&& row < u16::MAX
    }

    /// Whether the cell at (`column`, `row`) lies in the rectangle. The last
    /// row and column that a `u16` can name lie in none.
    pub fn contains(&self, column: u16, row: u16) -> (yes: bool)
        ensures
            yes == self.holds(column, row),
    {
        column >= self.x && row >= self.y && column < self.x.saturating_add(self.width) && row
            < self.y.saturating_add(self.height)
    }
}

/// A style laid on top shows: its colors win, its attributes are seen, and what it
/// leaves open shows through. A plain one changes nothing on either side.
pub proof fn styles_are_laid_on_top(under: Style, over: Style, top: Style)
    ensures
        over.fg is Some ==> under.patch(over).fg == over.fg,
        over.bg is Some ==> under.patch(over).bg == over.bg,
        over.bold ==> under.patch(over).bold,
        over.reversed ==> under.patch(over).reversed,
        under.patch(Style::plain()) == under,
        Style::plain().patch(under) == under,
        under.patch(over).patch(top) == under.patch(over.patch(top)),
        under.patch(over).patch(over) == under.patch(over),
{
}

/// A rectangle holds as many columns and rows as it is wide and high, from its
/// corner on: a step inside it keeps within it.
pub proof fn rectangles_hold_their_cells(r: Rect, dx: nat, dy: nat)
    requires
        r.x + dx < u16::MAX,
        r.y + dy < u16::MAX,
    ensures
        r.holds((r.x + dx) as u16, (r.y + dy) as u16) <==> dx < r.width && dy < r.height,
{
}

} // verus!
