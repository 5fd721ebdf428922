//! The messages that wait while the session is busy, one row each.
use vstd::prelude::*;
use vstd::string::*;

use crate::components::queue;
use crate::components::queue::first_line_of;
use crate::components::sizing;
use crate::components::sizing::truncate_str;
use crate::components::theme;
use crate::seqs;
use crate::style::{Color, Line, Style};
use crate::style;
use crate::text;
use crate::width;

verus! {

broadcast use crate::seqs::views_push;

/// Maximum number of queued messages shown in the widget; the rest are
/// summarized in a footer row.
pub const MAX_VISIBLE: usize = 3;

/// Rows of the border around the messages.
pub const BORDER_ROWS: u16 = 2;

/// Columns of the number before a message.
pub const NUMBER_COLS: usize = 3;

/// A number, right-aligned in two columns.
pub open spec fn numbered(n: nat) -> Seq<char> {
    let digits = text::decimal(n);
    if digits.len() < 2 {
        " "@ + digits
    } else {
        digits
    }
}

/// The start of a message: its first line, with an ellipsis where there are
/// more.
pub open spec fn opening(t: Seq<char>) -> Seq<char> {
    if text::lines_of(t).len() > 1 {
        queue::first_line(t).push('…')
    } else {
        queue::first_line(t)
    }
}

/// One row: a numbered prefix plus the message preview.
pub open spec fn preview(t: Seq<char>, index: nat, inner_width: nat) -> Seq<style::SpanView> {
    style::pair_line(
        numbered(index) + " "@,
        Style::fg(Color::Cyan),
        sizing::truncated(
            opening(t),
            if inner_width >= NUMBER_COLS {
                (inner_width - NUMBER_COLS) as nat
            } else {
                0
            },
        ),
        Style::plain(),
    )
}

/// One row: a numbered prefix plus the message preview.
pub fn preview_line(t: &str, index: usize, inner_width: usize) -> (line: Line)
    ensures
        line@ == preview(t@, index as nat, inner_width as nat),
{
    let mut start = first_line_of(t);
    let lines = text::lines(t);
    if lines.len() > 1 {
        start.push('…');
    }
    let shown = truncate_str(start.as_str(), inner_width.saturating_sub(NUMBER_COLS));
    let digits = text::decimal_of(index as u64);
    let cs = text::chars_of(digits.as_str());
    let number = if cs.len() < 2 {
        text::concat(" ", digits.as_str())
    } else {
        digits
    };
    Line::pair(text::concat(number.as_str(), " "), Style::fg(Color::Cyan), shown, Style::plain())
}

/// Rows of waiting messages, their border included.
pub open spec fn queue_rows(count: nat) -> nat {
    if count == 0 {
        0
    } else if count > MAX_VISIBLE {
        (MAX_VISIBLE + 1 + BORDER_ROWS) as nat
    } else {
        count + BORDER_ROWS as nat
    }
}

/// How many messages are shown.
pub open spec fn visible(count: nat) -> nat {
    if count > MAX_VISIBLE {
        MAX_VISIBLE as nat
    } else {
        count
    }
}

/// The lines of waiting messages.
pub open spec fn queue_lines(pending: Seq<Seq<char>>, inner_width: nat) -> Seq<
    Seq<style::SpanView>,
> {
    let rows = Seq::new(
        visible(pending.len()),
        |i: int| preview(pending[i], (i + 1) as nat, inner_width),
    );
    if pending.len() > MAX_VISIBLE {
        rows.push(
            seq![
                style::SpanView {
                    text: "… and "@ + text::decimal((pending.len() - MAX_VISIBLE) as nat)
                        + " more queued"@,
                    style: theme::dim(),
                },
            ],
        )
    } else {
        rows
    }
}

/// Renders messages queued while the app is busy, one row per message.
pub struct QueueWidget {}

impl QueueWidget {
    /// The widget of waiting messages.
    pub fn new() -> (w: Self) {
        QueueWidget {  }
    }

    /// Height of the widget, or 0 when there is nothing queued.
    pub fn height(&self, pending: &Vec<String>) -> (rows: u16)
        ensures
            rows == queue_rows(pending@.len()),
    {
        if pending.len() == 0 {
            0
        } else if pending.len() > MAX_VISIBLE {
            MAX_VISIBLE as u16 + 1 + BORDER_ROWS
        } else {
            pending.len() as u16 + BORDER_ROWS
        }
    }

    /// The title of the border.
    pub fn title(&self, pending: &Vec<String>) -> (out: String)
        ensures
            out@ == " queued ("@ + text::decimal(pending@.len()) + ") "@,
    {
        let mut out = " queued (".to_owned();
        out.append(text::decimal_of(pending.len() as u64).as_str());
        out.append(") ");
        out
    }

    /// The lines inside the border of an area of some columns.
    pub fn draw(&self, width: u16, pending: &Vec<String>) -> (out: Vec<Line>)
        ensures
            seqs::views(out@) == queue_lines(
                seqs::views(pending@),
                if width >= 2 {
                    (width - 2) as nat
                } else {
                    0
                },
            ),
    {
        let inner: usize = width.saturating_sub(2) as usize;
        let ghost all = queue_lines(seqs::views(pending@), inner as nat);
        let n: usize = if pending.len() > MAX_VISIBLE {
            MAX_VISIBLE
        } else {
            pending.len()
        };
        let mut out: Vec<Line> = Vec::new();
        let mut i: usize = 0;
        assert(seqs::views(out@) =~= all.take(0));
        while i < n
            invariant
                i <= n <= pending@.len(),
                n == visible(pending@.len()),
                all == queue_lines(seqs::views(pending@), inner as nat),
                seqs::views(out@) == all.take(i as int),
            decreases n - i,
        {
            let line = preview_line(pending[i].as_str(), i + 1, inner);
            proof {
                assert(line@ == all[i as int]);
                assert(all.take(i + 1) =~= all.take(i as int).push(all[i as int]));
            }
            out.push(line);
            i += 1;
        }
        if pending.len() > MAX_VISIBLE {
            let mut footer = "… and ".to_owned();
            footer.append(text::decimal_of((pending.len() - MAX_VISIBLE) as u64).as_str());
            footer.append(" more queued");
            out.push(Line::of(footer, theme::dim()));
        }
        assert(seqs::views(out@) =~= all);
        out
    }
}

/// The lines of waiting messages fill the rows between the border lines.
pub proof fn rows_hold_the_lines(pending: Seq<Seq<char>>, inner_width: nat)
    requires
        pending.len() > 0,
    ensures
        queue_lines(pending, inner_width).len() + BORDER_ROWS == queue_rows(pending.len()),
{
}

/// The first three messages that wait are listed by number and the start of their
/// first line, and how many more there are is told below.
pub proof fn waiting_messages_are_listed(pending: Seq<Seq<char>>, inner_width: nat, i: int)
    requires
        0 <= i < pending.len(),
        i < 3,
    ensures
        ({
            let lines = queue_lines(pending, inner_width);
            let line = lines[i];
            &&& lines.len() == if pending.len() <= 3 {
                pending.len() as int
            } else {
                4
            }
            &&& line[0].text == " "@ + text::decimal((i + 1) as nat) + " "@
            &&& (text::lines_of(pending[i]).len() <= 1 && inner_width >= 3 && width::cols(
                queue::first_line(pending[i]),
            ) <= inner_width - 3 ==> line[1].text == queue::first_line(pending[i]))
            &&& pending.len() > 3 ==> lines[3][0].text == "… and "@ + text::decimal(
                (pending.len() - 3) as nat,
            ) + " more queued"@
        }),
{
    assert(text::decimal((i + 1) as nat).len() == 1);
}

} // verus!
