//! The bands of the screen.
use vstd::prelude::*;

use crate::style::Rect;

verus! {

/// Rows that the transcript keeps.
pub const TRANSCRIPT_MIN: u16 = 1;

/// Rows of the status line.
pub const STATUS_H: u16 = 1;

/// The sum of some heights.
pub open spec fn total(heights: Seq<u16>) -> nat
    decreases heights.len(),
{
    if heights.len() == 0 {
        0
    } else {
        total(heights.drop_last()) + heights.last() as nat
    }
}

/// Band `i` of an area: the first band takes the rows that `heights` leave, and
/// the others follow it with the heights of `heights`.
pub open spec fn band(area: Rect, heights: Seq<u16>, i: int) -> Rect {
    let first = area.height - total(heights);
    if i == 0 {
        Rect { x: area.x, y: area.y, width: area.width, height: first as u16 }
    } else {
        Rect {
            x: area.x,
            y: (area.y + first + total(heights.take(i - 1))) as u16,
            width: area.width,
            height: heights[i - 1],
        }
    }
}

/// `Layout::split` from top to bottom, for one `Constraint::Min` and some
/// `Constraint::Length` below it. Where they fit, the fixed lengths are kept and
/// the minimum band takes all other rows, without a gap: no constraint is
/// stronger than the two but that there is no space between bands.
#[verifier::external_body]
pub(crate) fn split_rows(area: Rect, min: u16, heights: &Vec<u16>) -> (bands: Vec<Rect>)
    requires
        area.x + area.width <= u16::MAX,
        area.y + area.height <= u16::MAX,
        min <= 0x7fff,
        min + total(heights@) <= area.height,
    ensures
        bands@.len() == heights@.len() + 1,
        forall|i: int| 0 <= i < bands@.len() ==> #[trigger] bands@[i] == band(area, heights@, i),
{
    let mut rows = vec![ratatui::layout::Constraint::Min(min)];
    rows.extend(heights.iter().map(|h| ratatui::layout::Constraint::Length(*h)));
    let whole = ratatui::layout::Rect::new(area.x, area.y, area.width, area.height);
    let parts = ratatui::layout::Layout::default().direction(
        ratatui::layout::Direction::Vertical,
    ).constraints(rows).split(whole);
    parts.iter().map(|r| Rect::new(r.x, r.y, r.width, r.height)).collect()
}

/// The columns behind a fixed band that are left for a band of at least `min`
/// columns, which comes first where both do not fit.
pub open spec fn columns_left(width: u16, fixed: u16, min: u16) -> u16 {
    if fixed + min <= width {
        (width - fixed) as u16
    } else if min <= width {
        min
    } else {
        width
    }
}

/// A fixed band of an area and the band behind it, from left to right.
pub open spec fn columns(area: Rect, fixed: u16, min: u16) -> (Rect, Rect) {
    let right = columns_left(area.width, fixed, min);
    let left = (area.width - right) as u16;
    (
        Rect { x: area.x, y: area.y, width: left, height: area.height },
        Rect { x: (area.x + left) as u16, y: area.y, width: right, height: area.height },
    )
}

/// `Layout::split` from left to right, for one `Constraint::Length` and a
/// `Constraint::Min` behind it: there is no gap, the minimum is the stronger of
/// the two, and the minimum band takes all columns that the length leaves.
#[verifier::external_body]
pub(crate) fn split_columns(area: Rect, fixed: u16, min: u16) -> (bands: (Rect, Rect))
    requires
        area.x + area.width <= u16::MAX,
        area.y + area.height <= u16::MAX,
        min <= 0x7fff,
    ensures
        bands == columns(area, fixed, min),
{
    let columns = [ratatui::layout::Constraint::Length(fixed), ratatui::layout::Constraint::Min(min)];
    let whole = ratatui::layout::Rect::new(area.x, area.y, area.width, area.height);
    let parts = ratatui::layout::Layout::default().direction(
        ratatui::layout::Direction::Horizontal,
    ).constraints(columns).split(whole);
    let plain = |r: ratatui::layout::Rect| Rect::new(r.x, r.y, r.width, r.height);
    (plain(parts[0]), plain(parts[1]))
}

/// The bands of the screen, from top to bottom.
#[derive(Clone, Copy, Debug, PartialEq, Eq, Structural)]
pub struct Regions {
    pub transcript: Rect,
    pub queue: Option<Rect>,
    pub todos: Option<Rect>,
    pub input: Rect,
    pub overlay: Option<Rect>,
    pub status: Rect,
}

/// The heights of the bands below the transcript.
pub struct Heights {
    pub queue: nat,
    pub todos: nat,
    pub input: nat,
    pub overlay: nat,
    pub status: nat,
}

/// The smaller of a height and what is left of the screen.
pub open spec fn at_most(h: u16, body: nat, taken: nat) -> nat {
    let left = if body >= taken {
        (body - taken) as nat
    } else {
        0
    };
    if h <= left {
        h as nat
    } else {
        left
    }
}

/// The heights of the bands on a screen: status line and transcript keep a row
/// each, the input line comes before the queue, the queue before the tasks, and
/// the tasks before the overlay.
pub open spec fn granted(
    height: u16,
    input_h: u16,
    queue_h: u16,
    todos_h: u16,
    overlay_h: u16,
) -> Heights {
    let status = if height >= STATUS_H {
        STATUS_H as nat
    } else {
        height as nat
    };
    let body = (height - status) as nat;
    let kept = if body >= TRANSCRIPT_MIN {
        TRANSCRIPT_MIN as nat
    } else {
        body
    };
    let input = at_most(input_h, body, kept);
    let queue = at_most(queue_h, body, kept + input);
    let todos = at_most(todos_h, body, kept + input + queue);
    let overlay = at_most(overlay_h, body, kept + input + queue + todos);
    Heights { queue, todos, input, overlay, status }
}

/// A band of a height, below `y`, or none of no height.
pub open spec fn optional_band(area: Rect, y: int, h: nat) -> Option<Rect> {
    if h > 0 {
        Some(Rect { x: area.x, y: y as u16, width: area.width, height: h as u16 })
    } else {
        None
    }
}

/// The bands of a screen with the given heights.
pub open spec fn arranged(area: Rect, h: Heights) -> Regions {
    let top = area.height - h.queue - h.todos - h.input - h.overlay - h.status;
    let y = area.y + top;
    Regions {
        transcript: Rect { x: area.x, y: area.y, width: area.width, height: top as u16 },
        queue: optional_band(area, y, h.queue),
        todos: optional_band(area, y + h.queue, h.todos),
        input: Rect {
            x: area.x,
            y: (y + h.queue + h.todos) as u16,
            width: area.width,
            height: h.input as u16,
        },
        overlay: optional_band(area, y + h.queue + h.todos + h.input, h.overlay),
        status: Rect {
            x: area.x,
            y: (y + h.queue + h.todos + h.input + h.overlay) as u16,
            width: area.width,
            height: h.status as u16,
        },
    }
}

/// The smaller of a height and what is left of the screen.
pub fn grant(h: u16, body: u16, taken: u16) -> (out: u16)
    ensures
        out == at_most(h, body as nat, taken as nat),
{
    let left: u16 = body.saturating_sub(taken);
    if h <= left {
        h
    } else {
        left
    }
}

/// Splits the screen into its bands.
pub fn split(area: Rect, input_h: u16, queue_h: u16, todos_h: u16, overlay_h: u16) -> (regions:
    Regions)
    requires
        area.x + area.width <= u16::MAX,
        area.y + area.height <= u16::MAX,
    ensures
        regions == arranged(area, granted(area.height, input_h, queue_h, todos_h, overlay_h)),
{
    let status: u16 = if area.height >= STATUS_H {
        STATUS_H
    } else {
        area.height
    };
    let body: u16 = area.height - status;
    let kept: u16 = if body >= TRANSCRIPT_MIN {
        TRANSCRIPT_MIN
    } else {
        body
    };
    let input: u16 = grant(input_h, body, kept);
    let queue: u16 = grant(queue_h, body, kept + input);
    let todos: u16 = grant(todos_h, body, kept + input + queue);
    let overlay: u16 = grant(overlay_h, body, kept + input + queue + todos);
    let heights: Vec<u16> = vec![queue, todos, input, overlay, status];
    proof {
        let all = heights@;
        reveal_with_fuel(total, 6);
        assert(all.drop_last() =~= seq![queue, todos, input, overlay]);
        assert(all.drop_last().drop_last() =~= seq![queue, todos, input]);
        assert(all.drop_last().drop_last().drop_last() =~= seq![queue, todos]);
        assert(all.take(4) =~= seq![queue, todos, input, overlay]);
        assert(all.take(3) =~= seq![queue, todos, input]);
        assert(all.take(2) =~= seq![queue, todos]);
        assert(all.take(1) =~= seq![queue]);
        assert(seq![queue, todos].drop_last() =~= seq![queue]);
        assert(seq![queue].drop_last() =~= Seq::<u16>::empty());
        assert(total(all.take(0)) == 0);
    }
    let bands = split_rows(area, kept, &heights);
    Regions {
        transcript: bands[0],
        queue: if queue > 0 {
            Some(bands[1])
        } else {
            None
        },
        todos: if todos > 0 {
            Some(bands[2])
        } else {
            None
        },
        input: bands[3],
        overlay: if overlay > 0 {
            Some(bands[4])
        } else {
            None
        },
        status: bands[5],
    }
}

/// The bands that are there, from top to bottom.
pub open spec fn bands_of(r: Regions) -> Seq<Rect> {
    let queue = match r.queue {
        Some(b) => seq![b],
        None => Seq::empty(),
    };
    let todos = match r.todos {
        Some(b) => seq![b],
        None => Seq::empty(),
    };
    let overlay = match r.overlay {
        Some(b) => seq![b],
        None => Seq::empty(),
    };
    seq![r.transcript] + queue + todos + seq![r.input] + overlay + seq![r.status]
}

/// The bands cover the screen: each spans its width, each starts where the one
/// above it ends, the first at its top and the last ending at its bottom.
pub proof fn bands_cover_the_screen(
    area: Rect,
    input_h: u16,
    queue_h: u16,
    todos_h: u16,
    overlay_h: u16,
    i: int,
)
    requires
        area.y + area.height <= u16::MAX,
        0 <= i < bands_of(
            arranged(area, granted(area.height, input_h, queue_h, todos_h, overlay_h)),
        ).len(),
    ensures
        ({
            let b = bands_of(
                arranged(area, granted(area.height, input_h, queue_h, todos_h, overlay_h)),
            );
            &&& b[i].x == area.x && b[i].width == area.width
            &&& b[i].y == (if i == 0 {
                area.y as int
            } else {
                b[i - 1].y + b[i - 1].height
            })
            &&& i == b.len() - 1 ==> b[i].y + b[i].height == area.y + area.height
        }),
{
}

/// A screen of two rows or more always shows a row of the transcript and the
/// status line.
pub proof fn transcript_and_status_stay(
    area: Rect,
    input_h: u16,
    queue_h: u16,
    todos_h: u16,
    overlay_h: u16,
)
    requires
        area.height >= TRANSCRIPT_MIN + STATUS_H,
    ensures
        ({
            let r = arranged(area, granted(area.height, input_h, queue_h, todos_h, overlay_h));
            r.transcript.height >= TRANSCRIPT_MIN && r.status.height == STATUS_H
        }),
{
}

/// Where there is room for all that was asked for, each band gets its rows and the
/// transcript the rest; where there is not, the input line is served first, then
/// the queue, the tasks and what stands below the input line.
pub proof fn wishes_are_granted(
    height: u16,
    input_h: u16,
    queue_h: u16,
    todos_h: u16,
    overlay_h: u16,
)
    ensures
        ({
            let g = granted(height, input_h, queue_h, todos_h, overlay_h);
            let room = height - STATUS_H - TRANSCRIPT_MIN;
            &&& input_h + queue_h + todos_h + overlay_h <= room ==> g.input == input_h && g.queue
                == queue_h && g.todos == todos_h && g.overlay == overlay_h
            &&& g.input <= input_h && g.queue <= queue_h && g.todos <= todos_h && g.overlay
                <= overlay_h
            &&& input_h <= room ==> g.input == input_h
            &&& g.queue > 0 ==> g.input == input_h
            &&& g.todos > 0 ==> g.queue == queue_h && g.input == input_h
            &&& g.overlay > 0 ==> g.todos == todos_h && g.queue == queue_h && g.input == input_h
            &&& room >= 0 ==> g.input + g.queue + g.todos + g.overlay <= room
            &&& room >= 0 && input_h + queue_h + todos_h + overlay_h > room ==> g.input + g.queue
                + g.todos + g.overlay == room
        }),
{
}

/// Two columns share the area without a gap; the fixed one has its width wherever
/// the other keeps its least width, which comes first.
pub proof fn columns_share_the_area(area: Rect, fixed: u16, min: u16)
    requires
        area.x + area.width <= u16::MAX,
    ensures
        ({
            let (left, right) = columns(area, fixed, min);
            &&& left.x == area.x
            &&& right.x == left.x + left.width
            &&& left.width + right.width == area.width
            &&& left.y == area.y && right.y == area.y
            &&& left.height == area.height && right.height == area.height
            &&& fixed + min <= area.width ==> left.width == fixed
            &&& left.width <= fixed || fixed + min > area.width
            &&& min <= area.width ==> right.width >= min
            &&& min > area.width ==> right.width == area.width
        }),
{
}

} // verus!
