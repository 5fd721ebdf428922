//! The bands of the plain interface.
use vstd::prelude::*;

use crate::components::layout;
use crate::components::layout::{grant, split_rows};
use crate::style::Rect;

verus! {

/// Rows that the transcript keeps.
pub const TRANSCRIPT_MIN: u16 = 3;

/// Rows of the status line.
pub const STATUS_H: u16 = 1;

/// Rows that the transcript and the status line keep together.
pub const KEPT: u16 = 4;

/// The bands of the screen, from top to bottom.
#[derive(Clone, Copy, Debug, PartialEq, Eq, Structural)]
pub struct Regions {
    pub transcript: Rect,
    pub queue: Option<Rect>,
    pub input: Rect,
    pub popup: Option<Rect>,
    pub status: Rect,
    pub reply: Option<Rect>,
}

/// The heights of the bands below the transcript.
pub struct Heights {
    pub queue: nat,
    pub input: nat,
    pub popup: nat,
    pub status: nat,
    pub reply: nat,
}

/// The heights of the bands on a screen: transcript and status line keep their
/// rows, then the reply comes before the input line, the input line before the
/// queue, and the queue before the popup. Where the screen is too low for what
/// they keep, the transcript takes all of it.
pub open spec fn granted(
    height: u16,
    reply_h: u16,
    input_h: u16,
    queue_h: u16,
    popup_h: u16,
) -> Heights {
    let h = height as nat;
    let reply = layout::at_most(reply_h, h, KEPT as nat);
    let chrome = KEPT as nat + reply;
    let input = layout::at_most(input_h, h, chrome);
    let queue = layout::at_most(queue_h, h, chrome + input);
    let popup = layout::at_most(popup_h, h, chrome + input + queue);
    Heights {
        queue,
        input,
        popup,
        status: if height >= KEPT {
            STATUS_H as nat
        } else {
            0
        },
        reply,
    }
}

/// The bands of a screen with the given heights.
pub open spec fn arranged(area: Rect, h: Heights) -> Regions {
    let top = area.height - h.queue - h.input - h.popup - h.status - h.reply;
    let y = area.y + top;
    Regions {
        transcript: Rect { x: area.x, y: area.y, width: area.width, height: top as u16 },
        queue: layout::optional_band(area, y, h.queue),
        input: Rect {
            x: area.x,
            y: (y + h.queue) as u16,
            width: area.width,
            height: h.input as u16,
        },
        popup: layout::optional_band(area, y + h.queue + h.input, h.popup),
        status: Rect {
            x: area.x,
            y: (y + h.queue + h.input + h.popup) as u16,
            width: area.width,
            height: h.status as u16,
        },
        reply: layout::optional_band(area, y + h.queue + h.input + h.popup + h.status, h.reply),
    }
}

/// Splits the screen into its bands.
pub fn split(area: Rect, reply_h: u16, input_h: u16, queue_h: u16, popup_h: u16) -> (regions:
    Regions)
    requires
        area.x + area.width <= u16::MAX,
        area.y + area.height <= u16::MAX,
    ensures
        regions == arranged(area, granted(area.height, reply_h, input_h, queue_h, popup_h)),
{
    let h: u16 = area.height;
    let reply: u16 = grant(reply_h, h, KEPT);
    let chrome: u16 = KEPT + reply;
    let input: u16 = grant(input_h, h, chrome);
    let queue: u16 = grant(queue_h, h, chrome + input);
    let popup: u16 = grant(popup_h, h, chrome + input + queue);
    let status: u16 = if h >= KEPT {
        STATUS_H
    } else {
        0
    };
    let kept: u16 = if h >= TRANSCRIPT_MIN {
        TRANSCRIPT_MIN
    } else {
        h
    };
    let heights: Vec<u16> = vec![queue, input, popup, status, reply];
    proof {
        let all = heights@;
        reveal_with_fuel(layout::total, 6);
        assert(all.drop_last() =~= seq![queue, input, popup, status]);
        assert(all.drop_last().drop_last() =~= seq![queue, input, popup]);
        assert(all.drop_last().drop_last().drop_last() =~= seq![queue, input]);
        assert(all.take(4) =~= seq![queue, input, popup, status]);
        assert(all.take(3) =~= seq![queue, input, popup]);
        assert(all.take(2) =~= seq![queue, input]);
        assert(all.take(1) =~= seq![queue]);
        assert(seq![queue, input].drop_last() =~= seq![queue]);
        assert(seq![queue].drop_last() =~= Seq::<u16>::empty());
        assert(layout::total(all.take(0)) == 0);
    }
    let bands = split_rows(area, kept, &heights);
    Regions {
        transcript: bands[0],
        queue: if queue > 0 {
            Some(bands[1])
        } else {
            None
        },
        input: bands[2],
        popup: if popup > 0 {
            Some(bands[3])
        } else {
            None
        },
        status: bands[4],
        reply: if reply > 0 {
            Some(bands[5])
        } else {
            None
        },
    }
}

/// The bands that are there, from top to bottom.
pub open spec fn bands_of(r: Regions) -> Seq<Rect> {
    let queue = match r.queue {
        Some(b) => seq![b],
        None => Seq::empty(),
    };
    let popup = match r.popup {
        Some(b) => seq![b],
        None => Seq::empty(),
    };
    let reply = match r.reply {
        Some(b) => seq![b],
        None => Seq::empty(),
    };
    seq![r.transcript] + queue + seq![r.input] + popup + seq![r.status] + reply
}

/// The bands cover the screen: each spans its width, each starts where the one
/// above it ends, the first at its top and the last ending at its bottom.
pub proof fn bands_cover_the_screen(
    area: Rect,
    reply_h: u16,
    input_h: u16,
    queue_h: u16,
    popup_h: u16,
    i: int,
)
    requires
        area.y + area.height <= u16::MAX,
        0 <= i < bands_of(
            arranged(area, granted(area.height, reply_h, input_h, queue_h, popup_h)),
        ).len(),
    ensures
        ({
            let b = bands_of(
                arranged(area, granted(area.height, reply_h, input_h, queue_h, popup_h)),
            );
            &&& b[i].x == area.x && b[i].width == area.width
            &&& b[i].y == (if i == 0 {
                area.y as int
            } else {
                b[i - 1].y + b[i - 1].height
            })
            &&& i == b.len() - 1 ==> b[i].y + b[i].height == area.y + area.height
        }),
{
}

/// A screen of four rows or more always shows three rows of the transcript and
/// the status line.
pub proof fn transcript_and_status_stay(
    area: Rect,
    reply_h: u16,
    input_h: u16,
    queue_h: u16,
    popup_h: u16,
)
    requires
        area.height >= KEPT,
    ensures
        ({
            let r = arranged(area, granted(area.height, reply_h, input_h, queue_h, popup_h));
            r.transcript.height >= TRANSCRIPT_MIN && r.status.height == STATUS_H
        }),
{
}

/// Where there is room for all that was asked for, each band gets its rows; where
/// there is not, the reply is served first, then the input line, the queue and what
/// stands below the input line.
pub proof fn wishes_are_granted(
    height: u16,
    reply_h: u16,
    input_h: u16,
    queue_h: u16,
    popup_h: u16,
)
    ensures
        ({
            let g = granted(height, reply_h, input_h, queue_h, popup_h);
            let room = height - KEPT;
            &&& reply_h + input_h + queue_h + popup_h <= room ==> g.reply == reply_h && g.input
                == input_h && g.queue == queue_h && g.popup == popup_h
            &&& g.reply <= reply_h && g.input <= input_h && g.queue <= queue_h && g.popup <= popup_h
            &&& g.input > 0 ==> g.reply == reply_h
            &&& g.queue > 0 ==> g.input == input_h && g.reply == reply_h
            &&& g.popup > 0 ==> g.queue == queue_h && g.input == input_h && g.reply == reply_h
            &&& room >= 0 ==> g.reply + g.input + g.queue + g.popup <= room
            &&& room >= 0 && reply_h + input_h + queue_h + popup_h > room ==> g.reply + g.input
                + g.queue + g.popup == room
        }),
{
}

} // verus!
