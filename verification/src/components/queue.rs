//! The messages that wait while the session is busy.
use vstd::prelude::*;
use vstd::string::*;

use super::sizing;
use super::sizing::truncate_str;
use super::theme;
use crate::seqs;
use crate::style::Line;
use crate::style;
use crate::text;
use crate::width;

verus! {

/// Renders a single compact row of messages queued while the app is busy.
pub struct QueueWidget {}

/// The first line of a text.
pub open spec fn first_line(t: Seq<char>) -> Seq<char> {
    let lines = text::lines_of(t);
    if lines.len() > 0 {
        lines[0]
    } else {
        Seq::empty()
    }
}

/// The first line of a text.
pub fn first_line_of(t: &str) -> (out: String)
    ensures
        out@ == first_line(t@),
{
    let lines = text::lines(t);
    if lines.len() > 0 {
        assert(seqs::views(lines@)[0] == lines@[0]@);
        lines[0].clone()
    } else {
        String::new()
    }
}

/// How many more messages wait.
pub open spec fn more_text(count: nat) -> Seq<char> {
    if count > 1 {
        "  +"@ + text::decimal((count - 1) as nat)
    } else {
        Seq::empty()
    }
}

/// The row of waiting messages at a width: the start of the first one, and how
/// many more there are.
pub open spec fn queue_row(pending: Seq<Seq<char>>, width: u16) -> Seq<char> {
    let extra = more_text(pending.len());
    let taken = text::byte_len("queued · "@) + text::byte_len(extra);
    let budget = if width >= taken {
        (width - taken) as nat
    } else {
        0
    };
    "queued · "@ + sizing::truncated(first_line(pending[0]), budget) + extra
}

impl QueueWidget {
    /// The widget of waiting messages.
    pub fn new() -> (w: Self) {
        QueueWidget {  }
    }

    /// Rows that the waiting messages take.
    pub fn height(&self, pending: &Vec<String>) -> (rows: u16)
        ensures
            rows == (if pending@.len() == 0 {
                0
            } else {
                1int
            }),
    {
        if pending.len() == 0 {
            0
        } else {
            1
        }
    }

    /// The row of waiting messages at a width; nothing while none waits.
    pub fn draw(&self, width: u16, pending: &Vec<String>) -> (out: Option<Line>)
        ensures
            match out {
                Some(line) => pending@.len() > 0 && line@ == seq![
                    style::SpanView {
                        text: queue_row(seqs::views(pending@), width),
                        style: theme::dim(),
                    },
                ],
                None => pending@.len() == 0,
            },
    {
        if pending.len() == 0 {
            return None;
        }
        let first = first_line_of(pending[0].as_str());
        let mut extra = String::new();
        if pending.len() > 1 {
            extra.append("  +");
            extra.append(text::decimal_of((pending.len() - 1) as u64).as_str());
        }
        assert(extra@ =~= more_text(pending@.len()));
        let head = "queued · ";
        let hs = text::chars_of(head);
        let es = text::chars_of(extra.as_str());
        proof {
            assert(head@.take(head@.len() as int) =~= head@);
            assert(extra@.take(extra@.len() as int) =~= extra@);
        }
        let taken_head: usize = text::bytes_before(head, &hs, hs.len());
        let taken_extra: usize = text::bytes_before(extra.as_str(), &es, es.len());
        let width: usize = width as usize;
        let budget: usize = width.saturating_sub(taken_head).saturating_sub(taken_extra);
        let preview = truncate_str(first.as_str(), budget);
        let mut t = head.to_owned();
        t.append(preview.as_str());
        t.append(extra.as_str());
        Some(Line::of(t, theme::dim()))
    }
}

/// The first line of a text is its start, up to the first line end.
pub proof fn first_lines_start_the_text(t: Seq<char>)
    ensures
        first_line(t).is_prefix_of(t),
        !first_line(t).contains('\n'),
        first_line(t).len() < t.len() ==> t[first_line(t).len() as int] == '\n' || t[first_line(
            t,
        ).len() as int] == '\r',
{
    let pieces = text::split_on(t, '\n');
    lemma_first_piece(t);
    let p = pieces[0];
    assert(p =~= t.take(p.len() as int));
    let first = first_line(t);
    if pieces.len() > 1 {
        assert(first == text::without_cr(p));
    } else if p.len() > 0 {
        assert(first == p);
    } else {
        assert(first =~= p);
    }
    assert(first =~= t.subrange(0, first.len() as int));
    assert forall|k: int| 0 <= k < first.len() implies first[k] != '\n' by {
        assert(p.contains(p[k]));
    }
}

proof fn lemma_first_piece(t: Seq<char>)
    ensures
        text::split_on(t, '\n').len() > 0,
        ({
            let p = text::split_on(t, '\n')[0];
            &&& p.len() <= t.len()
            &&& p == t.take(p.len() as int)
            &&& !p.contains('\n')
            &&& p.len() < t.len() ==> t[p.len() as int] == '\n'
            &&& text::split_on(t, '\n').len() > 1 <==> p.len() < t.len()
        }),
    decreases t.len(),
{
    if t.len() == 0 {
        assert(text::split_on(t, '\n')[0] =~= t.take(0));
    } else {
        let rest = t.drop_last();
        lemma_first_piece(rest);
        let before = text::split_on(rest, '\n');
        let p = before[0];
        let q = text::split_on(t, '\n')[0];
        assert(rest.take(p.len() as int) =~= t.take(p.len() as int));
        if t.last() != '\n' && before.len() == 1 {
            assert(q == p.push(t.last()));
            assert(q =~= t.take(q.len() as int));
            assert forall|k: int| 0 <= k < q.len() implies q[k] != '\n' by {
                if k < p.len() {
                    assert(p.contains(p[k]));
                }
            }
        } else {
            assert(q == p);
            if p.len() < rest.len() {
                assert(rest[p.len() as int] == t[p.len() as int]);
            }
        }
    }
}

/// The row of waiting messages tells the first that will be sent, and how many
/// wait behind it where any do.
pub proof fn the_row_tells_what_waits(pending: Seq<Seq<char>>, width: u16)
    requires
        pending.len() > 0,
    ensures
        ({
            let row = queue_row(pending, width);
            let head = "queued · "@;
            let more = "  +"@ + text::decimal((pending.len() - 1) as nat);
            &&& head.is_prefix_of(row)
            &&& pending.len() > 1 ==> more.is_suffix_of(row)
            &&& width::cols(first_line(pending[0])) == 0 || width >= text::byte_len(head)
                + text::byte_len(more) + width::cols(first_line(pending[0])) ==> row == head
                + first_line(pending[0]) + (if pending.len() > 1 {
                more
            } else {
                Seq::empty()
            })
        }),
{
    let row = queue_row(pending, width);
    let head = "queued · "@;
    let more = "  +"@ + text::decimal((pending.len() - 1) as nat);
    assert(row.subrange(0, head.len() as int) =~= head);
    if pending.len() > 1 {
        assert(row.subrange(row.len() - more.len(), row.len() as int) =~= more);
    }
    text::lemma_byte_len_front(more);
    assert(text::byte_len(Seq::<char>::empty()) == 0);
}

} // verus!
