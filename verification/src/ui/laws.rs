//! What holds of the plain interface as a whole.
use vstd::prelude::*;

use super::event::AppEvent;
use super::input;
use super::input::InputData;
use super::layout;
use super::queue;
use super::transcript::events;
use super::transcript::kinds::LineKind;
use super::transcript::model::{RowView, TranscriptView};
use super::ui;
use super::ui::UiView;
use crate::components::commands;
use crate::components::component;
use crate::components::composer;
use crate::components::outbox;
use crate::components::ui::CommandView;
use crate::keys::{KeyEvent, MouseEvent};
use crate::style::Rect;
use crate::text;

verus! {

/// The page keys move the first line shown by one line, up no further than the
/// first line and down no further than the last lines fill the view, and nothing
/// else moves.
pub proof fn page_keys_scroll(v: UiView, key: KeyEvent)
    requires
        key.code is PageUp || key.code is PageDown,
        v.transcript.view_height > 0,
    ensures
        ({
            let next = v.after_own_key(key);
            let top = v.transcript.current_top() as int;
            let page = v.transcript.view_height as int;
            let last = if v.transcript.total() > page {
                v.transcript.total() - page
            } else {
                0
            };
            &&& v.is_own_key(key)
            &&& v.own_reaction(key) == ui::sending(None)
            &&& key.code is PageUp ==> next.transcript.current_top() == if top >= 1 {
                top - 1
            } else {
                0
            }
            &&& key.code is PageDown ==> next.transcript.current_top() == if top + 1 <= last {
                top + 1
            } else {
                last
            }
            &&& next.transcript.lines() == v.transcript.lines()
            &&& next.transcript.rows == v.transcript.rows
            &&& next == UiView { transcript: next.transcript, ..v }
        }),
{
}

/// A message that is queued waits behind the others, and its row behind what the
/// session tells meanwhile; nothing is told the session yet.
pub proof fn queued_messages_wait(v: UiView, t: Seq<char>, now: u64)
    ensures
        ({
            let result = component::KeyResultView::Action(component::ActionView::Queue(t));
            let next = v.after_result(result, now);
            &&& next.pending == v.pending.push(t)
            &&& next.transcript.rows == v.transcript.rows
            &&& next.transcript.pending_user == v.transcript.pending_user.push(
                commands::shown_input(t),
            )
            &&& next.state == v.state
            &&& v.result_reaction(result, now) == ui::sending(None)
        }),
{
}

/// Queued messages go on their way only while the session is idle, and then all of
/// them in order; those that the session did not take wait again, before what was
/// queued since.
pub proof fn queued_messages_go_when_idle(v: UiView, o: outbox::OutboxView)
    requires
        o.sent <= o.texts.len(),
    ensures
        v.state.busy ==> v.flush().texts.len() == 0 && v.flushed() == v,
        !v.state.busy ==> v.flush().texts == v.pending && v.flush().sent == 0,
        !v.state.busy && v.pending.len() > 0 ==> v.flushed().pending.len() == 0
            && v.flushed().state.busy,
        v.pending.len() == 0 ==> v.flushed() == v,
        o.sent < o.texts.len() ==> v.after_sending(o).pending == o.texts.skip(o.sent as int)
            + v.pending && !v.after_sending(o).state.busy,
        o.sent == o.texts.len() ==> v.after_sending(o) == v,
        v.after_sending(o).transcript == v.transcript,
{
    if v.pending.len() == 0 {
        assert(v.pending =~= Seq::<Seq<char>>::empty());
    }
}

/// A submitted text is shown as a row of its own, without its keys, and the input
/// line is empty then; a command that is submitted quietly reaches the session
/// alike and leaves no trace.
pub proof fn submitted_texts_are_shown(v: UiView, t: Seq<char>, now: u64)
    ensures
        ({
            let result = component::KeyResultView::Action(component::ActionView::Submit(t));
            let next = v.after_result(result, now);
            &&& v.result_reaction(result, now).send == Some(CommandView::UserInput(t))
            &&& next.transcript.rows == v.transcript.rows.push(
                RowView { kind: LineKind::User, text: commands::shown_input(t) },
            )
            &&& next.input.edit.text().len() == 0
            &&& next.state.busy
            &&& next.pending == v.pending
        }),
        ({
            let result = component::KeyResultView::Action(component::ActionView::QuietSubmit(t));
            &&& v.result_reaction(result, now).send == Some(CommandView::UserInput(t))
            &&& v.after_result(result, now) == v
        }),
{
    reveal(TranscriptView::with_row);
    reveal_strlit("\n");
    reveal_with_fuel(text::joined, 2);
}

/// What the session tells changes the interface so: it is idle once the session
/// says so, ends with it, and takes Esc again once the rewind is done. The
/// transcript hears everything, and nothing touches the queue.
pub proof fn the_session_is_followed(v: UiView, ev: AppEvent, now: u64)
    ensures
        ({
            let next = v.noted(ev, now);
            &&& next.state.busy <==> v.state.busy && !(ev is Idle)
            &&& next.quit <==> v.quit || ev is Exit
            &&& next.rewinding <==> v.rewinding && !(ev is Rewound)
            &&& next.transcript == v.transcript.after(ev)
            &&& next.pending == v.pending
            &&& !(ev is Rewound) ==> next.input.edit == v.input.edit
        }),
{
}

/// A command that the session did not take leaves the interface able to go on.
pub proof fn failed_sends_block_nothing(v: UiView, t: Seq<char>)
    ensures
        !commands::is_quiet(t) ==> !v.after_failed_send(CommandView::UserInput(t)).state.busy,
        commands::is_quiet(t) ==> v.after_failed_send(CommandView::UserInput(t)) == v,
        !v.after_failed_send(CommandView::Rewind).rewinding,
        v.after_failed_send(CommandView::Rewind).state == v.state,
        v.after_failed_send(CommandView::Cancel) == v,
        v.after_failed_send(CommandView::UserInput(t)).pending == v.pending,
{
}

/// Esc closes what is open below the input line before it does anything to the
/// queue or the session. A message that it takes back waits no longer in the
/// transcript either.
pub proof fn esc_closes_popups_first(v: UiView, key: KeyEvent)
    requires
        key.code is Esc,
    ensures
        v.is_own_key(key) <==> v.input.overlay() is Closed,
        v.pending.len() > 0 && v.transcript.pending_user.len() > 0
            ==> v.after_esc().transcript.pending_user == v.transcript.pending_user.drop_last(),
        v.after_esc().transcript.rows == v.transcript.rows,
{
}

/// What is typed while the session is busy is queued and else submitted, all of it
/// but the whitespace around it; the input line is empty then. A text of nothing
/// but whitespace stays.
pub proof fn enter_hands_the_text_out(v: InputData, key: KeyEvent, busy: bool)
    requires
        key.code is Enter,
        key.modifiers.is_empty(),
        !v.setup.open,
        !v.picker.open,
        !v.slash.open,
        !commands::is_quiet(text::trimmed(v.edit.text())),
    ensures
        ({
            let t = text::trimmed(v.edit.text());
            let out = v.key_step(key, busy)->Done_0;
            &&& v.key_step(key, busy) is Done
            &&& t.len() > 0 && busy ==> out.result == component::KeyResultView::Action(
                component::ActionView::Queue(t),
            )
            &&& t.len() > 0 && !busy ==> out.result == component::KeyResultView::Action(
                component::ActionView::Submit(t),
            )
            &&& t.len() > 0 ==> out.next.edit == composer::empty_edit()
            &&& t.len() == 0 ==> out.next == v && out.result is Handled
        }),
{
}

/// Alt-Enter breaks the line at the cursor and submits nothing.
pub proof fn alt_enter_breaks_the_line(v: InputData, key: KeyEvent, busy: bool)
    requires
        key.code is Enter,
        key.modifiers.alt,
        !v.setup.open,
        !v.picker.open,
        !v.slash.open,
    ensures
        v.key_step(key, busy) is Done,
        v.key_step(key, busy)->Done_0.result is Handled,
        v.key_step(key, busy)->Done_0.next.edit == v.edit.broken(),
{
}

/// A command that is taken opens what it is for: `/setup` alone the wizard, `/model`
/// with at most one argument the picker with that filter, and any other command
/// goes to the session as it is.
pub proof fn commands_open_their_popups(v: InputData, t: Seq<char>)
    ensures
        ({
            let out = v.command_step(t);
            let words = commands::command_words(t);
            &&& commands::opens_setup(t) ==> out.next.setup.open && out.result
                == component::KeyResultView::Action(component::ActionView::QuietSubmit(t))
            &&& words.len() == 1 && commands::is_named(words[0], "model"@) && !commands::opens_setup(
                t,
            ) ==> out.next.picker.open && out.next.picker.filter == text::lowered(
                text::trimmed(Seq::empty()),
            ) && out.result == component::KeyResultView::Action(
                component::ActionView::QuietSubmit(t),
            )
            &&& words.len() == 2 && words[1].len() > 0 && commands::is_named(words[0], "model"@)
                ==> out.next.picker.open && out.next.picker.filter == text::lowered(
                text::trimmed(words[1]),
            ) && out.result is Handled
            &&& words.len() > 2 || words.len() == 0 ==> out.result == commands::submission(t)
                && out.next == v.cleared()
        }),
{
}

/// Once the session is idle, what it streamed and then what the user queued
/// follow the rows in order.
pub proof fn idle_shows_what_was_queued(v: UiView, now: u64)
    ensures
        v.noted(AppEvent::Idle, now).transcript.rows == v.transcript.rows + events::said(
            v.transcript,
        ) + events::own_rows(v.transcript.pending_user),
{
    events::the_rest_is_told(v.transcript, arbitrary());
}

/// A tick turns the mark of a busy session, and leaves that of an idle one; a reply
/// goes once its time is over.
pub proof fn ticks_turn_the_mark(v: UiView, now: u64)
    ensures
        v.state.busy ==> v.ticked(now).spin != v.spin,
        !v.state.busy ==> v.ticked(now).spin == v.spin,
        v.ticked(now).state == v.state,
        v.ticked(now).status == v.status.expired(now),
        v.ticked(now).transcript == v.transcript,
        v.ticked(now).input == v.input,
        v.ticked(now).pending == v.pending,
        v.is_moving() <==> v.state.busy || v.status.replies(),
{
}

/// The mouse acts on the transcript alone; where a selection was copied, that is
/// told in the status row.
pub proof fn copies_are_told(v: UiView, mouse: MouseEvent, now: u64, clipboard: bool)
    ensures
        ({
            let next = v.after_mouse(mouse, now, clipboard);
            let answer = v.transcript.mouse_answer(mouse, clipboard);
            &&& next.transcript == v.transcript.after_mouse(mouse, clipboard)
            &&& next.input == v.input
            &&& (answer matches component::KeyResultView::Action(_) ==> next.status.reply == Some(
                "Copied!"@,
            ))
            &&& (answer is Handled || answer is Ignored) ==> next.status == v.status && next.pending
                == v.pending && next.state == v.state
        }),
{
}

/// What is pasted goes to the cursor of the input line, all of it, where nothing is
/// selected and nothing covers the line.
pub proof fn pasted_text_goes_to_the_cursor(v: InputData, t: Seq<char>)
    requires
        !v.setup.open,
        !v.picker.open,
        v.edit.wf(),
        !v.edit.selecting(),
        !t.contains('\r'),
    ensures
        v.pasted(t).edit.text() == composer::text_before(v.edit) + t + composer::text_behind(
            v.edit,
        ),
        composer::text_before(v.pasted(t).edit) == composer::text_before(v.edit) + t,
{
    text::join_undoes_split(t, '\n');
    composer::inserted_text_goes_to_the_cursor(v.edit, composer::pieces_of(t));
    composer::texts_are_inserted_whole(t);
}

/// The open popup is shown, the wizard before the picker and both before what is
/// typed, and has a row for each of its lines.
pub proof fn popups_have_rows_for_their_lines(v: InputData)
    ensures
        v.overlay_rows() == v.overlay_drawn().len(),
        v.setup.open ==> v.overlay_drawn() == v.setup.drawn(),
        !v.setup.open && v.picker.open ==> v.overlay_drawn() == v.picker.drawn(),
        !v.setup.open && !v.picker.open && v.slash.open ==> v.overlay_drawn() == v.slash.drawn(),
        !v.setup.open && !v.picker.open && !v.slash.open ==> v.overlay_rows() == 0,
{
}

/// On a screen with room for all, each part has the rows that it takes, and the
/// transcript has all others.
pub proof fn bands_fit_what_they_show(v: UiView, area: Rect)
    requires
        v.status.reply_rows(area.width) + input::input_rows(v.input.edit.lines, area.width)
            + queue::queue_rows(v.pending.len()) + v.input.overlay_rows() + layout::KEPT
            <= area.height,
    ensures
        ({
            let r = v.regions(area);
            &&& r.input.height == input::input_rows(v.input.edit.lines, area.width)
            &&& r.queue is Some <==> v.pending.len() > 0
            &&& r.queue matches Some(q) ==> q.height == queue::queue_rows(v.pending.len())
            &&& r.popup is Some <==> v.input.overlay_rows() > 0
            &&& r.popup matches Some(o) ==> o.height == v.input.overlay_rows()
            &&& r.reply matches Some(p) ==> p.height == v.status.reply_rows(area.width)
            &&& r.transcript.y == area.y
            &&& r.transcript.height == area.height - r.input.height - queue::queue_rows(
                v.pending.len(),
            ) - v.input.overlay_rows() - v.status.reply_rows(area.width) - r.status.height
        }),
{
}

} // verus!
