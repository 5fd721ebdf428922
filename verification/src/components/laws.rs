//! What holds of the interface as a whole.
use vstd::prelude::*;

use super::commands;
use super::component;
use super::composer;
use super::event::{AppEvent, StateChange};
use super::file_mention_popup;
use super::input;
use super::input::InputData;
use super::layout;
use super::list;
use super::model_picker;
use super::outbox;
use super::slash_command_popup;
use super::status;
use super::transcript::events;
use super::transcript::kinds::LineKind;
use super::transcript::model::TranscriptView;
use super::ui;
use super::ui::{CommandView, UiView};
use crate::keys::{KeyCode, KeyEvent, KeyModifiers, MouseEvent};
use crate::style::Rect;
use crate::text;

verus! {

/// The page keys move the first line shown by the rows of the view, up no further
/// than the first line and down no further than the last lines fill the view, and
/// nothing else moves.
pub proof fn pages_are_turned(v: UiView, key: KeyEvent)
    requires
        key.code is PageUp || key.code is PageDown,
        v.transcript.area.height > 0,
    ensures
        ({
            let next = v.after_own_key(key);
            let top = v.transcript.current_top() as int;
            let page = v.transcript.area.height as int;
            let last = if v.transcript.total() > page {
                v.transcript.total() - page
            } else {
                0
            };
            &&& v.is_own_key(key)
            &&& v.own_reaction(key) == ui::sending(None)
            &&& key.code is PageUp ==> next.transcript.current_top() == if top >= page {
                top - page
            } else {
                0
            }
            &&& key.code is PageDown ==> next.transcript.current_top() == if top + page <= last {
                top + page
            } else {
                last
            }
            &&& next.transcript.lines() == v.transcript.lines()
            &&& next.transcript.rows == v.transcript.rows
            &&& next == UiView { transcript: next.transcript, ..v }
        }),
{
}

proof fn lemma_told(t: TranscriptView, texts: Seq<Seq<char>>)
    requires
        t.wf(),
    ensures
        ui::told(t, texts).wf(),
        events::all_held(ui::told(t, texts).rows) == events::all_held(t.rows) + Seq::new(
            texts.len(),
            |i: int| events::plain(LineKind::User, commands::shown_input(texts[i])),
        ),
    decreases texts.len(),
{
    let shown = Seq::new(
        texts.len(),
        |i: int| events::plain(LineKind::User, commands::shown_input(texts[i])),
    );
    if texts.len() == 0 {
        assert(events::all_held(t.rows) + shown =~= events::all_held(t.rows));
    } else {
        let rest = texts.drop_last();
        lemma_told(t, rest);
        let before = ui::told(t, rest);
        events::own_messages_are_shown(before, commands::shown_input(texts.last()));
        events::lemma_user_wf(before, commands::shown_input(texts.last()));
        assert(events::all_held(ui::told(t, texts).rows) =~= events::all_held(t.rows) + shown);
    }
}

/// Each queued message that was sent stands in the transcript, in the order they
/// were queued, each in a row of its own behind the others; those that were not
/// sent wait again, before what was queued since, and the session is not busy
/// then. None is shown that was not sent.
pub proof fn sent_messages_are_shown(v: UiView, o: outbox::OutboxView)
    requires
        v.transcript.wf(),
        o.sent <= o.texts.len(),
    ensures
        ({
            let next = v.after_sending(o);
            &&& events::all_held(next.transcript.rows) == events::all_held(v.transcript.rows)
                + Seq::new(
                o.sent as nat,
                |i: int| events::plain(LineKind::User, commands::shown_input(o.texts[i])),
            )
            &&& o.sent < o.texts.len() ==> next.pending == o.texts.skip(o.sent as int) + v.pending
                && !next.state.busy
            &&& o.sent == o.texts.len() ==> next.pending == v.pending && next.state == v.state
            &&& next.input == v.input
            &&& next.state.mode == v.state.mode
        }),
{
    let sent = o.texts.take(o.sent as int);
    lemma_told(v.transcript, sent);
    assert(Seq::new(
        o.sent as nat,
        |i: int| events::plain(LineKind::User, commands::shown_input(o.texts[i])),
    ) =~= Seq::new(
        sent.len(),
        |i: int| events::plain(LineKind::User, commands::shown_input(sent[i])),
    ));
}

/// A message that is queued waits behind the others; nothing is told the session
/// and nothing is shown of it yet.
pub proof fn queued_messages_wait(v: UiView, t: Seq<char>, now: u64)
    ensures
        ({
            let result = component::KeyResultView::Action(component::ActionView::Queue(t));
            let next = v.after_result(result, now);
            &&& next.pending == v.pending.push(t)
            &&& next.transcript == v.transcript
            &&& next.state == v.state
            &&& v.result_reaction(result, None, now) == ui::asking(None)
        }),
{
}

/// Queued messages go on their way only while the session is idle, and then all of
/// them in order.
pub proof fn queued_messages_go_when_idle(v: UiView)
    ensures
        v.state.busy ==> v.flush().texts.len() == 0 && v.flushed() == v,
        !v.state.busy ==> v.flush().texts == v.pending && v.flush().sent == 0,
        !v.state.busy && v.pending.len() > 0 ==> v.flushed().pending.len() == 0
            && v.flushed().state.busy,
        v.pending.len() == 0 ==> v.flushed() == v,
        v.flushed().transcript == v.transcript,
{
    if v.pending.len() == 0 {
        assert(v.pending =~= Seq::<Seq<char>>::empty());
    }
}

/// A submitted text is shown as a row of its own, without its keys, and the input
/// line is empty then; a command that is submitted quietly reaches the session
/// alike and leaves no trace.
pub proof fn submitted_texts_are_shown(v: UiView, t: Seq<char>, now: u64)
    requires
        v.transcript.wf(),
    ensures
        ({
            let result = component::KeyResultView::Action(component::ActionView::Submit(t));
            let next = v.after_result(result, now);
            &&& v.result_reaction(result, None, now).send == Some(CommandView::UserInput(t))
            &&& events::all_held(next.transcript.rows) == events::all_held(
                v.transcript.rows,
            ).push(events::plain(LineKind::User, commands::shown_input(t)))
            &&& next.transcript.top is None
            &&& next.input.edit.text().len() == 0
            &&& next.state.busy
            &&& next.pending == v.pending
        }),
        ({
            let result = component::KeyResultView::Action(component::ActionView::QuietSubmit(t));
            &&& v.result_reaction(result, None, now).send == Some(CommandView::UserInput(t))
            &&& v.after_result(result, now) == v
        }),
{
    events::own_messages_are_shown(v.transcript, commands::shown_input(t));
    let none = Seq::<Seq<char>>::empty();
    reveal_strlit("\n");
    reveal_with_fuel(text::joined, 2);
}

/// What the session tells changes the interface so: it is idle once the session
/// says so, ends with it, follows its mode, and takes Esc again once the rewind is
/// done. The transcript hears everything, and nothing else touches the queue or
/// the text typed.
pub proof fn the_session_is_followed(v: UiView, ev: AppEvent, now: u64)
    ensures
        ({
            let next = v.noted(ev, now);
            &&& next.state.busy <==> v.state.busy && !(ev is Idle)
            &&& next.quit <==> v.quit || ev is Exited
            &&& next.rewinding <==> v.rewinding && !(ev is Rewound)
            &&& (ev matches AppEvent::StateChanged(StateChange::ModeChanged { mode })
                ==> next.state.mode == mode)
            &&& !(ev is StateChanged) ==> next.state.mode == v.state.mode
            &&& next.transcript == v.transcript.after(ev)
            &&& next.pending == v.pending
            &&& next.input.edit == v.input.edit
        }),
{
}

/// A command that the session did not take leaves the interface able to go on: it
/// is not busy with a message that never went out, and a rewind that was not begun
/// is not waited for.
pub proof fn failed_sends_block_nothing(v: UiView, t: Seq<char>)
    ensures
        !commands::is_quiet(t) ==> !v.after_failed_send(CommandView::UserInput(t)).state.busy,
        commands::is_quiet(t) ==> v.after_failed_send(CommandView::UserInput(t)) == v,
        !v.after_failed_send(CommandView::Rewind).rewinding,
        v.after_failed_send(CommandView::Rewind).state == v.state,
        v.after_failed_send(CommandView::Cancel) == v,
        v.after_failed_send(CommandView::UserInput(t)).pending == v.pending,
        v.after_failed_send(CommandView::UserInput(t)).transcript == v.transcript,
{
}

/// Esc closes what is open below the input line before it does anything to the
/// queue or the session.
pub proof fn esc_closes_popups_first(v: UiView, key: KeyEvent)
    requires
        key.code is Esc,
    ensures
        v.is_own_key(key) <==> v.input.overlay() is Closed,
{
}

/// A text put together of three parts is read back as the parts one behind the
/// other, and the cursor stands where a text of the first two alone ends.
pub proof fn parts_read_back(
    v: InputData,
    before: Seq<char>,
    insert: Seq<char>,
    after: Seq<char>,
)
    ensures
        v.with_parts(before, insert, after).edit.text() == before + insert + after,
        v.with_parts(before, insert, after).edit.row == v.with_text(before + insert).edit.row,
        v.with_parts(before, insert, after).edit.col == v.with_text(before + insert).edit.col,
{
    reveal_strlit("\n");
    assert("\n"@ =~= seq!['\n']);
    text::join_undoes_split(before + insert + after, '\n');
    text::lemma_split_goes_on(before + insert, after, '\n');
}

/// What is typed while the session is busy is queued and else submitted, all of it
/// but the whitespace around it; the input line is empty then. A text of nothing
/// but whitespace stays.
pub proof fn enter_hands_the_text_out(v: InputData, key: KeyEvent, busy: bool)
    requires
        key.code is Enter,
        key.modifiers.is_empty(),
        !v.setup.open,
        !v.picker.open,
        !v.slash.open,
        !v.mention.is_open(),
        !commands::is_quiet(text::trimmed(v.edit.text())),
    ensures
        ({
            let t = text::trimmed(v.edit.text());
            let out = v.key_step(key, busy)->Done_0;
            &&& v.key_step(key, busy) is Done
            &&& t.len() > 0 && busy ==> out.result == component::KeyResultView::Action(
                component::ActionView::Queue(t),
            )
            &&& t.len() > 0 && !busy ==> out.result == component::KeyResultView::Action(
                component::ActionView::Submit(t),
            )
            &&& t.len() > 0 ==> out.next.edit == composer::empty_edit()
            &&& t.len() == 0 ==> out.next == v && out.result is Handled
        }),
{
}

/// Alt-Enter breaks the line at the cursor and submits nothing.
pub proof fn alt_enter_breaks_the_line(v: InputData, key: KeyEvent, busy: bool)
    requires
        key.code is Enter,
        key.modifiers.alt,
        !v.setup.open,
        !v.picker.open,
        !v.slash.open,
        !v.mention.is_open(),
    ensures
        v.key_step(key, busy) is Done,
        v.key_step(key, busy)->Done_0.result is Handled,
        v.key_step(key, busy)->Done_0.next.edit == v.edit.broken(),
{
}

/// A command that is taken opens what it is for: `/setup` alone the wizard, `/model`
/// with at most one argument the picker with that filter, and any other command
/// goes to the session as it is.
pub proof fn commands_open_their_popups(v: InputData, t: Seq<char>)
    ensures
        ({
            let out = v.command_step(t);
            let words = commands::command_words(t);
            &&& commands::opens_setup(t) ==> out.next.setup.open && out.result
                == component::KeyResultView::Action(component::ActionView::QuietSubmit(t))
            &&& words.len() == 1 && commands::is_named(words[0], "model"@) && !commands::opens_setup(
                t,
            ) ==> out.next.picker.open && out.next.picker.filter == text::lowered(
                text::trimmed(Seq::empty()),
            ) && out.result == component::KeyResultView::Action(
                component::ActionView::QuietSubmit(t),
            )
            &&& words.len() == 2 && words[1].len() > 0 && commands::is_named(words[0], "model"@)
                ==> out.next.picker.open && out.next.picker.filter == text::lowered(
                text::trimmed(words[1]),
            ) && out.result is Handled
            &&& words.len() > 2 || words.len() == 0 ==> out.result == commands::submission(t)
                && out.next == v.cleared()
        }),
{
}

/// A tick turns the mark of a busy session, and leaves that of an idle one; a reply
/// goes once its time is over. Where nothing moves, a tick changes nothing.
pub proof fn ticks_turn_the_mark(v: UiView, now: u64)
    ensures
        v.state.busy ==> v.ticked(now).state.frame != v.state.frame,
        v.state.busy && v.state.frame < u64::MAX ==> status::spin_char(v.ticked(now).state.frame)
            != status::spin_char(v.state.frame),
        !v.state.busy ==> v.ticked(now).state == v.state,
        v.ticked(now).state.busy == v.state.busy,
        v.ticked(now).status == v.status.expired(now),
        v.ticked(now).transcript == v.transcript,
        v.ticked(now).input == v.input,
        v.ticked(now).pending == v.pending,
        v.state.busy || v.status.replies() ==> v.is_moving(),
        !v.is_moving() ==> v.ticked(now).state == v.state,
{
}

/// The mouse acts on the transcript alone; where a selection was copied, that is
/// told in the status row.
pub proof fn copies_are_told(v: UiView, mouse: MouseEvent, now: u64, clipboard: bool)
    ensures
        ({
            let next = v.after_mouse(mouse, now, clipboard);
            let copied = v.transcript.mouse_answer(mouse, clipboard).1;
            &&& next.transcript == v.transcript.after_mouse(mouse, now, clipboard)
            &&& next.input == v.input
            &&& next.todos == v.todos
            &&& copied ==> next.status.reply == Some("Copied!"@)
            &&& !copied ==> next.status == v.status && next.pending == v.pending && next.state
                == v.state && v.mouse_outbox(mouse, now, clipboard).texts.len() == 0
        }),
{
}

/// Taking the marked command types what its row shows, and a blank, into the input
/// line; nothing is submitted.
pub proof fn marked_commands_are_typed(v: InputData, tab: KeyEvent, busy: bool, i: int)
    requires
        !v.setup.open,
        !v.picker.open,
        v.slash.open,
        v.slash.matches().len() > 0,
        tab.code is Tab,
        0 <= i < v.slash.drawn().len(),
        v.slash.drawn()[i][0].text == "▸ "@,
    ensures
        ({
            let out = v.key_step(tab, busy)->Done_0;
            &&& v.key_step(tab, busy) is Done
            &&& out.next.edit.text() == v.slash.drawn()[i][1].text + " "@
            &&& out.result is Handled
        }),
{
    let enter = KeyEvent {
        code: KeyCode::Enter,
        modifiers: KeyModifiers {
            shift: false,
            control: false,
            alt: false,
            logo: false,
            other: false,
        },
        kind: tab.kind,
    };
    slash_command_popup::the_marked_command_is_taken(v.slash, tab, enter, i);
    let next = InputData { slash: v.slash.after_key(tab), ..v };
    input::set_text_reads_back(next, v.slash.drawn()[i][1].text + " "@);
}

/// Taking the marked file types what its row shows into the input line in place of
/// the mention, and leaves the text around it; nothing is submitted.
pub proof fn marked_files_are_typed(v: InputData, tab: KeyEvent, busy: bool, i: int)
    requires
        !v.setup.open,
        !v.picker.open,
        !v.slash.open,
        v.mention.wf(),
        v.mention.token is Some,
        v.mention.matches.len() > 0,
        tab.code is Tab,
        0 <= i < v.mention.drawn().len(),
        v.mention.drawn()[i][0].text == "▸ "@,
    ensures
        ({
            let out = v.key_step(tab, busy)->Done_0;
            let token = v.mention.token->0;
            let rest = v.mention.text.skip(token.last as int);
            &&& v.key_step(tab, busy) is Done
            &&& out.next.edit.text() == v.mention.text.take(token.first as int)
                + v.mention.drawn()[i][1].text + (if rest.len() > 0 && text::is_white(rest[0]) {
                Seq::empty()
            } else {
                " "@
            }) + rest
            &&& out.result is Handled
        }),
{
    file_mention_popup::the_marked_file_is_taken(v.mention, tab, i);
    let token = v.mention.token->0;
    let before = v.mention.text.take(token.first as int);
    let rest = v.mention.text.skip(token.last as int);
    let shown = v.mention.drawn()[i][1].text;
    let next = InputData { mention: v.mention.after_key(tab), ..v };
    if rest.len() > 0 && text::is_white(rest[0]) {
        parts_read_back(next, before, shown, rest);
        assert(before + shown + Seq::<char>::empty() =~= before + shown);
    } else {
        parts_read_back(next, before, shown + " "@, rest);
        assert(before + (shown + " "@) =~= before + shown + " "@);
    }
}

/// The command that the picker makes goes to the session without a trace in the
/// transcript, and the input line is empty then.
#[verifier::rlimit(60)]
pub proof fn chosen_models_are_submitted(v: InputData, enter: KeyEvent, busy: bool)
    requires
        !v.setup.open,
        v.picker.open,
        v.picker.stage is Effort,
        v.picker.model is Some,
        enter.code is Enter,
        enter.modifiers.is_empty(),
    ensures
        ({
            let out = v.key_step(enter, busy)->Done_0;
            &&& v.key_step(enter, busy) is Done
            &&& out.result == component::KeyResultView::Action(
                component::ActionView::QuietSubmit(v.picker.command()),
            )
            &&& out.next.edit == composer::empty_edit()
            &&& !out.next.picker.open
        }),
{
    let t = v.picker.command();
    let model = v.picker.model->0;
    reveal_strlit("/model ");
    reveal_strlit("model");
    let rest = if v.picker.selected == model_picker::EFFORT_COUNT - 1 {
        model
    } else {
        model + " "@ + model_picker::effort_item(v.picker.selected).0
    };
    assert(t =~= seq!['/'] + "model"@ + seq![' '] + rest);
    commands::commands_go_by_their_first_word("model"@, rest);
    assert((seq!["model"@] + text::words_of(rest))[0] == "model"@);
}

/// What is pasted goes to the cursor of the input line, all of it, where nothing is
/// selected and nothing covers the line.
pub proof fn pasted_text_goes_to_the_cursor(v: InputData, t: Seq<char>)
    requires
        !v.setup.open,
        !v.picker.open,
        v.edit.wf(),
        !v.edit.selecting(),
        !t.contains('\r'),
    ensures
        v.edit.text() == composer::text_before(v.edit) + composer::text_behind(v.edit),
        v.pasted(t).edit.text() == composer::text_before(v.edit) + t + composer::text_behind(
            v.edit,
        ),
        composer::text_before(v.pasted(t).edit) == composer::text_before(v.edit) + t,
{
    text::join_undoes_split(t, '\n');
    composer::inserted_text_goes_to_the_cursor(v.edit, composer::pieces_of(t));
    composer::texts_are_inserted_whole(t);
}

/// The open popup is shown, the wizard before the picker and both before what is
/// typed, and has a row for each of its lines; without one there is none.
pub proof fn popups_have_rows_for_their_lines(v: InputData)
    requires
        v.mention.matches.len() <= list::MAX_LIST_ROWS,
    ensures
        v.overlay_rows() == v.overlay_drawn().len(),
        v.setup.open ==> v.overlay_drawn() == v.setup.drawn(),
        !v.setup.open && v.picker.open ==> v.overlay_drawn() == v.picker.drawn(),
        !v.setup.open && !v.picker.open && v.slash.open ==> v.overlay_drawn() == v.slash.drawn(),
        !v.setup.open && !v.picker.open && !v.slash.open && v.mention.token is Some
            ==> v.overlay_drawn() == v.mention.drawn(),
        v.overlay_rows() == 0 <==> !v.setup.open && !v.picker.open && !v.slash.open
            && v.mention.token is None,
{
}

/// On a screen with room for all, each part has the rows that it takes: the input
/// line between its borders, a row for the messages that wait, one for each task
/// up to six, and those of the popup.
pub proof fn bands_fit_what_they_show(v: UiView, area: Rect)
    requires
        v.todos.len() < 65536,
        input::bordered_rows(v.input.edit.lines, area.width) + 1 + 6 + v.input.overlay_rows()
            + layout::STATUS_H + layout::TRANSCRIPT_MIN <= area.height,
    ensures
        ({
            let r = v.regions(area);
            let tasks = v.todos.len();
            &&& r.input.height == input::bordered_rows(v.input.edit.lines, area.width)
            &&& r.queue is Some <==> v.pending.len() > 0
            &&& r.queue matches Some(q) ==> q.height == 1
            &&& r.todos is Some <==> tasks > 0
            &&& r.todos matches Some(t) ==> t.height == if tasks <= 6 {
                tasks as int
            } else {
                6
            }
            &&& r.overlay is Some <==> v.input.overlay_rows() > 0
            &&& r.overlay matches Some(o) ==> o.height == v.input.overlay_rows()
            &&& r.transcript.y == area.y
            &&& r.transcript.height == area.height - r.input.height - (if v.pending.len() > 0 {
                1int
            } else {
                0
            }) - (if tasks <= 6 {
                tasks as int
            } else {
                6
            }) - v.input.overlay_rows() - r.status.height
        }),
{
}

} // verus!
