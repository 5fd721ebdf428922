//! The plain status row and the reply below it.
use vstd::prelude::*;
use vstd::string::*;

use super::component::State;
use super::event::{AgentEvent, AppEvent};
use crate::components::event;
use crate::components::event::{ReasoningEffort, Usage};
use crate::components::sizing;
use crate::components::sizing::{display_path_with_home, wrap_text};
use crate::components::status;
use crate::components::status::{fit_line, spin_char, style_reply, usage_spans, REPLY_TTL};
use crate::components::theme;
use crate::seqs;
use crate::style::{Line, Span, Style};
use crate::style;
use crate::text;

verus! {

broadcast use crate::seqs::views_push;

/// What the status row says of the keys.
pub open spec fn hint_words(popup: bool, busy: bool) -> Seq<char> {
    if popup {
        "tab fill · enter · esc"@
    } else if busy {
        "esc cancel · enter queue"@
    } else {
        "enter send · alt-enter newline · esc undo"@
    }
}

/// What the status row says of the keys.
pub fn hint(popup: bool, busy: bool) -> (out: &'static str)
    ensures
        out@ == hint_words(popup, busy),
{
    if popup {
        "tab fill · enter · esc"
    } else if busy {
        "esc cancel · enter queue"
    } else {
        "enter send · alt-enter newline · esc undo"
    }
}

/// Single status row below the input: model · root · token usage.
/// An optional reply is drawn on the rows beneath it.
pub struct StatusBar {
    model: String,
    effort: Option<ReasoningEffort>,
    root: String,
    total: Usage,
    reply: Option<String>,
    reply_until: Option<u64>,
}

/// What the status row knows.
#[verifier::ext_equal]
pub struct StatusView {
    pub model: Seq<char>,
    pub effort: Option<ReasoningEffort>,
    pub root: Seq<char>,
    pub total: Usage,
    pub reply: Option<Seq<char>>,
    pub reply_until: Option<u64>,
}

impl View for StatusBar {
    type V = StatusView;

    closed spec fn view(&self) -> StatusView {
        StatusView {
            model: self.model@,
            effort: self.effort,
            root: self.root@,
            total: self.total,
            reply: event::text_view(self.reply),
            reply_until: self.reply_until,
        }
    }
}

impl StatusView {
    /// Whether there is a reply to show.
    pub open spec fn replies(self) -> bool {
        self.reply matches Some(t) && t.len() > 0
    }

    /// The status row without its reply.
    pub open spec fn unreplied(self) -> Self {
        StatusView { reply: None, reply_until: None, ..self }
    }

    /// Whether the time of the reply is over.
    pub open spec fn is_over(self, now: u64) -> bool {
        self.reply_until matches Some(until) && now >= until
    }

    /// The status row after the clock moved on.
    pub open spec fn expired(self, now: u64) -> Self {
        if self.is_over(now) {
            self.unreplied()
        } else {
            self
        }
    }

    /// The status row with another reply.
    pub open spec fn replied(self, t: Seq<char>, now: u64) -> Self {
        StatusView {
            reply: Some(t),
            reply_until: Some(status::later(now, REPLY_TTL)),
            ..self
        }
    }

    /// Rows of the reply at a width.
    pub open spec fn reply_rows(self, width: u16) -> nat {
        if self.replies() {
            sizing::text_lines(self.reply->0, width as nat).len() % 65536
        } else {
            0
        }
    }

    /// The status row after an event of the session.
    pub open spec fn after_event(self, ev: AppEvent, now: u64) -> Self {
        match ev {
            AppEvent::Agent { event } => match event {
                AgentEvent::Done { usage, .. } => StatusView { total: usage, ..self },
                AgentEvent::HistoryCleared => StatusView {
                    total: Usage::zero(),
                    ..self
                }.unreplied(),
                AgentEvent::ModelChanged { model, reasoning_effort } => StatusView {
                    model: model@,
                    effort: reasoning_effort,
                    ..self
                },
                _ => self,
            },
            AppEvent::Notify { text } => self.replied(text@, now),
            AppEvent::Rewound { usage, .. } => StatusView { total: usage, ..self }.unreplied(),
            _ => self,
        }
    }

    /// The left part of the status row.
    pub open spec fn segments(self, busy: bool, spin: u8) -> Seq<style::SpanView> {
        let gray = theme::dim();
        let spinner = if busy {
            seq![
                status::span(seq![spin_char(spin as u64)], theme::accent()),
                status::span(" "@, Style::plain()),
            ]
        } else {
            Seq::empty()
        };
        let effort = match self.effort {
            Some(e) => seq![
                status::span(" · "@, gray),
                status::span("effort "@ + e.word(), theme::effort()),
            ],
            None => Seq::empty(),
        };
        spinner + seq![
            status::span(self.model, theme::model()),
            status::span(" · "@, gray),
            status::span(self.root, theme::path()),
        ] + status::usage_segment(self.total, gray) + effort
    }

    /// The status row at a width.
    pub open spec fn bar(self, width: u16, busy: bool, popup: bool, spin: u8) -> Seq<
        style::SpanView,
    > {
        status::fitted_line(
            self.segments(busy, spin),
            hint_words(popup, busy),
            theme::dim(),
            width as nat,
        )
    }
}

impl StatusBar {
    /// A status row for a model at a root directory. `home` is the home
    /// directory, where it is known.
    pub fn new(model: String, root: &str, home: Option<&str>, total: Usage) -> (bar: Self)
        ensures
            bar@ == (StatusView {
                model: model@,
                effort: None,
                root: match home {
                    Some(home) => sizing::home_path(root@, home@),
                    None => root@,
                },
                total,
                reply: None,
                reply_until: None,
            }),
    {
        let root = match home {
            Some(home) => display_path_with_home(root, home),
            None => root.to_owned(),
        };
        StatusBar { model, effort: None, root, total, reply: None, reply_until: None }
    }

    /// The model that is named.
    pub fn model(&self) -> (out: &str)
        ensures
            out@ == self@.model,
    {
        self.model.as_str()
    }

    /// The reasoning effort that is named.
    pub fn effort(&self) -> (effort: Option<ReasoningEffort>)
        ensures
            effort == self@.effort,
    {
        self.effort
    }

    /// The tokens that were used.
    pub fn total(&self) -> (total: Usage)
        ensures
            total == self@.total,
    {
        self.total
    }

    /// The reply, if there is one.
    pub fn reply(&self) -> (out: Option<String>)
        ensures
            event::text_view(out) == self@.reply,
    {
        event::copy_text(&self.reply)
    }

    /// Whether there is a reply to show.
    pub fn has_reply(&self) -> (yes: bool)
        ensures
            yes == self@.replies(),
    {
        match &self.reply {
            Some(t) => !t.as_str().is_empty(),
            None => false,
        }
    }

    /// Drops the reply once its time is over, and says whether it did.
    pub fn expire_reply(&mut self, now: u64) -> (gone: bool)
        ensures
            gone == old(self)@.is_over(now),
            final(self)@ == old(self)@.expired(now),
    {
        match self.reply_until {
            Some(until) => {
                if now >= until {
                    self.clear_reply();
                    return true;
                }
                false
            },
            None => false,
        }
    }

    /// Rows of the reply at a width.
    pub fn reply_height(&self, width: u16) -> (rows: u16)
        ensures
            rows == self@.reply_rows(width),
    {
        match &self.reply {
            Some(t) => {
                let lines = wrap_text(t.as_str(), width as usize);
                assert(seqs::views(lines@).len() == lines@.len());
                (lines.len() % 65536) as u16
            },
            None => 0,
        }
    }

    /// The lines of the reply at a width.
    pub fn draw_reply(&self, width: u16) -> (out: Vec<Line>)
        ensures
            seqs::views(out@) == (match self@.reply {
                Some(t) => status::reply_lines(sizing::text_lines(t, width as nat)),
                None => Seq::<Seq<style::SpanView>>::empty(),
            }),
    {
        match &self.reply {
            Some(t) => style_reply(&wrap_text(t.as_str(), width as usize)),
            None => {
                let out: Vec<Line> = Vec::new();
                assert(seqs::views(out@) =~= Seq::<Seq<style::SpanView>>::empty());
                out
            },
        }
    }

    /// Drops the reply.
    pub fn clear_reply(&mut self)
        ensures
            final(self)@ == old(self)@.unreplied(),
    {
        self.reply = None;
        self.reply_until = None;
    }

    fn set_reply(&mut self, t: String, now: u64)
        ensures
            final(self)@ == old(self)@.replied(t@, now),
    {
        self.reply = Some(t);
        self.reply_until = Some(now.saturating_add(REPLY_TTL));
    }

    fn segments(&self, busy: bool, spin: u8) -> (line: Line)
        ensures
            line@ == self@.segments(busy, spin),
    {
        let gray = theme::dim();
        let mut spans: Vec<Span> = Vec::new();
        if busy {
            let mut spinner = String::new();
            spinner.push(spin_char(spin as u64));
            assert(spinner@ =~= seq![spin_char(spin as u64)]);
            spans.push(Span::styled(spinner, theme::accent()));
            spans.push(Span::raw(" ".to_owned()));
        }
        spans.push(Span::styled(self.model.clone(), theme::model()));
        spans.push(Span::styled(" · ".to_owned(), gray));
        spans.push(Span::styled(self.root.clone(), theme::path()));
        let mut usage = usage_spans(&self.total, gray);
        let ghost head = spans@;
        let ghost tail = usage@;
        spans.append(&mut usage);
        assert(seqs::views(head + tail) =~= seqs::views(head) + seqs::views(tail));
        if let Some(e) = self.effort {
            spans.push(Span::styled(" · ".to_owned(), gray));
            spans.push(Span::styled(text::concat("effort ", e.name()), theme::effort()));
        }
        let line = Line { spans };
        assert(line@ =~= self@.segments(busy, spin));
        line
    }

    /// The status row at a width. `popup` says that a popup is open, `spin` how
    /// far the spinner turned.
    pub fn draw_bar(&self, width: u16, state: &State, popup: bool, spin: u8) -> (line: Line)
        ensures
            line@ == self@.bar(width, state.busy, popup, spin),
    {
        fit_line(self.segments(state.busy, spin), hint(popup, state.busy), theme::dim(), width)
    }

    /// Takes an event of the session.
    pub fn on_event(&mut self, ev: &AppEvent, state: &mut State, now: u64)
        ensures
            final(self)@ == old(self)@.after_event(*ev, now),
            final(state).busy == (old(state).busy && !(ev is Idle)),
    {
        match ev {
            AppEvent::Agent { event } => match event {
                AgentEvent::Done { usage, .. } => {
                    self.total = *usage;
                },
                AgentEvent::HistoryCleared => {
                    self.total = Usage::zero();
                    self.clear_reply();
                },
                AgentEvent::ModelChanged { model, reasoning_effort } => {
                    self.model = model.clone();
                    self.effort = *reasoning_effort;
                },
                _ => {},
            },
            AppEvent::Idle => {
                state.busy = false;
            },
            AppEvent::Notify { text } => {
                self.set_reply(text.clone(), now);
            },
            AppEvent::Rewound { usage, .. } => {
                self.total = *usage;
                self.clear_reply();
            },
            _ => {},
        }
    }
}

/// A reply stays until its time is over, and no longer.
pub proof fn replies_stay_for_their_time(v: StatusView, t: Seq<char>, now: u64, then: u64)
    requires
        now + REPLY_TTL <= u64::MAX,
    ensures
        then < now + REPLY_TTL ==> v.replied(t, now).expired(then) == v.replied(t, now),
        then >= now + REPLY_TTL ==> v.replied(t, now).expired(then) == v.unreplied(),
{
}

/// The row follows the session: the tokens of a turn once it is done or rewound,
/// none once the history is cleared, the model and its effort when they change, and
/// what it is told is replied.
pub proof fn the_status_row_follows(v: StatusView, ev: AppEvent, now: u64)
    ensures
        ({
            let next = v.after_event(ev, now);
            &&& (ev matches AppEvent::Agent { event: AgentEvent::Done { usage, .. } } ==> next.total
                == usage && next.reply == v.reply)
            &&& (ev matches AppEvent::Agent { event: AgentEvent::HistoryCleared } ==> next.total
                == Usage::zero() && next.reply is None)
            &&& (ev matches AppEvent::Agent {
                event: AgentEvent::ModelChanged { model, reasoning_effort },
            } ==> next.model == model@ && next.effort == reasoning_effort)
            &&& (ev matches AppEvent::Notify { text } ==> next.reply == Some(text@) && next.total
                == v.total)
            &&& (ev matches AppEvent::Rewound { usage, .. } ==> next.total == usage
                && next.reply is None)
            &&& !(ev is Agent) ==> next.model == v.model && next.effort == v.effort
            &&& next.root == v.root
        }),
{
}

proof fn lemma_push_text(line: Seq<style::SpanView>, t: Seq<char>, s: Style)
    ensures
        style::line_text(line.push(status::span(t, s))) == style::line_text(line) + t,
{
    assert(line.push(status::span(t, s)).drop_last() =~= line);
}

/// The status row tells, in this order: a turning mark while the session is busy,
/// the model, the directory, the tokens used where any were, and the effort where
/// there is one.
pub proof fn the_status_row_tells(v: StatusView, busy: bool, spin: u8)
    ensures
        style::line_text(v.segments(busy, spin)) == (if busy {
            seq![spin_char(spin as u64)] + " "@
        } else {
            Seq::empty()
        }) + v.model + " · "@ + v.root + (if v.total == Usage::zero() {
            Seq::empty()
        } else {
            " · "@ + sizing::usage_text(v.total)
        }) + (match v.effort {
            Some(e) => " · "@ + ("effort "@ + e.word()),
            None => Seq::empty(),
        }),
{
    let gray = theme::dim();
    let none = Seq::<style::SpanView>::empty();
    let spinner = if busy {
        seq![
            status::span(seq![spin_char(spin as u64)], theme::accent()),
            status::span(" "@, Style::plain()),
        ]
    } else {
        none
    };
    let spin_text = if busy {
        seq![spin_char(spin as u64)] + " "@
    } else {
        Seq::<char>::empty()
    };
    if busy {
        let mark = none.push(status::span(seq![spin_char(spin as u64)], theme::accent()));
        lemma_push_text(none, seq![spin_char(spin as u64)], theme::accent());
        lemma_push_text(mark, " "@, Style::plain());
        assert(spinner =~= mark.push(status::span(" "@, Style::plain())));
        assert(style::line_text(spinner) =~= spin_text);
    }
    let a = spinner.push(status::span(v.model, theme::model()));
    lemma_push_text(spinner, v.model, theme::model());
    let b = a.push(status::span(" · "@, gray));
    lemma_push_text(a, " · "@, gray);
    let c = b.push(status::span(v.root, theme::path()));
    lemma_push_text(b, v.root, theme::path());
    let usage = sizing::usage_text(v.total);
    let d = if v.total == Usage::zero() {
        c
    } else {
        c.push(status::span(" · "@, gray)).push(status::span(usage, gray))
    };
    let usage_part = if v.total == Usage::zero() {
        Seq::<char>::empty()
    } else {
        " · "@ + usage
    };
    lemma_push_text(c, " · "@, gray);
    lemma_push_text(c.push(status::span(" · "@, gray)), usage, gray);
    assert(style::line_text(d) =~= style::line_text(c) + usage_part);
    match v.effort {
        Some(e) => {
            let word = "effort "@ + e.word();
            let f = d.push(status::span(" · "@, gray));
            lemma_push_text(d, " · "@, gray);
            lemma_push_text(f, word, theme::effort());
            assert(v.segments(busy, spin) =~= f.push(status::span(word, theme::effort())));
            assert(style::line_text(d) + " · "@ + word =~= style::line_text(d) + (" · "@ + word));
        },
        None => {
            assert(v.segments(busy, spin) =~= d);
            assert(style::line_text(d) + Seq::<char>::empty() =~= style::line_text(d));
        },
    }
}

} // verus!
