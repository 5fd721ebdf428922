//! The status row and the short replies above it.
use vstd::prelude::*;
use vstd::string::*;

use super::component::State;
use super::event;
use super::event::{AgentEvent, AgentMode, AppEvent, ReasoningEffort, StateChange, Usage};
use super::sizing;
use super::sizing::{display_path_with_home, format_usage, truncate_line, wrap_text};
use super::theme;
use super::transcript::wrap;
use crate::seqs;
use crate::style::{Line, Rect, Span, Style};
use crate::style;
use crate::text;
use crate::width;

verus! {

broadcast use crate::seqs::views_push;

/// How long a reply stays, in milliseconds.
pub const REPLY_TTL: u64 = 3000;

/// How long a reply that replaces another is hidden first, in milliseconds.
pub const REPLY_FLASH: u64 = 150;

/// Columns that a reply takes at most.
pub const MAX_REPLY_COLS: u16 = 60;

/// What the keys do at the moment.
#[derive(Clone, Copy, Debug, PartialEq, Eq, Structural)]
pub enum StatusHint {
    Idle,
    Busy,
    Slash,
    Modal,
}

impl StatusHint {
    /// The words of a hint.
    pub open spec fn words(self) -> Seq<char> {
        match self {
            StatusHint::Slash => "tab fill · enter · esc"@,
            StatusHint::Modal => "enter · esc"@,
            StatusHint::Busy => "shift-tab mode · esc cancel · enter queue"@,
            StatusHint::Idle => "shift-tab mode · enter send · alt-enter newline · esc undo"@,
        }
    }

    /// The words of a hint.
    pub fn text(self) -> (out: &'static str)
        ensures
            out@ == self.words(),
    {
        match self {
            StatusHint::Slash => "tab fill · enter · esc",
            StatusHint::Modal => "enter · esc",
            StatusHint::Busy => "shift-tab mode · esc cancel · enter queue",
            StatusHint::Idle => "shift-tab mode · enter send · alt-enter newline · esc undo",
        }
    }
}

/// A frame of the spinner.
#[verifier::allow_in_spec]
pub fn spin_char(frame: u64) -> char
    returns
        (if frame % 10 == 0 {
            '⠋'
        } else if frame % 10 == 1 {
            '⠙'
        } else if frame % 10 == 2 {
            '⠹'
        } else if frame % 10 == 3 {
            '⠸'
        } else if frame % 10 == 4 {
            '⠼'
        } else if frame % 10 == 5 {
            '⠴'
        } else if frame % 10 == 6 {
            '⠦'
        } else if frame % 10 == 7 {
            '⠧'
        } else if frame % 10 == 8 {
            '⠇'
        } else {
            '⠏'
        }),
{
    if frame % 10 == 0 {
        '⠋'
    } else if frame % 10 == 1 {
        '⠙'
    } else if frame % 10 == 2 {
        '⠹'
    } else if frame % 10 == 3 {
        '⠸'
    } else if frame % 10 == 4 {
        '⠼'
    } else if frame % 10 == 5 {
        '⠴'
    } else if frame % 10 == 6 {
        '⠦'
    } else if frame % 10 == 7 {
        '⠧'
    } else if frame % 10 == 8 {
        '⠇'
    } else {
        '⠏'
    }
}

/// A span of a text in a style.
pub open spec fn span(t: Seq<char>, s: Style) -> style::SpanView {
    style::SpanView { text: t, style: s }
}

/// The token-usage segment of the status row: empty while nothing has been
/// recorded, otherwise a separator and the last turn.
pub open spec fn usage_segment(total: Usage, gray: Style) -> Seq<style::SpanView> {
    if total == Usage::zero() {
        Seq::empty()
    } else {
        seq![span(" · "@, gray), span(sizing::usage_text(total), gray)]
    }
}

/// Token-usage segment of the status row: empty while nothing has been
/// recorded (all-zero `Usage`), otherwise a separator plus the last turn.
pub fn usage_spans(total: &Usage, gray: Style) -> (out: Vec<Span>)
    ensures
        seqs::views(out@) == usage_segment(*total, gray),
{
    if total.input_tokens == 0 && total.output_tokens == 0 && total.cache_read_tokens == 0
        && total.reasoning_tokens == 0 {
        let out: Vec<Span> = Vec::new();
        assert(seqs::views(out@) =~= usage_segment(*total, gray));
        return out;
    }
    let out = vec![
        Span::styled(" · ".to_owned(), gray),
        Span::styled(format_usage(total), gray),
    ];
    assert(seqs::views(out@) =~= usage_segment(*total, gray));
    out
}

/// A line with a hint at its right end where both fit, else as much of the
/// line as fits.
pub open spec fn fitted_line(
    left: Seq<style::SpanView>,
    hint: Seq<char>,
    gray: Style,
    max: nat,
) -> Seq<style::SpanView> {
    let hint_w = width::cols(hint) as nat;
    let left_w = wrap::line_cols(left);
    if hint_w + 1 < max && left_w + 1 + hint_w <= max {
        left.push(
            span(text::run_of(' ', (max - left_w - hint_w) as nat), Style::plain()),
        ).push(span(hint, gray))
    } else {
        sizing::cut_line(left, wrap::less(max, 1)).spans
    }
}

/// Puts a hint at the right end of a line where both fit, else cuts the line.
pub fn fit_line(left: Line, hint: &str, gray: Style, max: u16) -> (line: Line)
    ensures
        line@ == fitted_line(left@, hint@, gray, max as nat),
{
    let max: usize = max as usize;
    let hint_w: usize = width::str_width(hint);
    let left_w: usize = wrap::line_display_width(&left);
    if hint_w < max && hint_w + 1 < max && left_w < max && left_w + 1 <= max - hint_w {
        let pad: usize = max - left_w - hint_w;
        let ghost before = left@;
        let mut left = left;
        left.spans.push(Span::raw(text::spaces(pad)));
        left.spans.push(Span::styled(hint.to_owned(), gray));
        assert(left@ =~= fitted_line(before, hint@, gray, max as nat));
        left
    } else {
        truncate_line(&left, max.saturating_sub(1))
    }
}

/// The greatest width of lines, as the terminal counts columns.
pub open spec fn widest(lines: Seq<Seq<char>>) -> nat
    decreases lines.len(),
{
    if lines.len() == 0 {
        0
    } else {
        let w = (width::cols(lines.last()) % 65536) as nat;
        if w > widest(lines.drop_last()) {
            w
        } else {
            widest(lines.drop_last())
        }
    }
}

fn find_widest(lines: &Vec<String>) -> (w: u16)
    ensures
        w == widest(seqs::views(lines@)),
{
    let ghost all = seqs::views(lines@);
    let mut best: u16 = 0;
    let mut i: usize = 0;
    assert(all.take(0) =~= Seq::<Seq<char>>::empty());
    while i < lines.len()
        invariant
            i <= lines@.len(),
            all == seqs::views(lines@),
            best == widest(all.take(i as int)),
        decreases lines.len() - i,
    {
        proof {
            let now = all.take(i + 1);
            assert(now.drop_last() =~= all.take(i as int));
            assert(now.last() == lines@[i as int]@);
        }
        let w: u16 = (width::str_width(lines[i].as_str()) % 65536) as u16;
        if w > best {
            best = w;
        }
        i += 1;
    }
    assert(all.take(all.len() as int) =~= all);
    best
}

/// The smaller of two numbers.
pub open spec fn smaller(a: nat, b: nat) -> nat {
    if a <= b {
        a
    } else {
        b
    }
}

/// A sum, no further than the last cell of the terminal.
pub open spec fn cell_sum(a: nat, b: nat) -> nat {
    smaller(a + b, u16::MAX as nat)
}

/// A box at the lower right of an area for lines of a text.
pub open spec fn toast_rect(area: Rect, lines: Seq<Seq<char>>) -> Rect {
    let max = smaller(area.width as nat, MAX_REPLY_COLS as nat);
    let w = smaller(cell_sum(widest(lines), 4), max);
    let h = smaller(lines.len() + 2, area.height as nat);
    Rect {
        x: wrap::less(cell_sum(area.x as nat, area.width as nat), w + 1) as u16,
        y: wrap::less(cell_sum(area.y as nat, area.height as nat), cell_sum(h, 1)) as u16,
        width: w as u16,
        height: h as u16,
    }
}

/// A reply as it is drawn: a box, and the lines in it, none while the box
/// flashes.
#[derive(Debug)]
pub struct Toast {
    pub area: Rect,
    pub lines: Vec<Line>,
    pub bordered: bool,
}

/// A reply as it is drawn.
#[verifier::ext_equal]
pub struct ToastView {
    pub area: Rect,
    pub lines: Seq<Seq<style::SpanView>>,
    pub bordered: bool,
}

impl View for Toast {
    type V = ToastView;

    open spec fn view(&self) -> ToastView {
        ToastView { area: self.area, lines: seqs::views(self.lines@), bordered: self.bordered }
    }
}

/// The lines of a reply.
pub open spec fn reply_lines(lines: Seq<Seq<char>>) -> Seq<Seq<style::SpanView>> {
    Seq::new(lines.len(), |i: int| seq![span(lines[i], theme::reply())])
}

/// Lines in the style of a reply.
pub fn style_reply(lines: &Vec<String>) -> (out: Vec<Line>)
    ensures
        seqs::views(out@) == reply_lines(seqs::views(lines@)),
{
    let ghost all = reply_lines(seqs::views(lines@));
    let mut out: Vec<Line> = Vec::new();
    let mut i: usize = 0;
    assert(seqs::views(out@) =~= all.take(0));
    while i < lines.len()
        invariant
            i <= lines@.len() == all.len(),
            all == reply_lines(seqs::views(lines@)),
            seqs::views(out@) == all.take(i as int),
        decreases lines.len() - i,
    {
        let line = Line::of(lines[i].clone(), theme::reply());
        proof {
            assert(line@ =~= all[i as int]);
            assert(all.take(i + 1) =~= all.take(i as int).push(all[i as int]));
        }
        out.push(line);
        i += 1;
    }
    assert(all.take(all.len() as int) =~= all);
    out
}

/// Single status row below the input: model [effort] · mode · root · usage.
/// An optional reply is drawn above it.
pub struct StatusBar {
    model: String,
    effort: Option<ReasoningEffort>,
    root: String,
    usage: Usage,
    reply: Option<String>,
    reply_until: Option<u64>,
    flash_until: Option<u64>,
}

/// What the status row knows.
#[verifier::ext_equal]
pub struct StatusView {
    pub model: Seq<char>,
    pub effort: Option<ReasoningEffort>,
    pub root: Seq<char>,
    pub usage: Usage,
    pub reply: Option<Seq<char>>,
    pub reply_until: Option<u64>,
    pub flash_until: Option<u64>,
}

impl View for StatusBar {
    type V = StatusView;

    closed spec fn view(&self) -> StatusView {
        StatusView {
            model: self.model@,
            effort: self.effort,
            root: self.root@,
            usage: self.usage,
            reply: event::text_view(self.reply),
            reply_until: self.reply_until,
            flash_until: self.flash_until,
        }
    }
}

/// A moment `ms` after another, or the last moment there is.
pub open spec fn later(now: u64, ms: u64) -> u64 {
    if now + ms <= u64::MAX {
        (now + ms) as u64
    } else {
        u64::MAX
    }
}

impl StatusView {
    /// Whether there is a reply to show.
    pub open spec fn replies(self) -> bool {
        self.reply matches Some(t) && t.len() > 0
    }

    /// The status row without its reply.
    pub open spec fn unreplied(self) -> Self {
        StatusView { reply: None, reply_until: None, flash_until: None, ..self }
    }

    /// Whether the time of the reply is over.
    pub open spec fn is_over(self, now: u64) -> bool {
        self.reply_until matches Some(until) && now >= until
    }

    /// The status row after the clock moved on.
    pub open spec fn expired(self, now: u64) -> Self {
        if self.is_over(now) {
            self.unreplied()
        } else {
            StatusView {
                flash_until: if self.flash_until matches Some(until) && now >= until {
                    None
                } else {
                    self.flash_until
                },
                ..self
            }
        }
    }

    /// The status row with another reply; one that replaces another flashes.
    pub open spec fn replied(self, t: Seq<char>, now: u64) -> Self {
        StatusView {
            reply: Some(t),
            reply_until: Some(later(now, REPLY_TTL)),
            flash_until: if self.replies() {
                Some(later(now, REPLY_FLASH))
            } else {
                None
            },
            ..self
        }
    }

    /// Whether the reply is hidden for a moment.
    pub open spec fn flashes(self, now: u64) -> bool {
        self.flash_until matches Some(until) && now < until
    }

    /// The status row after an event of the session.
    pub open spec fn after_event(self, ev: AppEvent, now: u64) -> Self {
        match ev {
            AppEvent::Agent(AgentEvent::Completed { usage }) => StatusView { usage, ..self },
            AppEvent::StateChanged(StateChange::UsageChanged { usage }) => StatusView {
                usage,
                ..self
            }.unreplied(),
            AppEvent::StateChanged(StateChange::HistoryChanged) => self.unreplied(),
            AppEvent::StateChanged(StateChange::ModelChanged { model, reasoning_effort }) =>
                StatusView { model: model@, effort: reasoning_effort, ..self },
            AppEvent::Notification { text } => self.replied(text@, now),
            _ => self,
        }
    }

    /// The left part of the status row.
    pub open spec fn segments(self, state: State) -> Seq<style::SpanView> {
        let gray = theme::dim();
        let spin = if state.busy {
            seq![span(seq![spin_char(state.frame)], theme::accent()), span(" "@, Style::plain())]
        } else {
            Seq::empty()
        };
        let effort = match self.effort {
            Some(e) => seq![span(" "@ + e.word(), theme::model())],
            None => Seq::empty(),
        };
        spin + seq![span(self.model, theme::model())] + effort + seq![
            span(" · "@, gray),
            span(
                state.mode.label_text(),
                if state.mode is Plan {
                    theme::mode()
                } else {
                    gray
                },
            ),
            span(" · "@, gray),
            span(self.root, theme::path()),
        ] + usage_segment(self.usage, gray)
    }

    /// The status row at a width.
    pub open spec fn bar(self, width: u16, state: State, hint: StatusHint) -> Seq<
        style::SpanView,
    > {
        fitted_line(self.segments(state), hint.words(), theme::dim(), width as nat)
    }

    /// The reply in an area: none without a reply or where the area is too
    /// small.
    pub open spec fn toast(self, area: Rect, now: u64) -> Option<ToastView> {
        if !self.replies() || area.width < 8 || area.height < 3 {
            None
        } else {
            let inner = (smaller(area.width as nat, MAX_REPLY_COLS as nat) - 4) as nat;
            let lines = sizing::text_lines(self.reply->0, inner);
            if lines.len() == 0 {
                None
            } else {
                Some(
                    ToastView {
                        area: toast_rect(area, lines),
                        lines: if self.flashes(now) {
                            Seq::empty()
                        } else {
                            reply_lines(lines)
                        },
                        bordered: !self.flashes(now),
                    },
                )
            }
        }
    }
}

impl StatusBar {
    /// A status row for a model at a root directory. `home` is the home
    /// directory, where it is known.
    pub fn new(model: String, root: &str, home: Option<&str>, usage: Usage) -> (bar: Self)
        ensures
            bar@ == (StatusView {
                model: model@,
                effort: None,
                root: match home {
                    Some(home) => sizing::home_path(root@, home@),
                    None => root@,
                },
                usage,
                reply: None,
                reply_until: None,
                flash_until: None,
            }),
    {
        let root = match home {
            Some(home) => display_path_with_home(root, home),
            None => root.to_owned(),
        };
        StatusBar {
            model,
            effort: None,
            root,
            usage,
            reply: None,
            reply_until: None,
            flash_until: None,
        }
    }

    /// The status row with a reasoning effort.
    pub fn with_effort(self, effort: Option<ReasoningEffort>) -> (bar: Self)
        ensures
            bar@ == (StatusView { effort, ..self@ }),
    {
        StatusBar {
            model: self.model,
            effort,
            root: self.root,
            usage: self.usage,
            reply: self.reply,
            reply_until: self.reply_until,
            flash_until: self.flash_until,
        }
    }

    /// The model that is named.
    pub fn model(&self) -> (out: &str)
        ensures
            out@ == self@.model,
    {
        self.model.as_str()
    }

    /// The reasoning effort that is named.
    pub fn effort(&self) -> (effort: Option<ReasoningEffort>)
        ensures
            effort == self@.effort,
    {
        self.effort
    }

    /// The tokens of the last turn.
    pub fn usage(&self) -> (usage: Usage)
        ensures
            usage == self@.usage,
    {
        self.usage
    }

    /// The reply, if there is one.
    pub fn reply(&self) -> (out: Option<String>)
        ensures
            event::text_view(out) == self@.reply,
    {
        event::copy_text(&self.reply)
    }

    /// Whether there is a reply to show.
    pub fn has_reply(&self) -> (yes: bool)
        ensures
            yes == self@.replies(),
    {
        match &self.reply {
            Some(t) => !t.as_str().is_empty(),
            None => false,
        }
    }

    /// Drops the reply once its time is over, and says whether it did.
    pub fn expire_reply(&mut self, now: u64) -> (gone: bool)
        ensures
            gone == old(self)@.is_over(now),
            final(self)@ == old(self)@.expired(now),
    {
        if let Some(until) = self.flash_until {
            if now >= until {
                self.flash_until = None;
            }
        }
        match self.reply_until {
            Some(until) => {
                if now >= until {
                    self.clear_reply();
                    return true;
                }
                false
            },
            None => false,
        }
    }

    /// Drops the reply.
    pub fn clear_reply(&mut self)
        ensures
            final(self)@ == old(self)@.unreplied(),
    {
        self.reply = None;
        self.reply_until = None;
        self.flash_until = None;
    }

    fn set_reply(&mut self, t: String, now: u64)
        ensures
            final(self)@ == old(self)@.replied(t@, now),
    {
        let flash = self.has_reply();
        self.reply = Some(t);
        self.reply_until = Some(now.saturating_add(REPLY_TTL));
        self.flash_until = if flash {
            Some(now.saturating_add(REPLY_FLASH))
        } else {
            None
        };
    }

    /// Whether the reply is hidden for a moment.
    pub fn is_flashing(&self, now: u64) -> (yes: bool)
        ensures
            yes == self@.flashes(now),
    {
        match self.flash_until {
            Some(until) => now < until,
            None => false,
        }
    }

    /// The reply as it is drawn in an area.
    pub fn draw_reply_overlay(&self, area: Rect, now: u64) -> (toast: Option<Toast>)
        ensures
            match toast {
                Some(t) => self@.toast(area, now) == Some(t@),
                None => self@.toast(area, now) is None,
            },
    {
        let t = match &self.reply {
            Some(t) => t,
            None => {
                return None;
            },
        };
        if t.as_str().is_empty() || area.width < 8 || area.height < 3 {
            return None;
        }
        let max: u16 = if area.width <= MAX_REPLY_COLS {
            area.width
        } else {
            MAX_REPLY_COLS
        };
        let lines = wrap_text(t.as_str(), (max - 4) as usize);
        if lines.len() == 0 {
            return None;
        }
        let full: u16 = find_widest(&lines).saturating_add(4);
        let w: u16 = if full <= max {
            full
        } else {
            max
        };
        let h: u16 = if lines.len() < area.height as usize && lines.len() + 2
            <= area.height as usize {
            (lines.len() + 2) as u16
        } else {
            area.height
        };
        let place = Rect {
            x: area.x.saturating_add(area.width).saturating_sub(w + 1),
            y: area.y.saturating_add(area.height).saturating_sub(h.saturating_add(1)),
            width: w,
            height: h,
        };
        assert(place == toast_rect(area, seqs::views(lines@)));
        let flashing = self.is_flashing(now);
        let shown = if flashing {
            let none: Vec<Line> = Vec::new();
            assert(seqs::views(none@) =~= Seq::<Seq<style::SpanView>>::empty());
            none
        } else {
            style_reply(&lines)
        };
        Some(Toast { area: place, lines: shown, bordered: !flashing })
    }

    fn segments(&self, state: &State) -> (line: Line)
        ensures
            line@ == self@.segments(*state),
    {
        let gray = theme::dim();
        let mut spans: Vec<Span> = Vec::new();
        if state.busy {
            let mut spin = String::new();
            spin.push(spin_char(state.frame));
            assert(spin@ =~= seq![spin_char(state.frame)]);
            spans.push(Span::styled(spin, theme::accent()));
            spans.push(Span::raw(" ".to_owned()));
        }
        spans.push(Span::styled(self.model.clone(), theme::model()));
        if let Some(e) = self.effort {
            spans.push(Span::styled(text::concat(" ", e.name()), theme::model()));
        }
        spans.push(Span::styled(" · ".to_owned(), gray));
        let mode_style = match state.mode {
            AgentMode::Default => gray,
            AgentMode::Plan => theme::mode(),
        };
        spans.push(Span::styled(state.mode.label().to_owned(), mode_style));
        spans.push(Span::styled(" · ".to_owned(), gray));
        spans.push(Span::styled(self.root.clone(), theme::path()));
        let mut usage = usage_spans(&self.usage, gray);
        let ghost head = spans@;
        let ghost tail = usage@;
        spans.append(&mut usage);
        assert(seqs::views(head + tail) =~= seqs::views(head) + seqs::views(tail));
        let line = Line { spans };
        assert(line@ =~= self@.segments(*state));
        line
    }

    /// The status row at a width.
    pub fn draw_bar(&self, width: u16, state: &State, hint: StatusHint) -> (line: Line)
        ensures
            line@ == self@.bar(width, *state, hint),
    {
        fit_line(self.segments(state), hint.text(), theme::dim(), width)
    }

    /// Takes an event of the session.
    pub fn on_event(&mut self, ev: &AppEvent, now: u64)
        ensures
            final(self)@ == old(self)@.after_event(*ev, now),
    {
        match ev {
            AppEvent::Agent(AgentEvent::Completed { usage }) => {
                self.usage = *usage;
            },
            AppEvent::StateChanged(change) => match change {
                StateChange::UsageChanged { usage } => {
                    self.usage = *usage;
                    self.clear_reply();
                },
                StateChange::HistoryChanged => {
                    self.clear_reply();
                },
                StateChange::ModelChanged { model, reasoning_effort } => {
                    self.model = model.clone();
                    self.effort = *reasoning_effort;
                },
                _ => {},
            },
            AppEvent::Notification { text } => {
                self.set_reply(text.clone(), now);
            },
            _ => {},
        }
    }
}

/// A reply stays until its time is over, and no longer: a clock that has not
/// reached it changes nothing of the reply, one that has drops it.
pub proof fn replies_stay_for_their_time(v: StatusView, t: Seq<char>, now: u64, then: u64)
    requires
        now + REPLY_TTL <= u64::MAX,
    ensures
        then < now + REPLY_TTL ==> v.replied(t, now).expired(then).reply == Some(t),
        then >= now + REPLY_TTL ==> v.replied(t, now).expired(then).reply is None,
{
}

/// A reply is no larger than the area it is drawn in, and ends inside it.
pub proof fn replies_stay_inside(v: StatusView, area: Rect, now: u64)
    requires
        v.toast(area, now) is Some,
        area.x + area.width <= u16::MAX,
        area.y + area.height <= u16::MAX,
    ensures
        ({
            let r = v.toast(area, now)->0.area;
            &&& r.width <= area.width && r.height <= area.height
            &&& r.x + r.width <= area.x + area.width
            &&& r.y + r.height <= area.y + area.height
        }),
{
}

/// The texts of spans one behind the other.
proof fn lemma_span_text(t: Seq<char>, s: Style)
    ensures
        style::line_text(seq![span(t, s)]) == t,
{
    let line = seq![span(t, s)];
    assert(line.drop_last() =~= Seq::<style::SpanView>::empty());
    reveal_with_fuel(style::line_text, 2);
    assert(style::line_text(line) =~= t);
}

proof fn lemma_push_text(line: Seq<style::SpanView>, t: Seq<char>, s: Style)
    ensures
        style::line_text(line.push(span(t, s))) == style::line_text(line) + t,
{
    assert(line.push(span(t, s)).drop_last() =~= line);
}

/// The status row tells, in this order: a turning mark while the session is busy,
/// the model and its effort, the mode, the directory, and the tokens used where
/// any were.
pub proof fn the_status_row_tells(v: StatusView, state: State)
    ensures
        style::line_text(v.segments(state)) == (if state.busy {
            seq![spin_char(state.frame)] + " "@
        } else {
            Seq::empty()
        }) + v.model + (match v.effort {
            Some(e) => " "@ + e.word(),
            None => Seq::empty(),
        }) + " · "@ + state.mode.label_text() + " · "@ + v.root + (if v.usage == Usage::zero() {
            Seq::empty()
        } else {
            " · "@ + sizing::usage_text(v.usage)
        }),
{
    let gray = theme::dim();
    let none = Seq::<style::SpanView>::empty();
    let spin = if state.busy {
        seq![span(seq![spin_char(state.frame)], theme::accent()), span(" "@, Style::plain())]
    } else {
        none
    };
    let spin_text = if state.busy {
        seq![spin_char(state.frame)] + " "@
    } else {
        Seq::<char>::empty()
    };
    if state.busy {
        let mark = seq![span(seq![spin_char(state.frame)], theme::accent())];
        lemma_span_text(seq![spin_char(state.frame)], theme::accent());
        lemma_push_text(mark, " "@, Style::plain());
        assert(spin =~= mark.push(span(" "@, Style::plain())));
    }
    assert(style::line_text(spin) == spin_text);
    let a = spin.push(span(v.model, theme::model()));
    lemma_push_text(spin, v.model, theme::model());
    let b = match v.effort {
        Some(e) => a.push(span(" "@ + e.word(), theme::model())),
        None => a,
    };
    let effort_text = match v.effort {
        Some(e) => " "@ + e.word(),
        None => Seq::<char>::empty(),
    };
    match v.effort {
        Some(e) => {
            lemma_push_text(a, " "@ + e.word(), theme::model());
        },
        None => {
            assert(style::line_text(a) + effort_text =~= style::line_text(a));
        },
    }
    let mode_style = if state.mode is Plan {
        theme::mode()
    } else {
        gray
    };
    let c = b.push(span(" · "@, gray));
    lemma_push_text(b, " · "@, gray);
    let d = c.push(span(state.mode.label_text(), mode_style));
    lemma_push_text(c, state.mode.label_text(), mode_style);
    let e = d.push(span(" · "@, gray));
    lemma_push_text(d, " · "@, gray);
    let f = e.push(span(v.root, theme::path()));
    lemma_push_text(e, v.root, theme::path());
    if v.usage == Usage::zero() {
        assert(v.segments(state) =~= f);
        assert(style::line_text(f) + Seq::<char>::empty() =~= style::line_text(f));
    } else {
        let g = f.push(span(" · "@, gray));
        lemma_push_text(f, " · "@, gray);
        lemma_push_text(g, sizing::usage_text(v.usage), gray);
        assert(v.segments(state) =~= g.push(span(sizing::usage_text(v.usage), gray)));
        assert(style::line_text(f) + " · "@ + sizing::usage_text(v.usage) =~= style::line_text(f)
            + (" · "@ + sizing::usage_text(v.usage)));
    }
}

/// Where both fit, the hint stands at the right end of the row, behind what the row
/// tells and at least one blank, and the row is filled; else the hint is left out.
pub proof fn hints_stand_at_the_right(
    left: Seq<style::SpanView>,
    hint: Seq<char>,
    gray: Style,
    max: nat,
)
    requires
        width::cols(hint) + 1 < max,
        wrap::line_cols(left) + 1 + width::cols(hint) <= max,
    ensures
        ({
            let line = fitted_line(left, hint, gray, max);
            let pad = max - wrap::line_cols(left) - width::cols(hint);
            &&& pad >= 1
            &&& line.take(left.len() as int) == left
            &&& line.last().text == hint
            &&& style::line_text(line) == style::line_text(left) + text::run_of(' ', pad as nat)
                + hint
        }),
{
    let pad = (max - wrap::line_cols(left) - width::cols(hint)) as nat;
    let blank = text::run_of(' ', pad);
    lemma_push_text(left, blank, Style::plain());
    lemma_push_text(left.push(span(blank, Style::plain())), hint, gray);
    assert(fitted_line(left, hint, gray, max).take(left.len() as int) =~= left);
}

/// The row follows the session: the tokens of a turn once it is completed or they
/// are told, the model and its effort when they change, and what it is told is
/// replied. Nothing else changes what it tells.
pub proof fn the_status_row_follows(v: StatusView, ev: AppEvent, now: u64)
    ensures
        ({
            let next = v.after_event(ev, now);
            &&& (ev matches AppEvent::Agent(AgentEvent::Completed { usage }) ==> next.usage == usage
                && next.reply == v.reply)
            &&& (ev matches AppEvent::StateChanged(StateChange::UsageChanged { usage })
                ==> next.usage == usage && next.reply is None)
            &&& (ev matches AppEvent::StateChanged(
                StateChange::ModelChanged { model, reasoning_effort },
            ) ==> next.model == model@ && next.effort == reasoning_effort && next.usage == v.usage)
            &&& (ev matches AppEvent::Notification { text } ==> next.reply == Some(text@)
                && next.usage == v.usage && next.model == v.model)
            &&& !(ev is StateChanged) ==> next.model == v.model && next.effort == v.effort
            &&& next.root == v.root
        }),
{
}

/// A reply is drawn whole, broken to the width of its box, and not at all for a
/// moment where it replaces another.
pub proof fn replies_are_drawn_whole(v: StatusView, area: Rect, now: u64)
    requires
        v.toast(area, now) is Some,
    ensures
        ({
            let toast = v.toast(area, now)->0;
            let shown = Seq::new(toast.lines.len(), |i: int| style::line_text(toast.lines[i]));
            &&& !v.flashes(now) ==> wrap::concatenated(shown) == wrap::concatenated(
                text::lines_of(v.reply->0),
            )
            &&& v.flashes(now) ==> toast.lines.len() == 0 && !toast.bordered
        }),
{
    let toast = v.toast(area, now)->0;
    let inner = (smaller(area.width as nat, MAX_REPLY_COLS as nat) - 4) as nat;
    let lines = sizing::text_lines(v.reply->0, inner);
    let shown = Seq::new(toast.lines.len(), |i: int| style::line_text(toast.lines[i]));
    if !v.flashes(now) {
        assert forall|i: int| 0 <= i < lines.len() implies #[trigger] shown[i] == lines[i] by {
            lemma_span_text(lines[i], theme::reply());
        }
        assert(shown =~= lines);
        sizing::broken_texts_fit(v.reply->0, inner);
    }
}

/// A reply stands at the lower right of its area, one cell from either edge.
pub proof fn replies_stand_at_the_lower_right(v: StatusView, area: Rect, now: u64)
    requires
        v.toast(area, now) is Some,
        area.x + area.width < u16::MAX,
        area.y + area.height < u16::MAX,
    ensures
        ({
            let r = v.toast(area, now)->0.area;
            &&& area.x + area.width > r.width ==> r.x + r.width + 1 == area.x + area.width
            &&& area.y + area.height > r.height ==> r.y + r.height + 1 == area.y + area.height
            &&& r.width <= 60
        }),
{
}

} // verus!
