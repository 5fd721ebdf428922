//! The slash commands that fit what is typed.
use vstd::prelude::*;
use vstd::string::*;

use super::list;
use super::list::MAX_LIST_ROWS;
use super::theme;
use crate::keys::{KeyCode, KeyEvent};
use crate::seqs;
use crate::style::Line;
use crate::style;
use crate::text;

verus! {

/// Result of a key consumed by the slash-command popup.
#[derive(Debug)]
pub enum SlashCommandPopupAction {
    /// The key was consumed without filling or submitting.
    Handled,
    /// Fill the input with the given command text.
    Fill(String),
    /// Submit the given input text.
    Submit(String),
}

/// What a key press did to the popup.
pub enum SlashActionView {
    Handled,
    Fill(Seq<char>),
    Submit(Seq<char>),
}

impl View for SlashCommandPopupAction {
    type V = SlashActionView;

    open spec fn view(&self) -> SlashActionView {
        match self {
            SlashCommandPopupAction::Handled => SlashActionView::Handled,
            SlashCommandPopupAction::Fill(t) => SlashActionView::Fill(t@),
            SlashCommandPopupAction::Submit(t) => SlashActionView::Submit(t@),
        }
    }
}

/// Slash-command popup rendered below the input.
pub struct SlashCommandPopup {
    commands: Vec<(String, String)>,
    text: String,
    open: bool,
    selected: usize,
}

/// What the popup holds.
#[verifier::ext_equal]
pub struct SlashView {
    pub commands: Seq<(Seq<char>, Seq<char>)>,
    pub text: Seq<char>,
    pub open: bool,
    pub selected: nat,
}

impl View for SlashCommandPopup {
    type V = SlashView;

    closed spec fn view(&self) -> SlashView {
        SlashView {
            commands: list::pair_views(self.commands@),
            text: self.text@,
            open: self.open,
            selected: self.selected as nat,
        }
    }
}

/// Whether a text starts a command.
pub open spec fn is_command(t: Seq<char>) -> bool {
    let s = text::trimmed_start(t);
    s.len() > 0 && s[0] == '/'
}

/// The word behind the slash that a command starts with.
pub open spec fn command_word(t: Seq<char>) -> Seq<char> {
    text::until_white(text::trimmed_start(t).skip(1))
}

/// The command word that a text starts with, in lower case.
pub open spec fn command_token(t: Seq<char>) -> Seq<char> {
    if is_command(t) {
        text::lowered(command_word(t))
    } else {
        Seq::empty()
    }
}

/// The first of `matches` from `i` on whose command is exactly `token`.
pub open spec fn exact_match(
    names: Seq<Seq<char>>,
    matches: Seq<usize>,
    token: Seq<char>,
    i: nat,
) -> Option<nat>
    decreases matches.len() - i,
{
    if i >= matches.len() {
        None
    } else if text::lowered(names[matches[i as int] as int]) == token {
        Some(i)
    } else {
        exact_match(names, matches, token, i + 1)
    }
}

/// `selected`, moved into a list of `n` entries.
pub open spec fn clamped_selection(selected: nat, n: nat) -> nat {
    if n == 0 {
        0
    } else if selected >= n {
        (n - 1) as nat
    } else {
        selected
    }
}

impl SlashView {
    /// The command word that is typed.
    pub open spec fn token(self) -> Seq<char> {
        command_token(self.text)
    }

    /// The commands that fit the word that is typed.
    pub open spec fn matches(self) -> Seq<usize> {
        list::prefix_matches(list::names_of(self.commands), self.token())
    }

    /// The selected command, if any fits.
    pub open spec fn chosen(self) -> Option<usize> {
        if self.selected < self.matches().len() {
            Some(self.matches()[self.selected as int])
        } else {
            None
        }
    }

    /// The popup for another text: it opens on a slash, with the command that
    /// is typed out selected, and keeps its selection while it is open.
    pub open spec fn refreshed(self, t: Seq<char>) -> Self {
        let next = SlashView { text: t, open: is_command(t), ..self };
        if !is_command(t) {
            SlashView { selected: 0, ..next }
        } else {
            let start = if self.open {
                self.selected
            } else {
                match exact_match(
                    list::names_of(next.commands),
                    next.matches(),
                    next.token(),
                    0,
                ) {
                    Some(i) => i,
                    None => 0,
                }
            };
            SlashView { selected: clamped_selection(start, next.matches().len()), ..next }
        }
    }

    /// The popup after it was closed.
    pub open spec fn closed_popup(self) -> Self {
        SlashView { open: false, selected: 0, ..self }
    }

    /// The popup after a key press.
    pub open spec fn after_key(self, key: KeyEvent) -> Self {
        match key.code {
            KeyCode::Esc => self.closed_popup(),
            KeyCode::Up => SlashView {
                selected: list::cycled(self.selected, self.matches().len(), true),
                ..self
            },
            KeyCode::Down => SlashView {
                selected: list::cycled(self.selected, self.matches().len(), false),
                ..self
            },
            _ => self,
        }
    }

    /// The text that a command is filled in as.
    pub open spec fn filled(self, idx: usize) -> Seq<char> {
        "/"@ + self.commands[idx as int].0 + " "@
    }

    /// What a key press asks for; `None` leaves the key to the input.
    pub open spec fn answer(self, key: KeyEvent) -> Option<SlashActionView> {
        match key.code {
            KeyCode::Esc | KeyCode::Up | KeyCode::Down => Some(SlashActionView::Handled),
            KeyCode::Tab => match self.chosen() {
                Some(idx) => Some(SlashActionView::Fill(self.filled(idx))),
                None => Some(SlashActionView::Handled),
            },
            KeyCode::Enter => if key.modifiers.is_empty() {
                match self.chosen() {
                    Some(idx) => if self.token() == text::lowered(
                        self.commands[idx as int].0,
                    ) {
                        Some(SlashActionView::Submit(text::trimmed(self.text)))
                    } else {
                        Some(SlashActionView::Fill(self.filled(idx)))
                    },
                    None => None,
                }
            } else {
                None
            },
            _ => None,
        }
    }

    /// The entries that the popup lists.
    pub open spec fn entries(self) -> Seq<(Seq<char>, Seq<char>)> {
        let n = if self.matches().len() <= MAX_LIST_ROWS {
            self.matches().len()
        } else {
            MAX_LIST_ROWS as nat
        };
        Seq::new(
            n,
            |i: int|
                {
                    let entry = self.commands[self.matches()[i] as int];
                    ("/"@ + entry.0, entry.1)
                },
        )
    }
}

impl SlashView {
    /// The lines that the popup is drawn as.
    pub open spec fn drawn(self) -> Seq<Seq<style::SpanView>> {
        if self.matches().len() == 0 {
            empty_note("no matching command"@)
        } else {
            list::choices(self.entries(), self.selected)
        }
    }

    /// The lines that the popup is drawn as inside a border.
    pub open spec fn bordered_drawn(self) -> Seq<Seq<style::SpanView>> {
        if self.matches().len() == 0 {
            empty_note("no matching command"@)
        } else {
            list::reversed_choices(self.entries(), self.selected)
        }
    }
}

/// The lines of a list with nothing in it.
pub open spec fn empty_note(note: Seq<char>) -> Seq<Seq<style::SpanView>> {
    seq![seq![style::SpanView { text: note, style: theme::dim() }]]
}

impl SlashCommandPopup {
    /// A closed popup of the given commands.
    pub fn new(commands: Vec<(String, String)>) -> (p: Self)
        ensures
            p@ == (SlashView {
                commands: list::pair_views(commands@),
                text: Seq::empty(),
                open: false,
                selected: 0,
            }),
    {
        SlashCommandPopup { commands, text: String::new(), open: false, selected: 0 }
    }

    /// Whether the popup is open.
    pub fn is_open(&self) -> (yes: bool)
        ensures
            yes == self@.open,
    {
        self.open
    }

    /// Closes the popup.
    pub fn close(&mut self)
        ensures
            final(self)@ == old(self)@.closed_popup(),
    {
        self.open = false;
        self.selected = 0;
    }

    /// The command word that is typed, in lower case.
    pub fn token(&self) -> (out: String)
        ensures
            out@ == self@.token(),
            is_command(self@.text) ==> text::lowers_by_letter(command_word(self@.text)),
    {
        let trimmed = text::trim_start(self.text.as_str());
        let cs = text::chars_of(trimmed.as_str());
        if cs.len() == 0 || cs[0] != '/' {
            return String::new();
        }
        let rest = text::text_of(&cs, 1, cs.len());
        let rs = text::chars_of(rest.as_str());
        let end: usize = text::find_white(&rs, 0);
        let word = text::text_of(&rs, 0, end);
        proof {
            assert(rest@ =~= trimmed@.skip(1));
            assert(word@ =~= text::until_white(trimmed@.skip(1)));
        }
        text::to_lower(word.as_str())
    }

    /// Indices of commands matching the current input token.
    pub fn matches(&self) -> (out: Vec<usize>)
        ensures
            out@ == self@.matches(),
            is_command(self@.text) ==> text::lowers_by_letter(command_word(self@.text)),
            forall|i: int|
                0 <= i < self@.commands.len() ==> text::lowers_by_letter(
                    (#[trigger] self@.commands[i]).0,
                ),
            forall|i: int| 0 <= i < out@.len() ==> #[trigger] out@[i] < self@.commands.len(),
            out@.len() <= self@.commands.len(),
    {
        let token = self.token();
        let out = list::find_prefix_matches(&self.commands, token.as_str());
        assert forall|i: int| 0 <= i < self@.commands.len() implies text::lowers_by_letter(
            (#[trigger] self@.commands[i]).0,
        ) by {
            assert(self@.commands[i].0 == self.commands@[i].0@);
        }
        out
    }

    /// Re-evaluates visibility and selection from the input text.
    pub fn refresh(&mut self, t: &str)
        ensures
            final(self)@ == old(self)@.refreshed(t@),
    {
        let was_open = self.open;
        self.text = t.to_owned();
        let trimmed = text::trim_start(t);
        let cs = text::chars_of(trimmed.as_str());
        self.open = cs.len() > 0 && cs[0] == '/';
        if !self.open {
            self.selected = 0;
            return ;
        }
        let matches = self.matches();
        let n: usize = matches.len();
        if !was_open {
            let token = self.token();
            let ghost names = list::names_of(self@.commands);
            let mut at: usize = 0;
            let mut i: usize = 0;
            let mut found = false;
            while i < n && !found
                invariant
                    i <= n == matches@.len(),
                    names == list::names_of(self@.commands),
                    forall|j: int|
                        0 <= j < matches@.len() ==> #[trigger] matches@[j] < self@.commands.len(),
                    self@.commands == list::pair_views(self.commands@),
                    found ==> at == i && exact_match(names, matches@, token@, 0) == Some(
                        i as nat,
                    ),
                    !found ==> at == 0 && exact_match(names, matches@, token@, 0) == exact_match(
                        names,
                        matches@,
                        token@,
                        i as nat,
                    ),
                decreases n - i + (if found {
                    0int
                } else {
                    1int
                }),
            {
                let idx: usize = matches[i];
                assert(names[idx as int] == self.commands@[idx as int].0@);
                let low = text::to_lower(self.commands[idx].0.as_str());
                if text::same_text(low.as_str(), token.as_str()) {
                    at = i;
                    found = true;
                } else {
                    i += 1;
                }
            }
            self.selected = at;
        }
        if n == 0 {
            self.selected = 0;
        } else if self.selected >= n {
            self.selected = n - 1;
        }
        assert(self@ =~= old(self)@.refreshed(t@));
    }

    /// Index of the currently selected matching command, if any.
    pub fn selected_command(&self) -> (idx: Option<usize>)
        ensures
            idx == self@.chosen(),
            idx matches Some(i) ==> i < self@.commands.len(),
    {
        let matches = self.matches();
        if self.selected < matches.len() {
            Some(matches[self.selected])
        } else {
            None
        }
    }

    /// Rows that the popup takes, none while it is closed.
    pub fn height(&self) -> (rows: u16)
        ensures
            rows == (if self@.open {
                list::bounded(self@.matches().len())
            } else {
                0
            }),
    {
        if !self.open {
            return 0;
        }
        list::bounded_rows(self.matches().len())
    }

    /// Rows that the popup takes inside a border, none while it is closed.
    pub fn bordered_height(&self) -> (rows: u16)
        ensures
            rows == (if self@.open {
                list::bounded(self@.matches().len()) + 2
            } else {
                0
            }),
    {
        if !self.open {
            return 0;
        }
        list::bounded_rows(self.matches().len()) + 2
    }

    /// The text that the command at `idx` is filled in as.
    pub fn fill_text(&self, idx: usize) -> (out: String)
        requires
            idx < self@.commands.len(),
        ensures
            out@ == self@.filled(idx),
    {
        let mut out = "/".to_owned();
        out.append(self.commands[idx].0.as_str());
        out.append(" ");
        out
    }

    fn listed(&self) -> (items: Vec<(String, String)>)
        ensures
            list::pair_views(items@) == self@.entries(),
            items@.len() == 0 <==> self@.matches().len() == 0,
    {
        let matches = self.matches();
        let n: usize = if matches.len() <= MAX_LIST_ROWS {
            matches.len()
        } else {
            MAX_LIST_ROWS
        };
        let mut items: Vec<(String, String)> = Vec::new();
        let mut i: usize = 0;
        while i < n
            invariant
                i <= n == self@.entries().len(),
                n <= matches@.len(),
                matches@ == self@.matches(),
                forall|j: int|
                    0 <= j < matches@.len() ==> #[trigger] matches@[j] < self@.commands.len(),
                items@.len() == i,
                forall|j: int|
                    0 <= j < i ==> list::pair_views(items@)[j] == self@.entries()[j],
            decreases n - i,
        {
            let idx: usize = matches[i];
            items.push(
                (
                    text::concat("/", self.commands[idx].0.as_str()),
                    self.commands[idx].1.clone(),
                ),
            );
            i += 1;
        }
        assert(list::pair_views(items@) =~= self@.entries());
        items
    }

    /// The lines of the open popup.
    pub fn lines(&self) -> (out: Vec<Line>)
        ensures
            seqs::views(out@) == self@.drawn(),
    {
        let items = self.listed();
        if items.len() == 0 {
            let out = vec![Line::of("no matching command".to_owned(), theme::dim())];
            assert(seqs::views(out@) =~= empty_note("no matching command"@));
            return out;
        }
        list::choice_lines(&items, self.selected)
    }

    /// The lines of the open popup inside a border.
    pub fn bordered_lines(&self) -> (out: Vec<Line>)
        ensures
            seqs::views(out@) == self@.bordered_drawn(),
    {
        let items = self.listed();
        if items.len() == 0 {
            let out = vec![Line::of("no matching command".to_owned(), theme::dim())];
            assert(seqs::views(out@) =~= empty_note("no matching command"@));
            return out;
        }
        list::reversed_choice_lines(&items, self.selected)
    }

    /// Handles keys while the popup is open.
    ///
    /// Returns `None` when the key should fall through to the input itself.
    pub fn handle_key(&mut self, key: &KeyEvent) -> (action: Option<SlashCommandPopupAction>)
        ensures
            final(self)@ == old(self)@.after_key(*key),
            match action {
                Some(a) => old(self)@.answer(*key) == Some(a@),
                None => old(self)@.answer(*key) is None,
            },
    {
        match key.code {
            KeyCode::Esc => {
                self.close();
                Some(SlashCommandPopupAction::Handled)
            },
            KeyCode::Up => {
                let n: usize = self.matches().len();
                list::cycle_selected(&mut self.selected, n, true);
                assert(self@ =~= old(self)@.after_key(*key));
                Some(SlashCommandPopupAction::Handled)
            },
            KeyCode::Down => {
                let n: usize = self.matches().len();
                list::cycle_selected(&mut self.selected, n, false);
                assert(self@ =~= old(self)@.after_key(*key));
                Some(SlashCommandPopupAction::Handled)
            },
            KeyCode::Tab => match self.selected_command() {
                Some(idx) => Some(SlashCommandPopupAction::Fill(self.fill_text(idx))),
                None => Some(SlashCommandPopupAction::Handled),
            },
            KeyCode::Enter => {
                if !key.modifiers.is_empty() {
                    return None;
                }
                match self.selected_command() {
                    Some(idx) => {
                        let token = self.token();
                        let low = text::to_lower(self.commands[idx].0.as_str());
                        if text::same_text(token.as_str(), low.as_str()) {
                            Some(SlashCommandPopupAction::Submit(text::trim(self.text.as_str())))
                        } else {
                            Some(SlashCommandPopupAction::Fill(self.fill_text(idx)))
                        }
                    },
                    None => None,
                }
            },
            _ => None,
        }
    }
}

/// The popup opens where the first character that is not whitespace is a slash,
/// and nowhere else.
pub proof fn the_popup_opens_on_a_slash(v: SlashView, t: Seq<char>)
    ensures
        v.refreshed(t).open <==> exists|k: int|
            0 <= k < t.len() && #[trigger] t[k] == '/' && forall|j: int|
                0 <= j < k ==> text::is_white(#[trigger] t[j]),
        v.refreshed(t).text == t,
        v.refreshed(t).commands == v.commands,
{
    let (i, _end) = text::trimming_loses_only_white(t);
    let s = t.skip(i);
    if is_command(t) {
        assert(t[i] == s[0]);
    }
    if exists|k: int|
        0 <= k < t.len() && #[trigger] t[k] == '/' && forall|j: int|
            0 <= j < k ==> text::is_white(#[trigger] t[j]) {
        let k = choose|k: int|
            0 <= k < t.len() && #[trigger] t[k] == '/' && forall|j: int|
                0 <= j < k ==> text::is_white(#[trigger] t[j]);
        if i < k {
            assert(text::is_white(t[i]));
            if i < _end {
                assert(!text::is_white(t[i]));
            } else {
                assert(text::is_white(t[k]));
            }
        }
        if k < i {
            assert(text::is_white(t[k]));
        }
        assert(s[0] == t[k]);
    }
}

/// Taking the marked command fills in the name that its row shows, and a blank;
/// Enter submits what was typed where that is the name in full, and else fills it
/// in too.
pub proof fn the_marked_command_is_taken(v: SlashView, tab: KeyEvent, enter: KeyEvent, i: int)
    requires
        v.matches().len() > 0,
        0 <= i < v.drawn().len(),
        v.drawn()[i][0].text == "▸ "@,
        tab.code is Tab,
        enter.code is Enter,
        enter.modifiers.is_empty(),
    ensures
        v.answer(tab) == Some(SlashActionView::Fill(v.drawn()[i][1].text + " "@)),
        v.answer(enter) == Some(
            if v.token() == text::lowered(v.drawn()[i][1].text.skip(1)) {
                SlashActionView::Submit(text::trimmed(v.text))
            } else {
                SlashActionView::Fill(v.drawn()[i][1].text + " "@)
            },
        ),
        v.after_key(tab) == v,
        v.after_key(enter) == v,
{
    list::lists_show_their_entries(v.entries(), v.selected, i);
    reveal_strlit("/");
    let name = v.commands[v.matches()[i] as int].0;
    assert(("/"@ + name).skip(1) =~= name);
}

/// The rows show commands whose names start with the word that is typed, in lower
/// case, with a slash before the name and the description behind it: the first six
/// of them, in their order.
pub proof fn rows_show_the_commands_that_fit(v: SlashView, i: int)
    requires
        v.commands.len() <= usize::MAX,
        0 <= i < v.matches().len(),
        i < 6,
    ensures
        ({
            let at = v.matches()[i] as int;
            &&& v.drawn().len() == if v.matches().len() <= 6 {
                v.matches().len() as int
            } else {
                6
            }
            &&& 0 <= at < v.commands.len()
            &&& v.token().is_prefix_of(text::lowered(v.commands[at].0))
            &&& v.drawn()[i][1].text == "/"@ + v.commands[at].0
            &&& v.drawn()[i][2].text == "  "@ + v.commands[at].1
            &&& v.bordered_drawn()[i][0].text == "/"@ + v.commands[at].0
        }),
{
    let names = list::names_of(v.commands);
    list::prefixes_find_their_entries(names, v.token());
    let at = v.matches()[i] as int;
    assert(v.matches().contains(at as usize));
    let name = text::lowered(names[at]);
    assert(name.take(v.token().len() as int) == v.token());
    assert(name.subrange(0, v.token().len() as int) =~= name.take(v.token().len() as int));
    list::lists_show_their_entries(v.entries(), v.selected, i);
}

proof fn lemma_exact_match(
    names: Seq<Seq<char>>,
    matches: Seq<usize>,
    token: Seq<char>,
    i: nat,
    at: nat,
)
    requires
        i <= at < matches.len(),
        text::lowered(names[matches[at as int] as int]) == token,
    ensures
        exact_match(names, matches, token, i) matches Some(k) && k < matches.len()
            && text::lowered(names[matches[k as int] as int]) == token,
    decreases matches.len() - i,
{
    if text::lowered(names[matches[i as int] as int]) != token {
        lemma_exact_match(names, matches, token, i + 1, at);
    }
}

/// Where the popup opens on a command that is typed out, that command is marked.
pub proof fn typed_out_commands_are_marked(v: SlashView, t: Seq<char>, at: nat)
    requires
        !v.open,
        is_command(t),
        v.commands.len() <= usize::MAX,
        at < v.refreshed(t).matches().len(),
        ({
            let next = v.refreshed(t);
            text::lowered(v.commands[next.matches()[at as int] as int].0) == next.token()
        }),
    ensures
        ({
            let next = v.refreshed(t);
            &&& next.chosen() is Some
            &&& text::lowered(v.commands[next.chosen()->0 as int].0) == next.token()
        }),
{
    let next = v.refreshed(t);
    let start = SlashView { text: t, open: true, ..v };
    assert(start.matches() == next.matches());
    let names = list::names_of(v.commands);
    list::prefixes_find_their_entries(names, next.token());
    lemma_exact_match(names, next.matches(), next.token(), 0, at);
}

} // verus!
