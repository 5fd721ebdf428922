//! The files that fit a mention in the input.
use vstd::prelude::*;
use vstd::string::*;

use super::list;
use super::list::MAX_LIST_ROWS;
use super::slash_command_popup;
use super::theme;
use crate::keys::{KeyCode, KeyEvent};
use crate::seqs;
use crate::style::Line;
use crate::style;
use crate::text;

verus! {

broadcast use crate::seqs::views_push;

/// What a key press did to the popup.
#[derive(Debug)]
pub enum FileMentionPopupAction {
    Handled,
    Fill { before: String, insert: String, after: String },
}

/// What a key press did to the popup.
pub enum MentionActionView {
    Handled,
    Fill { before: Seq<char>, insert: Seq<char>, after: Seq<char> },
}

impl View for FileMentionPopupAction {
    type V = MentionActionView;

    open spec fn view(&self) -> MentionActionView {
        match self {
            FileMentionPopupAction::Handled => MentionActionView::Handled,
            FileMentionPopupAction::Fill { before, insert, after } => MentionActionView::Fill {
                before: before@,
                insert: insert@,
                after: after@,
            },
        }
    }
}

/// A mention in a text: where it starts and ends, in bytes and in characters,
/// and what follows its `@`.
pub struct MentionToken {
    pub start: usize,
    pub end: usize,
    pub query: String,
    pub first: usize,
    pub last: usize,
}

/// A mention in a text.
#[verifier::ext_equal]
pub struct TokenView {
    pub start: nat,
    pub end: nat,
    pub query: Seq<char>,
    pub first: nat,
    pub last: nat,
}

impl View for MentionToken {
    type V = TokenView;

    open spec fn view(&self) -> TokenView {
        TokenView {
            start: self.start as nat,
            end: self.end as nat,
            query: self.query@,
            first: self.first as nat,
            last: self.last as nat,
        }
    }
}

/// Where the last `@` of `s` stands.
pub open spec fn last_at(s: Seq<char>) -> Option<nat>
    decreases s.len(),
{
    if s.len() == 0 {
        None
    } else if s.last() == '@' {
        Some((s.len() - 1) as nat)
    } else {
        last_at(s.drop_last())
    }
}

/// The mention that the character position `k` stands in: it starts with an
/// `@` at the start of the text or behind whitespace, and ends before the next
/// whitespace.
pub open spec fn token_around(s: Seq<char>, k: nat) -> Option<TokenView> {
    match last_at(s.take(k as int)) {
        Some(at) => {
            let end = text::next_white(s, at + 1);
            if (at > 0 && !text::is_white(s[at - 1])) || k > end {
                None
            } else {
                Some(
                    TokenView {
                        start: text::byte_len(s.take(at as int)),
                        end: text::byte_len(s.take(end as int)),
                        query: s.subrange(at as int + 1, end as int),
                        first: at,
                        last: end,
                    },
                )
            }
        },
        None => None,
    }
}

/// The mention that the byte position `cursor` stands in. A position behind
/// the text counts as its end, one inside a character stands in no mention.
pub open spec fn token_at(s: Seq<char>, cursor: nat) -> Option<TokenView> {
    let total = text::byte_len(s);
    let at = if cursor <= total {
        cursor
    } else {
        total
    };
    match text::char_at_byte(s, at) {
        Some(k) => token_around(s, k),
        None => None,
    }
}

proof fn lemma_last_at(s: Seq<char>)
    ensures
        last_at(s) matches Some(i) ==> i < s.len() && s[i as int] == '@',
    decreases s.len(),
{
    if s.len() > 0 && s.last() != '@' {
        lemma_last_at(s.drop_last());
    }
}

/// What is known of a token that may be there.
pub open spec fn token_view(t: Option<MentionToken>) -> Option<TokenView> {
    match t {
        Some(t) => Some(t@),
        None => None,
    }
}

/// Finds the mention that the byte position `cursor` stands in.
pub fn mention_token(t: &str, cursor: usize) -> (token: Option<MentionToken>)
    ensures
        token_view(token) == token_at(t@, cursor as nat),
        token matches Some(m) ==> m.first <= m.last <= t@.len(),
{
    let cs = text::chars_of(t);
    let n: usize = cs.len();
    let total: usize = text::bytes_before(t, &cs, n);
    assert(t@.take(t@.len() as int) =~= t@);
    let at: usize = if cursor <= total {
        cursor
    } else {
        total
    };
    let k: usize = match text::find_char_at_byte(t, &cs, at) {
        Some(k) => k,
        None => {
            return None;
        },
    };
    let ghost before = t@.take(k as int);
    let mut i: usize = k;
    assert(before.take(k as int) =~= before);
    while i > 0 && cs[i - 1] != '@'
        invariant
            i <= k <= cs@.len(),
            cs@ == t@,
            before == t@.take(k as int),
            last_at(before) == last_at(before.take(i as int)),
        decreases i,
    {
        assert(before.take(i as int).drop_last() =~= before.take(i - 1));
        assert(before.take(i as int).last() == cs@[i - 1]);
        i -= 1;
    }
    if i == 0 {
        assert(last_at(before) is None);
        return None;
    }
    assert(before.take(i as int).last() == cs@[i - 1]);
    let first: usize = i - 1;
    if first > 0 && !text::is_whitespace(cs[first - 1]) {
        return None;
    }
    let last: usize = text::find_white(&cs, first + 1);
    if k > last {
        return None;
    }
    let token = MentionToken {
        start: text::bytes_before(t, &cs, first),
        end: text::bytes_before(t, &cs, last),
        query: text::text_of(&cs, first + 1, last),
        first,
        last,
    };
    assert(token@ =~= token_around(t@, k as nat)->0);
    Some(token)
}

/// What the popup asks the file index for. `rescan` says that the popup has
/// just opened, so the index should be brought up to date first.
#[derive(Debug)]
pub struct MentionQuery {
    pub query: String,
    pub rescan: bool,
}

/// The files that fit a mention in the input.
pub struct FileMentionPopup {
    text: String,
    matches: Vec<String>,
    selected: usize,
    token: Option<MentionToken>,
}

/// What the popup holds.
#[verifier::ext_equal]
pub struct MentionView {
    pub text: Seq<char>,
    pub matches: Seq<Seq<char>>,
    pub selected: nat,
    pub token: Option<TokenView>,
}

impl View for FileMentionPopup {
    type V = MentionView;

    closed spec fn view(&self) -> MentionView {
        MentionView {
            text: self.text@,
            matches: seqs::views(self.matches@),
            selected: self.selected as nat,
            token: token_view(self.token),
        }
    }
}

impl MentionView {
    /// Whether the mention lies in the text.
    pub open spec fn wf(self) -> bool {
        self.token matches Some(t) ==> t.first <= t.last <= self.text.len()
    }

    /// Whether the popup is open.
    pub open spec fn is_open(self) -> bool {
        self.token is Some
    }

    /// The popup after it was closed.
    pub open spec fn closed_popup(self) -> Self {
        MentionView { matches: Seq::empty(), selected: 0, token: None, ..self }
    }

    /// The popup for another text and cursor, before the index was asked.
    pub open spec fn refreshed(self, t: Seq<char>, cursor: nat) -> Self {
        let token = token_at(t, cursor);
        if token is None {
            MentionView { text: t, ..self.closed_popup() }
        } else {
            MentionView { text: t, token, ..self }
        }
    }

    /// The popup with what the index found: the first few files, the first of
    /// them selected where the popup has just opened.
    pub open spec fn answered(self, found: Seq<Seq<char>>, opened: bool) -> Self {
        let matches = if found.len() <= MAX_LIST_ROWS {
            found
        } else {
            found.take(MAX_LIST_ROWS as int)
        };
        MentionView {
            matches,
            selected: slash_command_popup::clamped_selection(
                if opened {
                    0
                } else {
                    self.selected
                },
                matches.len(),
            ),
            ..self
        }
    }

    /// What taking the selected file makes of the text.
    pub open spec fn fill(self) -> Option<MentionActionView> {
        if self.selected < self.matches.len() && self.token is Some {
            let token = self.token->0;
            let after = self.text.skip(token.last as int);
            let name = "@"@ + self.matches[self.selected as int];
            Some(
                MentionActionView::Fill {
                    before: self.text.take(token.first as int),
                    insert: if after.len() > 0 && text::is_white(after[0]) {
                        name
                    } else {
                        name + " "@
                    },
                    after,
                },
            )
        } else {
            None
        }
    }

    /// The popup after a key press.
    pub open spec fn after_key(self, key: KeyEvent) -> Self {
        match key.code {
            KeyCode::Esc => self.closed_popup(),
            KeyCode::Up => MentionView {
                selected: list::cycled(self.selected, self.matches.len(), true),
                ..self
            },
            KeyCode::Down => MentionView {
                selected: list::cycled(self.selected, self.matches.len(), false),
                ..self
            },
            _ => self,
        }
    }

    /// What a key press asks for; `None` leaves the key to the input. Enter on
    /// a mention that is typed out is left to the input.
    pub open spec fn answer(self, key: KeyEvent) -> Option<MentionActionView> {
        match key.code {
            KeyCode::Esc | KeyCode::Up | KeyCode::Down => Some(MentionActionView::Handled),
            KeyCode::Tab => match self.fill() {
                Some(fill) => Some(fill),
                None => Some(MentionActionView::Handled),
            },
            KeyCode::Enter => if key.modifiers.is_empty() && self.selected < self.matches.len()
                && self.token is Some && self.token->0.query
                != self.matches[self.selected as int] {
                self.fill()
            } else {
                None
            },
            _ => None,
        }
    }

    /// The entries that the popup lists.
    pub open spec fn entries(self) -> Seq<(Seq<char>, Seq<char>)> {
        Seq::new(self.matches.len(), |i: int| ("@"@ + self.matches[i], Seq::<char>::empty()))
    }

    /// The lines that the popup is drawn as.
    pub open spec fn drawn(self) -> Seq<Seq<style::SpanView>> {
        if self.matches.len() == 0 {
            slash_command_popup::empty_note("no matching file"@)
        } else {
            list::choices(self.entries(), self.selected)
        }
    }
}

impl FileMentionPopup {
    /// A closed popup.
    pub fn new() -> (p: Self)
        ensures
            p@ == (MentionView {
                text: Seq::empty(),
                matches: Seq::empty(),
                selected: 0,
                token: None,
            }),
            p@.wf(),
    {
        let p = FileMentionPopup {
            text: String::new(),
            matches: Vec::new(),
            selected: 0,
            token: None,
        };
        assert(p@.matches =~= Seq::<Seq<char>>::empty());
        p
    }

    /// Whether the popup is open.
    pub fn is_open(&self) -> (yes: bool)
        ensures
            yes == self@.is_open(),
    {
        self.token.is_some()
    }

    /// Closes the popup.
    pub fn close(&mut self)
        ensures
            final(self)@ == old(self)@.closed_popup(),
            final(self)@.wf(),
    {
        self.selected = 0;
        self.matches = Vec::new();
        self.token = None;
        assert(self@ =~= old(self)@.closed_popup());
    }

    /// The files that fit.
    pub fn matches(&self) -> (out: &Vec<String>)
        ensures
            seqs::views(out@) == self@.matches,
    {
        &self.matches
    }

    /// Brings the popup up to date with the text and the cursor. Returns what
    /// to ask the file index for, where the cursor stands in a mention.
    pub fn refresh(&mut self, t: &str, cursor: usize) -> (ask: Option<MentionQuery>)
        ensures
            final(self)@ == old(self)@.refreshed(t@, cursor as nat),
            final(self)@.wf(),
            match ask {
                Some(q) => token_at(t@, cursor as nat) matches Some(token) && q.query@
                    == token.query && q.rescan == !old(self)@.is_open(),
                None => token_at(t@, cursor as nat) is None,
            },
    {
        let was_open = self.token.is_some();
        self.text = t.to_owned();
        let token = mention_token(t, cursor);
        match token {
            Some(token) => {
                let query = token.query.clone();
                self.token = Some(token);
                Some(MentionQuery { query, rescan: !was_open })
            },
            None => {
                self.close();
                None
            },
        }
    }

    /// Takes what the file index found. `opened` says that the popup had just
    /// opened when the index was asked.
    pub fn set_matches(&mut self, found: Vec<String>, opened: bool)
        ensures
            final(self)@ == old(self)@.answered(seqs::views(found@), opened),
            old(self)@.wf() ==> final(self)@.wf(),
    {
        let ghost all = seqs::views(found@);
        let mut matches = found;
        matches.truncate(MAX_LIST_ROWS);
        proof {
            if all.len() > MAX_LIST_ROWS {
                assert(seqs::views(matches@) =~= all.take(MAX_LIST_ROWS as int));
            } else {
                assert(seqs::views(matches@) =~= all);
            }
        }
        let n: usize = matches.len();
        self.matches = matches;
        if opened {
            self.selected = 0;
        }
        if n == 0 {
            self.selected = 0;
        } else if self.selected >= n {
            self.selected = n - 1;
        }
    }

    /// Rows that the popup takes, none while it is closed.
    pub fn height(&self) -> (rows: u16)
        ensures
            rows == (if self@.is_open() {
                list::bounded(self@.matches.len())
            } else {
                0
            }),
    {
        if !self.is_open() {
            return 0;
        }
        list::bounded_rows(self.matches.len())
    }

    /// The lines of the open popup.
    pub fn lines(&self) -> (out: Vec<Line>)
        ensures
            seqs::views(out@) == self@.drawn(),
    {
        if self.matches.len() == 0 {
            let out = vec![Line::of("no matching file".to_owned(), theme::dim())];
            assert(seqs::views(out@) =~= slash_command_popup::empty_note("no matching file"@));
            return out;
        }
        let mut items: Vec<(String, String)> = Vec::new();
        let mut i: usize = 0;
        while i < self.matches.len()
            invariant
                i <= self.matches@.len() == self@.entries().len(),
                items@.len() == i,
                forall|j: int| 0 <= j < i ==> list::pair_views(items@)[j] == self@.entries()[j],
            decreases self.matches.len() - i,
        {
            items.push((text::concat("@", self.matches[i].as_str()), String::new()));
            i += 1;
        }
        assert(list::pair_views(items@) =~= self@.entries());
        list::choice_lines(&items, self.selected)
    }

    /// What taking the selected file makes of the text.
    pub fn fill_selected(&self) -> (fill: Option<FileMentionPopupAction>)
        requires
            self@.wf(),
        ensures
            match fill {
                Some(a) => self@.fill() == Some(a@),
                None => self@.fill() is None,
            },
    {
        if self.selected >= self.matches.len() {
            return None;
        }
        match &self.token {
            Some(token) => {
                let cs = text::chars_of(self.text.as_str());
                let before = text::text_of(&cs, 0, token.first);
                let after = text::text_of(&cs, token.last, cs.len());
                proof {
                    assert(before@ =~= self.text@.take(token.first as int));
                    assert(after@ =~= self.text@.skip(token.last as int));
                }
                let mut insert = text::concat("@", self.matches[self.selected].as_str());
                let spaced = token.last < cs.len() && text::is_whitespace(cs[token.last]);
                if !spaced {
                    insert.append(" ");
                }
                Some(FileMentionPopupAction::Fill { before, insert, after })
            },
            None => None,
        }
    }

    /// Handles keys while the popup is open.
    ///
    /// Returns `None` when the key should fall through to the input itself.
    pub fn handle_key(&mut self, key: &KeyEvent) -> (action: Option<FileMentionPopupAction>)
        requires
            old(self)@.wf(),
        ensures
            final(self)@ == old(self)@.after_key(*key),
            final(self)@.wf(),
            match action {
                Some(a) => old(self)@.answer(*key) == Some(a@),
                None => old(self)@.answer(*key) is None,
            },
    {
        match key.code {
            KeyCode::Esc => {
                self.close();
                Some(FileMentionPopupAction::Handled)
            },
            KeyCode::Up => {
                let n: usize = self.matches.len();
                list::cycle_selected(&mut self.selected, n, true);
                assert(self@ =~= old(self)@.after_key(*key));
                Some(FileMentionPopupAction::Handled)
            },
            KeyCode::Down => {
                let n: usize = self.matches.len();
                list::cycle_selected(&mut self.selected, n, false);
                assert(self@ =~= old(self)@.after_key(*key));
                Some(FileMentionPopupAction::Handled)
            },
            KeyCode::Tab => match self.fill_selected() {
                Some(fill) => Some(fill),
                None => Some(FileMentionPopupAction::Handled),
            },
            KeyCode::Enter => {
                if !key.modifiers.is_empty() || self.selected >= self.matches.len() {
                    return None;
                }
                let typed_out = match &self.token {
                    Some(token) => text::same_text(
                        token.query.as_str(),
                        self.matches[self.selected].as_str(),
                    ),
                    None => true,
                };
                if typed_out {
                    None
                } else {
                    self.fill_selected()
                }
            },
            _ => None,
        }
    }
}

/// Taking a file keeps the text around the mention.
pub proof fn filling_keeps_the_surroundings(v: MentionView)
    requires
        v.wf(),
        v.fill() is Some,
    ensures
        v.fill() matches Some(MentionActionView::Fill { before, insert, after }) && before
            + v.text.subrange(v.token->0.first as int, v.token->0.last as int) + after == v.text,
{
    let token = v.token->0;
    assert(v.text.take(token.first as int) + v.text.subrange(
        token.first as int,
        token.last as int,
    ) + v.text.skip(token.last as int) =~= v.text);
}

proof fn lemma_last_at_is(s: Seq<char>, at: nat)
    requires
        at < s.len(),
        s[at as int] == '@',
        forall|j: int| at < j < s.len() ==> #[trigger] s[j] != '@',
    ensures
        last_at(s) == Some(at),
    decreases s.len(),
{
    if at + 1 < s.len() {
        assert(s.last() == s[s.len() - 1]);
        lemma_last_at_is(s.drop_last(), at);
    }
}

proof fn lemma_last_at_behind(s: Seq<char>)
    ensures
        last_at(s) matches Some(i) ==> forall|j: int| i < j < s.len() ==> #[trigger] s[j] != '@',
    decreases s.len(),
{
    if s.len() > 0 && s.last() != '@' {
        lemma_last_at_behind(s.drop_last());
        if let Some(i) = last_at(s) {
            assert forall|j: int| i < j < s.len() implies #[trigger] s[j] != '@' by {
                if j < s.len() - 1 {
                    assert(s.drop_last()[j] == s[j]);
                }
            }
        }
    }
}

proof fn lemma_next_white(s: Seq<char>, i: nat)
    requires
        i <= s.len(),
    ensures
        i <= text::next_white(s, i) <= s.len(),
        forall|j: int| i <= j < text::next_white(s, i) ==> !text::is_white(#[trigger] s[j]),
        text::next_white(s, i) < s.len() ==> text::is_white(s[text::next_white(s, i) as int]),
    decreases s.len() - i,
{
    if i < s.len() && !text::is_white(s[i as int]) {
        lemma_next_white(s, i + 1);
    }
}

/// A mention is a word that starts with an at sign and that the cursor stands in,
/// behind the sign: whitespace or the start of the text stands before it, none
/// within it, and whitespace or the end of the text behind it. What is looked for
/// is the word behind the sign.
pub proof fn mentions_are_words(s: Seq<char>, k: nat)
    requires
        k <= s.len(),
    ensures
        token_around(s, k) matches Some(t) ==> {
            &&& t.first < k <= t.last <= s.len()
            &&& s[t.first as int] == '@'
            &&& t.first > 0 ==> text::is_white(s[t.first - 1])
            &&& forall|j: int| t.first < j < t.last ==> !text::is_white(#[trigger] s[j])
            &&& t.last < s.len() ==> text::is_white(s[t.last as int])
            &&& t.query == s.subrange(t.first as int + 1, t.last as int)
        },
{
    let head = s.take(k as int);
    lemma_last_at(head);
    if let Some(at) = last_at(head) {
        lemma_next_white(s, at + 1);
    }
}

/// Where the cursor stands in a word behind the last at sign before it, and that
/// starts the word, there is a mention, and it starts there.
pub proof fn mentions_are_found(s: Seq<char>, k: nat, at: nat)
    requires
        at < k <= s.len(),
        s[at as int] == '@',
        at > 0 ==> text::is_white(s[at - 1]),
        forall|j: int| at < j < k ==> #[trigger] s[j] != '@' && !text::is_white(s[j]),
    ensures
        token_around(s, k) matches Some(t) && t.first == at,
{
    let head = s.take(k as int);
    lemma_last_at_is(head, at);
    lemma_next_white(s, at + 1);
    let end = text::next_white(s, at + 1);
    if end < k {
        assert(text::is_white(s[end as int]));
    }
}

/// Taking the marked file puts what its row shows in place of the mention, with a
/// blank behind it unless whitespace follows.
pub proof fn the_marked_file_is_taken(v: MentionView, tab: KeyEvent, i: int)
    requires
        v.wf(),
        v.token is Some,
        v.matches.len() > 0,
        0 <= i < v.drawn().len(),
        v.drawn()[i][0].text == "▸ "@,
        tab.code is Tab,
    ensures
        ({
            let token = v.token->0;
            let rest = v.text.skip(token.last as int);
            v.answer(tab) == Some(
                MentionActionView::Fill {
                    before: v.text.take(token.first as int),
                    insert: if rest.len() > 0 && text::is_white(rest[0]) {
                        v.drawn()[i][1].text
                    } else {
                        v.drawn()[i][1].text + " "@
                    },
                    after: rest,
                },
            )
        }),
        v.drawn()[i][1].text == "@"@ + v.matches[i],
{
    list::lists_show_their_entries(v.entries(), v.selected, i);
}

/// The first six files that were found are listed in their order, and where the
/// popup has just opened the first of them is marked.
pub proof fn found_files_are_listed(v: MentionView, found: Seq<Seq<char>>, opened: bool, i: int)
    requires
        0 <= i < found.len(),
        i < 6,
    ensures
        ({
            let next = v.answered(found, opened);
            &&& next.matches.len() == if found.len() <= 6 {
                found.len() as int
            } else {
                6
            }
            &&& next.drawn()[i][1].text == "@"@ + found[i]
            &&& next.selected < next.matches.len()
            &&& opened ==> next.drawn()[0][0].text == "▸ "@
            &&& !opened && v.selected < next.matches.len() ==> next.selected == v.selected
            &&& next.token == v.token
            &&& next.text == v.text
        }),
{
    let next = v.answered(found, opened);
    list::lists_show_their_entries(next.entries(), next.selected, i);
    list::lists_show_their_entries(next.entries(), next.selected, 0);
}

} // verus!
