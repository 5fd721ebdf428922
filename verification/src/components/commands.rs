//! What the input line knows of slash commands.
use vstd::prelude::*;
use vstd::string::*;

use super::component;
use super::component::{Action, KeyResult};
use super::event;
use crate::seqs;
use crate::text;

verus! {

broadcast use crate::seqs::views_push;

/// The words of a slash command, the command itself first; none for other
/// texts.
pub open spec fn command_words(t: Seq<char>) -> Seq<Seq<char>> {
    let s = text::trimmed(t);
    if s.len() > 0 && s[0] == '/' {
        text::words_of(s.skip(1))
    } else {
        Seq::empty()
    }
}

/// Splits a slash command into its words.
pub fn split_command(t: &str) -> (words: Vec<String>)
    ensures
        seqs::views(words@) == command_words(t@),
{
    let s = text::trim(t);
    let cs = text::chars_of(s.as_str());
    if cs.len() == 0 || cs[0] != '/' {
        let none: Vec<String> = Vec::new();
        assert(seqs::views(none@) =~= Seq::<Seq<char>>::empty());
        return none;
    }
    let body = text::text_of(&cs, 1, cs.len());
    assert(body@ =~= s@.skip(1));
    text::words(body.as_str())
}

/// Whether a word is a command, capital letters or not.
pub open spec fn is_named(word: Seq<char>, name: Seq<char>) -> bool {
    text::ascii_lowered(word) == text::ascii_lowered(name)
}

/// Whether a text is a `/model` or `/setup` command.
pub open spec fn is_quiet(t: Seq<char>) -> bool {
    let words = command_words(t);
    words.len() > 0 && (is_named(words[0], "model"@) || is_named(words[0], "setup"@))
}

/// Whether a text is a `/model` or `/setup` command.
pub fn is_model_or_setup(t: &str) -> (yes: bool)
    ensures
        yes == is_quiet(t@),
{
    let words = split_command(t);
    if words.len() == 0 {
        return false;
    }
    text::eq_ignore_ascii_case(words[0].as_str(), "model") || text::eq_ignore_ascii_case(
        words[0].as_str(),
        "setup",
    )
}

/// What submitting a text asks the session for: `/model` and `/setup` leave no
/// trace in the transcript.
pub open spec fn submission(t: Seq<char>) -> component::KeyResultView {
    if is_quiet(t) {
        component::KeyResultView::Action(component::ActionView::QuietSubmit(t))
    } else {
        component::KeyResultView::Action(component::ActionView::Submit(t))
    }
}

/// Submits a text.
pub fn submit_command(t: String) -> (result: KeyResult)
    ensures
        result@ == submission(t@),
{
    if is_model_or_setup(t.as_str()) {
        KeyResult::Action(Action::QuietSubmit(t))
    } else {
        KeyResult::Action(Action::Submit(t))
    }
}

/// Whether a text is the bare `/setup` command, which opens the wizard.
pub open spec fn opens_setup(t: Seq<char>) -> bool {
    let words = command_words(t);
    words.len() == 1 && is_named(words[0], "setup"@)
}

/// Whether a text is the bare `/setup` command, which opens the wizard.
pub fn setup_opens(t: &str) -> (yes: bool)
    ensures
        yes == opens_setup(t@),
{
    let words = split_command(t);
    words.len() == 1 && text::eq_ignore_ascii_case(words[0].as_str(), "setup")
}

/// The filter that a `/model` command opens the picker with: its only
/// argument, or an empty text. With more arguments the command runs as it is.
pub open spec fn picker_filter(t: Seq<char>) -> Option<Seq<char>> {
    let words = command_words(t);
    if words.len() == 0 || words.len() > 2 || !is_named(words[0], "model"@) {
        None
    } else if words.len() == 2 {
        Some(words[1])
    } else {
        Some(Seq::empty())
    }
}

/// If `t` is a `/model` command with at most one argument (`/model` or
/// `/model <fragment>`), returns the fragment to seed the picker filter with.
/// Two or more arguments return `None`, so the line submits directly.
pub fn model_filter_from(t: &str) -> (filter: Option<String>)
    ensures
        event::text_view(filter) == picker_filter(t@),
{
    let words = split_command(t);
    if words.len() == 0 || words.len() > 2 || !text::eq_ignore_ascii_case(
        words[0].as_str(),
        "model",
    ) {
        return None;
    }
    if words.len() == 2 {
        Some(words[1].clone())
    } else {
        Some(String::new())
    }
}

/// A token of a command as it may be shown.
pub open spec fn redacted_token(token: Seq<char>) -> Seq<char> {
    if "api_key="@.is_prefix_of(token) && token.len() > "api_key="@.len() {
        "api_key=***"@
    } else {
        token
    }
}

/// The tokens of a command as they may be shown.
pub open spec fn redacted_tokens(t: Seq<char>) -> Seq<Seq<char>> {
    let tokens = text::split_on(t, ' ');
    Seq::new(tokens.len(), |i: int| redacted_token(tokens[i]))
}

/// A command as it may be shown: without the key of a `/setup` command.
pub open spec fn shown_input(t: Seq<char>) -> Seq<char> {
    if "/setup"@.is_prefix_of(text::trimmed_start(t)) {
        text::joined(redacted_tokens(t), " "@)
    } else {
        t
    }
}

/// Writes a command as it may be shown.
pub fn display_user_input(t: &str) -> (out: String)
    ensures
        out@ == shown_input(t@),
{
    let start = text::trim_start(t);
    if !text::starts_with(start.as_str(), "/setup") {
        return t.to_owned();
    }
    let tokens = text::split(t, ' ');
    let ghost all = redacted_tokens(t@);
    let mut out: Vec<String> = Vec::new();
    let mut i: usize = 0;
    proof {
        reveal_strlit("api_key=");
        assert(seqs::views(out@) =~= all.take(0));
    }
    while i < tokens.len()
        invariant
            i <= tokens@.len() == all.len(),
            seqs::views(tokens@) == text::split_on(t@, ' '),
            all == redacted_tokens(t@),
            "api_key="@.len() == 8,
            seqs::views(out@) == all.take(i as int),
        decreases tokens.len() - i,
    {
        let token = tokens[i].as_str();
        let cs = text::chars_of(token);
        let secret = text::starts_with(token, "api_key=") && cs.len() > 8;
        proof {
            assert(seqs::views(tokens@)[i as int] == token@);
            assert(all.take(i + 1) =~= all.take(i as int).push(all[i as int]));
        }
        if secret {
            out.push("api_key=***".to_owned());
        } else {
            out.push(token.to_owned());
        }
        i += 1;
    }
    assert(all.take(all.len() as int) =~= all);
    text::join(&out, " ")
}

/// No token of a shown `/setup` command gives a key away: one that sets a key
/// sets it to three asterisks or to nothing.
pub proof fn keys_are_never_shown(t: Seq<char>, i: int)
    requires
        "/setup"@.is_prefix_of(text::trimmed_start(t)),
        0 <= i < text::split_on(shown_input(t), ' ').len(),
    ensures
        ({
            let token = text::split_on(shown_input(t), ' ')[i];
            "api_key="@.is_prefix_of(token) ==> token == "api_key=***"@ || token == "api_key="@
        }),
{
    reveal_strlit("api_key=");
    reveal_strlit("api_key=***");
    reveal_strlit(" ");
    let tokens = text::split_on(t, ' ');
    let shown = redacted_tokens(t);
    text::lemma_split_has_no_separator(t, ' ');
    assert forall|j: int| 0 <= j < shown.len() implies !(#[trigger] shown[j]).contains(' ') by {
        assert(!tokens[j].contains(' '));
        assert(!"api_key=***"@.contains(' '));
    }
    text::join_undoes_split(t, ' ');
    text::split_undoes_join(shown, ' ');
    assert(" "@ =~= seq![' ']);
    let token = text::split_on(shown_input(t), ' ')[i];
    assert(token == shown[i]);
    if "api_key="@.is_prefix_of(tokens[i]) && tokens[i].len() <= 8 {
        assert(tokens[i] =~= "api_key="@);
    }
}

/// A slash command goes by the word behind its slash, whatever whitespace stands
/// around it, and the words behind are its arguments.
pub proof fn commands_go_by_their_first_word(word: Seq<char>, rest: Seq<char>)
    requires
        word.len() > 0,
        forall|k: int| 0 <= k < word.len() ==> !text::is_white(#[trigger] word[k]),
    ensures
        command_words(seq!['/'] + word + seq![' '] + rest) == seq![word] + text::words_of(rest),
{
    let t = seq!['/'] + word + seq![' '] + rest;
    let (i, j) = text::trimming_loses_only_white(t);
    assert(t[0] == '/');
    if i > 0 {
        assert(text::is_white(t[0]));
    }
    if j == 0 {
        assert(text::is_white(t[0]));
    }
    let s = text::trimmed(t);
    assert(s[0] == '/');
    let tail = t.skip(1);
    text::trailing_white_adds_no_word(tail);
    assert(text::trimmed_start(t) =~= t);
    lemma_trimmed_end_skip(t);
    assert(tail =~= word.push(' ') + rest);
    text::white_parts_words(word, ' ', rest);
    text::unbroken_texts_are_words(word);
}

proof fn lemma_trimmed_end_skip(t: Seq<char>)
    requires
        t.len() > 0,
        !text::is_white(t[0]),
    ensures
        text::trimmed_end(t).len() > 0,
        text::trimmed_end(t).skip(1) == text::trimmed_end(t.skip(1)),
    decreases t.len(),
{
    if text::is_white(t.last()) {
        lemma_trimmed_end_skip(t.drop_last());
        assert(t.drop_last().skip(1) =~= t.skip(1).drop_last());
        assert(t.skip(1).last() == t.last());
    } else if t.len() > 1 {
        assert(t.skip(1).last() == t.last());
    }
}

/// Of what is shown, only keys are hidden: a text that sets nothing up is shown as
/// it is, and of a command that does each token but a key's.
pub proof fn only_keys_are_hidden(t: Seq<char>, i: int)
    requires
        0 <= i < text::split_on(t, ' ').len(),
        !("api_key="@.is_prefix_of(text::split_on(t, ' ')[i])),
    ensures
        text::split_on(shown_input(t), ' ').len() == text::split_on(t, ' ').len(),
        text::split_on(shown_input(t), ' ')[i] == text::split_on(t, ' ')[i],
        !("/setup"@.is_prefix_of(text::trimmed_start(t))) ==> shown_input(t) == t,
{
    reveal_strlit("api_key=");
    reveal_strlit("api_key=***");
    reveal_strlit(" ");
    let tokens = text::split_on(t, ' ');
    let shown = redacted_tokens(t);
    text::lemma_split_has_no_separator(t, ' ');
    assert forall|j: int| 0 <= j < shown.len() implies !(#[trigger] shown[j]).contains(' ') by {
        assert(!tokens[j].contains(' '));
        assert(!"api_key=***"@.contains(' '));
    }
    text::join_undoes_split(t, ' ');
    text::split_undoes_join(shown, ' ');
    assert(" "@ =~= seq![' ']);
}

} // verus!
