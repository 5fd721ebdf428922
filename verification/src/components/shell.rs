//! How the composer looks while a shell command is typed.
use vstd::prelude::*;

use super::theme;
use crate::style::Style;

verus! {

/// The prompt of the composer.
pub open spec fn prompt_text(busy: bool, active: bool) -> Seq<char> {
    if busy {
        "⋅ "@
    } else if active {
        "$ "@
    } else {
        "› "@
    }
}

/// The prompt of the composer; `active` while a shell command is typed.
pub fn prompt(busy: bool, active: bool) -> (out: &'static str)
    ensures
        out@ == prompt_text(busy, active),
{
    if active && !busy {
        "$ "
    } else if busy {
        "⋅ "
    } else {
        "› "
    }
}

/// The style of the prompt.
#[verifier::allow_in_spec]
pub fn prompt_style(active: bool) -> Style
    returns
        (if active {
            theme::shell()
        } else {
            theme::user()
        }),
{
    if active {
        theme::shell()
    } else {
        theme::user()
    }
}

/// The style of the typed text.
#[verifier::allow_in_spec]
pub fn text_style(active: bool) -> Style
    returns
        (if active {
            theme::shell()
        } else {
            Style::plain()
        }),
{
    if active {
        theme::shell()
    } else {
        Style::plain()
    }
}

/// What an empty composer shows.
pub fn placeholder(active: bool) -> (out: &'static str)
    ensures
        out@ == (if active {
            "shell command…"@
        } else {
            "message…"@
        }),
{
    if active {
        "shell command…"
    } else {
        "message…"
    }
}

/// A busy session shows one prompt whatever is typed; an idle one shows whether a
/// shell command is typed, and never the busy prompt.
pub proof fn prompts_tell_the_state(a: bool, b: bool)
    ensures
        prompt_text(true, a) == prompt_text(true, b),
        prompt_text(false, a) == prompt_text(false, b) <==> a == b,
        prompt_text(false, a) != prompt_text(true, b),
{
    reveal_strlit("⋅ ");
    reveal_strlit("$ ");
    reveal_strlit("› ");
    assert("⋅ "@[0] != "$ "@[0]);
    assert("⋅ "@[0] != "› "@[0]);
    assert("$ "@[0] != "› "@[0]);
}

} // verus!
