//! The styles of everything the interface draws.
use vstd::prelude::*;

use crate::style::{Color, Style};

verus! {

/// The style of the user's own messages.
#[verifier::allow_in_spec]
pub fn user() -> Style
    returns
        (Style { fg: Some(Color::Cyan), bg: None, bold: true, reversed: false }),
{
    Style { fg: Some(Color::Cyan), bg: None, bold: true, reversed: false }
}

/// The style of shell commands.
#[verifier::allow_in_spec]
pub fn shell() -> Style
    returns
        (Style::fg(Color::Blue)),
{
    Style::fg(Color::Blue)
}

/// The style of answers.
#[verifier::allow_in_spec]
pub fn assistant() -> Style
    returns
        (Style::fg(Color::Green)),
{
    Style::fg(Color::Green)
}

/// The style of reasoning.
#[verifier::allow_in_spec]
pub fn thinking() -> Style
    returns
        (Style::fg(Color::DarkGray)),
{
    Style::fg(Color::DarkGray)
}

/// The style of tool calls.
#[verifier::allow_in_spec]
pub fn tool() -> Style
    returns
        (Style::fg(Color::Magenta)),
{
    Style::fg(Color::Magenta)
}

/// The style of lines that a diff adds.
#[verifier::allow_in_spec]
pub fn diff_added() -> Style
    returns
        (Style { fg: Some(Color::Black), bg: Some(Color::LightGreen), bold: false, reversed: false }),
{
    Style { fg: Some(Color::Black), bg: Some(Color::LightGreen), bold: false, reversed: false }
}

/// The style of lines that a diff removes.
#[verifier::allow_in_spec]
pub fn diff_removed() -> Style
    returns
        (Style { fg: Some(Color::Black), bg: Some(Color::LightRed), bold: false, reversed: false }),
{
    Style { fg: Some(Color::Black), bg: Some(Color::LightRed), bold: false, reversed: false }
}

/// The style of results of calls that succeeded.
#[verifier::allow_in_spec]
pub fn ok() -> Style
    returns
        (Style::fg(Color::DarkGray)),
{
    Style::fg(Color::DarkGray)
}

/// The style of results of calls that failed.
#[verifier::allow_in_spec]
pub fn fail() -> Style
    returns
        (Style::fg(Color::Red)),
{
    Style::fg(Color::Red)
}

/// The style of errors.
#[verifier::allow_in_spec]
pub fn error() -> Style
    returns
        (Style::fg(Color::Red)),
{
    Style::fg(Color::Red)
}

/// The style of secondary text.
#[verifier::allow_in_spec]
pub fn dim() -> Style
    returns
        (Style::fg(Color::DarkGray)),
{
    Style::fg(Color::DarkGray)
}

/// The style of what is selected or active.
#[verifier::allow_in_spec]
pub fn accent() -> Style
    returns
        (Style::fg(Color::Cyan)),
{
    Style::fg(Color::Cyan)
}

/// The style of the model's name.
#[verifier::allow_in_spec]
pub fn model() -> Style
    returns
        (Style::fg(Color::LightYellow)),
{
    Style::fg(Color::LightYellow)
}

/// The style of the working directory.
#[verifier::allow_in_spec]
pub fn path() -> Style
    returns
        (Style::fg(Color::LightGreen)),
{
    Style::fg(Color::LightGreen)
}

/// The style of the reasoning effort.
#[verifier::allow_in_spec]
pub fn effort() -> Style
    returns
        (Style::fg(Color::LightBlue)),
{
    Style::fg(Color::LightBlue)
}

/// The style of the agent mode.
#[verifier::allow_in_spec]
pub fn mode() -> Style
    returns
        (Style::fg(Color::LightMagenta)),
{
    Style::fg(Color::LightMagenta)
}

/// The style of short replies.
#[verifier::allow_in_spec]
pub fn reply() -> Style
    returns
        (Style::fg(Color::Rgb(255, 140, 0))),
{
    Style::fg(Color::Rgb(255, 140, 0))
}

/// The style of the separator that closes a turn.
#[verifier::allow_in_spec]
pub fn elapsed() -> Style
    returns
        (Style::fg(Color::DarkGray)),
{
    Style::fg(Color::DarkGray)
}

/// The style of selected text.
#[verifier::allow_in_spec]
pub fn selection() -> Style
    returns
        (Style { fg: None, bg: None, bold: false, reversed: true }),
{
    Style { fg: None, bg: None, bold: false, reversed: true }
}

/// The style of the header under the pointer.
#[verifier::allow_in_spec]
pub fn hover() -> Style
    returns
        (Style { fg: None, bg: Some(Color::Rgb(58, 58, 58)), bold: false, reversed: false }),
{
    Style { fg: None, bg: Some(Color::Rgb(58, 58, 58)), bold: false, reversed: false }
}

/// The style of the border of an empty composer.
#[verifier::allow_in_spec]
pub fn border_idle() -> Style
    returns
        (Style::fg(Color::DarkGray)),
{
    Style::fg(Color::DarkGray)
}

/// The style of the border of a composer with text.
#[verifier::allow_in_spec]
pub fn border_active() -> Style
    returns
        (Style::fg(Color::Cyan)),
{
    Style::fg(Color::Cyan)
}

/// The line-drawing characters of a rounded border.
#[derive(Clone, Copy, Debug, PartialEq, Eq, Structural)]
pub struct BorderSet {
    pub top_left: char,
    pub top_right: char,
    pub bottom_left: char,
    pub bottom_right: char,
    pub vertical: char,
    pub horizontal: char,
}

/// The border of the composer and of submitted prompts.
#[verifier::allow_in_spec]
pub fn border_type() -> BorderSet
    returns
        (BorderSet {
            top_left: '╭',
            top_right: '╮',
            bottom_left: '╰',
            bottom_right: '╯',
            vertical: '│',
            horizontal: '─',
        }),
{
    BorderSet {
        top_left: '╭',
        top_right: '╮',
        bottom_left: '╰',
        bottom_right: '╯',
        vertical: '│',
        horizontal: '─',
    }
}

} // verus!
