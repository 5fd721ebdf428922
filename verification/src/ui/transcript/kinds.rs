//! What the rows of the transcript show.
use vstd::prelude::*;

use crate::components::theme;
use crate::style::Style;

verus! {

/// Columns of the gutter that opens a line.
pub const LINE_PREFIX_WIDTH: usize = 2;

/// What opens the lines of a row behind its first.
pub const LINE_INDENT: &'static str = "  ";

/// What a row of the transcript shows.
#[derive(Clone, Copy, Debug, PartialEq, Eq, Structural)]
pub enum LineKind {
    User,
    Thinking,
    Text,
    Tool,
    ToolResult(bool),
    Error,
    System,
}

impl LineKind {
    /// The style of the row's gutter.
    #[verifier::allow_in_spec]
    pub fn style(self) -> Style
        returns
            (match self {
                LineKind::User => theme::user(),
                LineKind::Thinking => theme::thinking(),
                LineKind::Text => theme::assistant(),
                LineKind::Tool => theme::tool(),
                LineKind::ToolResult(ok) => if ok {
                    theme::ok()
                } else {
                    theme::fail()
                },
                LineKind::Error => theme::error(),
                LineKind::System => theme::dim(),
            }),
    {
        match self {
            LineKind::User => theme::user(),
            LineKind::Thinking => theme::thinking(),
            LineKind::Text => theme::assistant(),
            LineKind::Tool => theme::tool(),
            LineKind::ToolResult(ok) => if ok {
                theme::ok()
            } else {
                theme::fail()
            },
            LineKind::Error => theme::error(),
            LineKind::System => theme::dim(),
        }
    }

    /// What the row's gutter shows.
    pub open spec fn gutter_text(self) -> Seq<char> {
        match self {
            LineKind::User => "› "@,
            LineKind::Text => "• "@,
            LineKind::Thinking => "· "@,
            LineKind::Tool => "$ "@,
            LineKind::ToolResult(_) | LineKind::Error | LineKind::System => "  "@,
        }
    }

    /// What the row's gutter shows.
    pub fn gutter(self) -> (g: &'static str)
        ensures
            g@ == self.gutter_text(),
    {
        match self {
            LineKind::User => "› ",
            LineKind::Text => "• ",
            LineKind::Thinking => "· ",
            LineKind::Tool => "$ ",
            LineKind::ToolResult(_) | LineKind::Error | LineKind::System => "  ",
        }
    }
}

} // verus!
