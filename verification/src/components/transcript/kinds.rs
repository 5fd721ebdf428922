//! What the rows of the transcript are.
use vstd::prelude::*;

use super::super::theme;
use crate::style::Style;

verus! {

/// Columns of the gutter that opens a line.
pub const LINE_PREFIX_WIDTH: usize = 2;

/// One level of indentation.
pub const LINE_INDENT: &'static str = "  ";

/// The margin to the left of every row but the user's own.
pub const MESSAGE_INDENT: &'static str = " ";

/// What opens the header of a folded row.
pub const COLLAPSED_MARKER: &'static str = "▸ ";

/// What opens the header of an unfolded row.
pub const EXPANDED_MARKER: &'static str = "▾ ";

/// What a row of the transcript shows.
#[derive(Clone, Copy, Debug, PartialEq, Eq, Structural)]
pub enum LineKind {
    User,
    Shell,
    Thinking,
    Text,
    Tool,
    Diff,
    ToolResult(bool),
    ShellResult(bool),
    Error,
    System,
    Separator,
}

impl LineKind {
    /// The style of the row's gutter.
    #[verifier::allow_in_spec]
    pub fn style(self) -> Style
        returns
            (match self {
                LineKind::User => theme::user(),
                LineKind::Shell => theme::shell(),
                LineKind::Thinking => theme::thinking(),
                LineKind::Text => theme::assistant(),
                LineKind::Tool => theme::tool(),
                LineKind::Diff => theme::tool(),
                LineKind::ToolResult(ok) => if ok {
                    theme::ok()
                } else {
                    theme::fail()
                },
                LineKind::ShellResult(ok) => if ok {
                    theme::ok()
                } else {
                    theme::fail()
                },
                LineKind::Error => theme::error(),
                LineKind::System => theme::dim(),
                LineKind::Separator => theme::elapsed(),
            }),
    {
        match self {
            LineKind::User => theme::user(),
            LineKind::Shell => theme::shell(),
            LineKind::Thinking => theme::thinking(),
            LineKind::Text => theme::assistant(),
            LineKind::Tool => theme::tool(),
            LineKind::Diff => theme::tool(),
            LineKind::ToolResult(ok) => if ok {
                theme::ok()
            } else {
                theme::fail()
            },
            LineKind::ShellResult(ok) => if ok {
                theme::ok()
            } else {
                theme::fail()
            },
            LineKind::Error => theme::error(),
            LineKind::System => theme::dim(),
            LineKind::Separator => theme::elapsed(),
        }
    }

    /// Assistant prose draws its gutter on the first line only and aligns the
    /// rest under the body.
    #[verifier::allow_in_spec]
    pub fn gutter_once(self) -> bool
        returns
            (self == LineKind::Text),
    {
        self == LineKind::Text
    }

    /// What the row's gutter shows.
    pub open spec fn gutter_text(self) -> Seq<char> {
        match self {
            LineKind::User => "› "@,
            LineKind::Shell => "$ "@,
            LineKind::Text => "∙ "@,
            _ => "  "@,
        }
    }

    /// What the row's gutter shows.
    pub fn gutter(self) -> (g: &'static str)
        ensures
            g@ == self.gutter_text(),
    {
        match self {
            LineKind::User => "› ",
            LineKind::Shell => "$ ",
            LineKind::Text => "∙ ",
            _ => "  ",
        }
    }
}

/// A line that folds and unfolds a body when it is clicked: which wrapped line
/// it is, and the path from its row to the body.
pub struct Header {
    pub line: usize,
    pub path: Vec<usize>,
}

/// What a header points at.
#[verifier::ext_equal]
pub struct HeaderView {
    pub line: nat,
    pub path: Seq<usize>,
}

impl View for Header {
    type V = HeaderView;

    open spec fn view(&self) -> HeaderView {
        HeaderView { line: self.line as nat, path: self.path@ }
    }
}

impl Header {
    /// The same header again.
    pub fn copy(&self) -> (h: Header)
        ensures
            h@ == self@,
    {
        Header { line: self.line, path: self.path.clone() }
    }

    /// Whether two headers point at the same line and body.
    pub fn same(&self, other: &Header) -> (yes: bool)
        ensures
            yes == (self@ == other@),
    {
        if self.line != other.line || self.path.len() != other.path.len() {
            return false;
        }
        let mut i: usize = 0;
        while i < self.path.len()
            invariant
                i <= self.path@.len() == other.path@.len(),
                forall|j: int| 0 <= j < i ==> self.path@[j] == other.path@[j],
            decreases self.path.len() - i,
        {
            if self.path[i] != other.path[i] {
                return false;
            }
            i += 1;
        }
        assert(self@ =~= other@);
        true
    }
}

} // verus!
