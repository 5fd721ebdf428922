//! The row that names the model and the working directory.
use vstd::prelude::*;
use vstd::string::*;

use crate::components::sizing;
use crate::components::sizing::display_path_with_home;
use crate::components::status;
use crate::components::theme;
use crate::style::{Color, Line, Span, Style};
use crate::style;
use crate::text;

verus! {

/// One-line model / working-directory indicator below the input.
pub struct InfoBar {
    model: String,
    root: String,
}

/// What the indicator names.
#[verifier::ext_equal]
pub struct InfoView {
    pub model: Seq<char>,
    pub root: Seq<char>,
}

impl View for InfoBar {
    type V = InfoView;

    closed spec fn view(&self) -> InfoView {
        InfoView { model: self.model@, root: self.root@ }
    }
}

impl InfoView {
    /// The line of the indicator.
    pub open spec fn line(self) -> Seq<style::SpanView> {
        seq![
            status::span(" "@ + self.model, Style::fg(Color::Yellow)),
            status::span(" · "@, theme::dim()),
            status::span(self.root, Style::fg(Color::Green)),
        ]
    }
}

impl InfoBar {
    /// An indicator for a model at a root directory. `home` is the home
    /// directory, where it is known.
    pub fn new(model: String, root: &str, home: Option<&str>) -> (bar: Self)
        ensures
            bar@ == (InfoView {
                model: model@,
                root: match home {
                    Some(home) => sizing::home_path(root@, home@),
                    None => root@,
                },
            }),
    {
        let root = match home {
            Some(home) => display_path_with_home(root, home),
            None => root.to_owned(),
        };
        InfoBar { model, root }
    }

    /// The line of the indicator.
    pub fn draw(&self) -> (line: Line)
        ensures
            line@ == self@.line(),
    {
        let line = Line {
            spans: vec![
                Span::styled(text::concat(" ", self.model.as_str()), Style::fg(Color::Yellow)),
                Span::styled(" · ".to_owned(), theme::dim()),
                Span::styled(self.root.clone(), Style::fg(Color::Green)),
            ],
        };
        assert(line@ =~= self@.line());
        line
    }
}

/// The row names the model first and the working directory behind it, both whole.
pub proof fn the_row_names_model_and_place(v: InfoView)
    ensures
        style::line_text(v.line()) == " "@ + v.model + " · "@ + v.root,
{
    let line = v.line();
    let two = line.drop_last();
    let one = two.drop_last();
    reveal_with_fuel(style::line_text, 4);
    assert(one.drop_last() =~= Seq::empty());
    assert(style::line_text(line) =~= " "@ + v.model + " · "@ + v.root);
}

} // verus!
