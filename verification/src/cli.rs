//! What the command line asks for.
use vstd::prelude::*;
use vstd::string::*;

use crate::components::event::{copy_text, text_view};
use crate::text;

verus! {

/// How the program is called.
pub const USAGE: &'static str =
    "usage: oven [-C DIR] [--session ID] [--continue] [-Q|--query QUERY]";

/// The arguments of the command line.
#[derive(Debug)]
pub struct Cli {
    /// The workspace root.
    pub dir: String,
    /// The session to resume and to persist.
    pub session: Option<String>,
    /// Whether to resume the most recent session of the workspace root.
    pub resume: bool,
    /// A query to run once.
    pub query: Option<String>,
}

/// Which session to open.
#[derive(Debug)]
pub enum SessionChoice {
    /// A new one.
    New,
    /// The one with this id.
    Named(String),
    /// The most recent one of the workspace root.
    Recent,
}

/// Which session to open.
pub enum SessionView {
    New,
    Named(Seq<char>),
    Recent,
}

impl View for SessionChoice {
    type V = SessionView;

    open spec fn view(&self) -> SessionView {
        match self {
            SessionChoice::New => SessionView::New,
            SessionChoice::Named(id) => SessionView::Named(id@),
            SessionChoice::Recent => SessionView::Recent,
        }
    }
}

/// What the program does.
#[derive(Debug)]
pub enum Run {
    /// Answers a query and ends.
    Headless(String),
    /// Runs the interface.
    Interactive(SessionChoice),
    /// Says how it is called, and ends with code 2.
    Usage,
}

/// What the program does.
pub enum RunView {
    Headless(Seq<char>),
    Interactive(SessionView),
    Usage,
}

impl View for Run {
    type V = RunView;

    open spec fn view(&self) -> RunView {
        match self {
            Run::Headless(q) => RunView::Headless(q@),
            Run::Interactive(s) => RunView::Interactive(s@),
            Run::Usage => RunView::Usage,
        }
    }
}

/// The arguments of the command line.
#[verifier::ext_equal]
pub struct CliView {
    pub dir: Seq<char>,
    pub session: Option<Seq<char>>,
    pub resume: bool,
    pub query: Option<Seq<char>>,
}

impl View for Cli {
    type V = CliView;

    open spec fn view(&self) -> CliView {
        CliView {
            dir: self.dir@,
            session: text_view(self.session),
            resume: self.resume,
            query: text_view(self.query),
        }
    }
}

impl CliView {
    /// The session to open: one that is named wins; otherwise the most recent
    /// one where it was asked for.
    pub open spec fn choice(self) -> SessionView {
        match self.session {
            Some(id) => SessionView::Named(id),
            None => if self.resume {
                SessionView::Recent
            } else {
                SessionView::New
            },
        }
    }

    /// The id of the session to open, given the most recent one.
    pub open spec fn session_id(self, recent: Option<Seq<char>>) -> Option<Seq<char>> {
        match self.choice() {
            SessionView::New => None,
            SessionView::Named(id) => Some(id),
            SessionView::Recent => recent,
        }
    }

    /// What the program does: a query goes first, the interface needs a terminal.
    pub open spec fn plan(self, terminal: bool) -> RunView {
        match self.query {
            Some(q) => RunView::Headless(text::trimmed(q)),
            None => if terminal {
                RunView::Interactive(self.choice())
            } else {
                RunView::Usage
            },
        }
    }
}

impl Cli {
    /// The session to open.
    pub fn choice(&self) -> (choice: SessionChoice)
        ensures
            choice@ == self@.choice(),
    {
        match &self.session {
            Some(id) => SessionChoice::Named(id.clone()),
            None => if self.resume {
                SessionChoice::Recent
            } else {
                SessionChoice::New
            },
        }
    }

    /// The id of the session to open. `recent` is the most recent session of the
    /// workspace root, where there is one.
    pub fn resolve_session_id(&self, recent: &Option<String>) -> (id: Option<String>)
        ensures
            text_view(id) == self@.session_id(text_view(*recent)),
    {
        match self.choice() {
            SessionChoice::New => None,
            SessionChoice::Named(id) => Some(id),
            SessionChoice::Recent => copy_text(recent),
        }
    }

    /// What the program does. `terminal` says whether it reads from and writes to
    /// a terminal.
    pub fn plan(&self, terminal: bool) -> (run: Run)
        ensures
            run@ == self@.plan(terminal),
    {
        match &self.query {
            Some(q) => Run::Headless(text::trim(q.as_str())),
            None => if terminal {
                Run::Interactive(self.choice())
            } else {
                Run::Usage
            },
        }
    }
}

/// A session that is named is opened, whatever else is asked for; without a name
/// and without a wish to resume, a new one is.
pub proof fn named_sessions_win(cli: CliView, recent: Option<Seq<char>>)
    ensures
        cli.session matches Some(id) ==> cli.session_id(recent) == Some(id),
        cli.session is None && !cli.resume ==> cli.session_id(recent) is None,
        cli.session is None && cli.resume ==> cli.session_id(recent) == recent,
{
}

/// A query is answered whatever else is asked for, without the whitespace around
/// it; without one the interface runs where there is a terminal, with the session
/// that was asked for, and else the usage is told.
pub proof fn queries_go_first(cli: CliView, terminal: bool)
    ensures
        cli.query matches Some(q) ==> cli.plan(terminal) == RunView::Headless(text::trimmed(q)),
        cli.query is None && terminal ==> cli.plan(terminal) == RunView::Interactive(cli.choice()),
        cli.query is None && !terminal ==> cli.plan(terminal) == RunView::Usage,
{
}

} // verus!
