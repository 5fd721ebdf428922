//! A terminal interface for a coding agent: what it shows, and how it reacts to
//! keys, the mouse and the agent.
//!
//! `components` holds the widgets of the framed interface, `ui` those of the
//! plain one, and `cli` what the command line asks for. The other modules are
//! what they build on: texts, widths, styles, keys and tables.
pub mod cli;
pub mod components;
pub mod keys;
pub mod seqs;
pub mod style;
pub mod table;
pub mod text;
pub mod ui;
pub mod width;
