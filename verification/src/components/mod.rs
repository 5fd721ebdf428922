//! The widgets of the terminal interface.
pub mod choice_popup;
pub mod collapsible;
pub mod commands;
pub mod component;
pub mod composer;
pub mod event;
pub mod file_mention_popup;
pub mod input;
pub mod laws;
pub mod layout;
pub mod list;
pub mod model_picker;
pub mod outbox;
pub mod paste_burst;
pub mod queue;
pub mod setup_wizard;
pub mod shell;
pub mod sizing;
pub mod slash_command_popup;
pub mod status;
pub mod theme;
pub mod todos;
pub mod transcript;
pub mod ui;
