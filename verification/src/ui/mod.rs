//! The plain interface: widgets without frames, one below the other.
pub mod component;
pub mod event;
pub mod info;
pub mod input;
pub mod laws;
pub mod layout;
pub mod queue;
pub mod setup_wizard;
pub mod status;
pub mod todos;
pub mod transcript;
pub mod ui;
pub mod usage;
