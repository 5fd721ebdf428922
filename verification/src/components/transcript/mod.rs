//! The scrolling record of a session.
pub mod collapsible;
pub mod kinds;
pub mod wrap;
pub mod drawing;
pub mod events;
pub mod laws;
pub mod pointer;
pub mod restored;
pub mod model;
pub mod screen;
pub mod selection;
pub mod tools;
pub mod widget;
