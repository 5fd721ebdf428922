//! The record of a session, as rows of text.
pub mod base64;
pub mod kinds;
pub mod drawing;
pub mod events;
pub mod laws;
pub mod model;
pub mod pointer;
pub mod selection;
pub mod tools;
pub mod widget;
pub mod wrap;
