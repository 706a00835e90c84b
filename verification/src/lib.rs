//! State management for a small to-do list: an ordered list of items with
//! unique identifiers, the text of a pending input field, and the four
//! update messages that drive them.

pub mod app;
pub mod ids;
pub mod item;
pub mod laws;
pub mod msg;
pub mod render;
pub mod state;
