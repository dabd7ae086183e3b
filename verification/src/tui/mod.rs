//! State of the terminal front end.

pub mod commands;
pub mod terminal_widget;
