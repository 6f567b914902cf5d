//! The state of the interactive monitor: its texts, its windows and what
//! its keys do.

pub mod text_storage;
pub mod help_window;
pub mod main_window;
