//! Serial unit testing: a test script language for serial devices, its lexer
//! and parser, byte/text conversions and the state of the interactive monitor.

pub mod stdlib;
pub mod chars;
pub mod error;
pub mod utils;
pub mod tests;
pub mod parser;
pub mod serial;
pub mod commands;
pub mod monitor;
pub mod windows;
