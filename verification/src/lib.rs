//! A verified core for a launch-item manager: a tolerant parser for the
//! dump text of the platform's launch-item listing, and the state machine
//! of the terminal session that browses and deletes the parsed entries.

pub mod parser;
pub mod render;
pub mod ui;
