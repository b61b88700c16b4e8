//! A typing-speed trainer engine: the session state machine, the
//! per-keystroke diff against a passage, the backspace policy and the
//! statistics derived from them.

pub mod chars;
pub mod diff;
pub mod backspace;
pub mod stats;
pub mod text;
pub mod corpus;
pub mod config;
pub mod types;
pub mod keys;
pub mod app;
pub mod game;
pub mod input;
