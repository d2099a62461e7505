//! Drivers for language models that are reached through a local command-line tool.
//!
//! Each driver turns a completion request into a command line, watches the child
//! process that runs it, and reads the JSON lines it prints back into a response.
//! The library holds the decisions; whoever embeds it starts the processes.

pub mod text;
pub mod json;
pub mod pattern;
pub mod message;
pub mod command;
pub mod env_filter;
pub mod prompt;
pub mod events;
pub mod codex_cli;
pub mod gemini_cli;
pub mod pids;
pub mod backend;
pub mod stream;
pub mod launch;
pub mod run;
pub mod laws;
