//! What the library promises as a whole.
//!
//! The laws say what the operations do by how their results relate: to their inputs, to
//! the results for other inputs, and to the words that the tools and their users know.

pub mod text;
pub mod prompt;
pub mod args;
pub mod env;
pub mod json;
pub mod codex;
pub mod gemini;
pub mod reply;
pub mod run;
pub mod views;
pub mod pids;
