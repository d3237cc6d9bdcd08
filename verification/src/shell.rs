//! Recognising and reflowing shell commands.
pub mod continuation;
pub mod detect;
pub mod detect_helpers;
pub mod heredoc;
pub mod laws;
pub mod quotes;
pub mod reflow;
