//! Release contexts from a commit range: the commit log and the changes,
//! the issues that the log mentions, one document of them all, and the
//! reading of what a text-generation endpoint makes of it. The library
//! performs no input or output: it says what to run and what to send, and
//! reads what came back.

pub mod batch;
pub mod context;
pub mod git;
pub mod http;
pub mod jira;
pub mod job;
pub mod json;
pub mod ollama;
pub mod order;
pub mod pattern;
pub mod stream;
pub mod text;

pub use context::{generate_context, with_system_prompt};
pub use git::{get_git_diff, get_git_log, list_git_refs, run_git_command};
pub use ollama::{call_ollama, list_ollama_models};
