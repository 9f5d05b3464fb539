//! qqqa: the safety core of a terminal assistant.
//!
//! The library classifies shell commands proposed by a language model,
//! guards filesystem paths against escapes from the allowed roots, and
//! models the decisions of the command launcher (backend selection,
//! stream collection, summary formatting). All I/O stays with the caller;
//! every function here is pure and verified.

pub mod ai;
pub mod config;
pub mod formatting;
pub mod history;
pub mod perms;
pub mod prompt;
pub mod shell;
pub mod text;
pub mod tools;
