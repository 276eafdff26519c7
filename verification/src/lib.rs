//! Core of an interactive command shell for querying robotics-competition
//! data: a context-stack driven command dispatcher, together with the
//! identifier classifier, the prompt renderer and the configuration record
//! it depends on.
//!
//! The shell keeps a stack of nested command contexts. Each input line is
//! split into a verb and arguments; the outermost context on the stack
//! decides which command table governs the line, and dispatch may look one
//! level further down the stack to find a more specific table. Commands can
//! push new contexts, pop them (`exit`), or route a fully resolved request
//! to an external collaborator. A `global` prefix evaluates one line as if
//! the stack were empty, without discarding it.

pub mod classify;
pub mod config;
pub mod context;
pub mod dispatch;
pub mod repl;
pub mod text;
pub mod tokenize;
