//! Renders a text template whose variable values are computed at run time:
//! from an embedded scripting language, from a single external command, or
//! from a sequence of external commands whose outputs are joined.  Scripted
//! functions can additionally be exposed as template filters.
//!
//! The crate holds the resolution-and-rendering logic itself: the data model
//! describing how each variable or filter is produced, the shell-choice
//! precedence policy, the assembly of scripted function definitions, the
//! processing of captured command output, and the construction of the final
//! name-to-value context.  Process spawning, file reading and flag parsing
//! live outside the library and hand it plain values.

pub mod commands;
pub mod config;
pub mod context;
pub mod provision;
pub mod render;
pub mod report;
pub mod script;
pub mod shell;
pub mod text;
