//! Interactive command execution engine for a small time-management CLI:
//! a hierarchical command trie mapping token sequences to handlers, a
//! raw-mode line editor turning single keystrokes into an edited line,
//! and the dispatch logic that connects them to the session state.

pub mod conz;
pub mod editor;
pub mod data;
pub mod state;
pub mod commands;
pub mod parser;
