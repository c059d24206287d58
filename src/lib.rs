//! Recall of the last shell command's output: deriving a stable identifier
//! for the current terminal session, building the record of a captured
//! command, choosing which stored record a retrieval returns, and the shell
//! hook's configuration text.

pub mod capture;
pub mod chars;
pub mod hooks;
pub mod session;
pub mod store;
