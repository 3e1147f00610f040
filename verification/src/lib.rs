//! Core of an interactive database shell: the multi-line completeness
//! detector, the two-tier command classifier, and the session state machine
//! that ties input, history and dispatch together.

pub mod meta;
pub mod repl;
pub mod session;
pub mod sql;
pub mod text;
