//! The state of the simple closable panels.

pub mod console;
pub mod field;
pub mod graph;
