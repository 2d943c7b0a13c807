//! The serial feed: which lines carry a packet, and how the line reader
//! reacts to what a read gives back.

pub mod parser;
pub mod reader;
