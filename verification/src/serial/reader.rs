//! The decisions of the line reader that runs on the serial port.

use vstd::prelude::*;
use crate::text::{trim_end, trim_end_seq};

verus! {

/// What one `read_line` on the port gave back.
pub enum ReadOutcome {
    /// Nothing was read.
    Empty,
    /// A line was read into the buffer (with its line ending).
    Line(String),
    /// The read timed out.
    TimedOut,
    /// The read failed in another way.
    Failed,
}

/// What the reader does next.
pub enum ReadStep {
    /// Read again.
    Continue,
    /// Hand this line on, then read again.
    Deliver(String),
    /// Stop reading.
    Stop,
}

/// The reader's answer to a read: an empty read or a timeout reads again,
/// a line is handed on without its trailing whitespace, any other failure
/// stops the reader.
pub fn next_step(outcome: ReadOutcome) -> (r: ReadStep)
    ensures
        outcome is Empty ==> r is Continue,
        outcome is TimedOut ==> r is Continue,
        outcome is Failed ==> r is Stop,
        outcome matches ReadOutcome::Line(buf) ==> (r matches ReadStep::Deliver(l) && l@
            == trim_end_seq(buf@)),
{
    match outcome {
        ReadOutcome::Empty => ReadStep::Continue,
        ReadOutcome::Line(buf) => ReadStep::Deliver(trim_end(buf.as_str())),
        ReadOutcome::TimedOut => ReadStep::Continue,
        ReadOutcome::Failed => ReadStep::Stop,
    }
}

} // verus!
