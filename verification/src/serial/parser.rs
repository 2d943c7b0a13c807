//! Picks the lines of the serial feed that can hold a JSON packet.

use vstd::prelude::*;
use vstd::string::*;
use crate::text::{trim, trim_seq};

verus! {

/// The text of a line that may carry a packet: the line without leading and
/// trailing whitespace, when that starts with `'{'`; empty lines and lines
/// that are clearly not JSON objects give `None`.
pub open spec fn packet_text_of(line: Seq<char>) -> Option<Seq<char>> {
    let t = trim_seq(line);
    if t.len() > 0 && t[0] == '{' {
        Some(t)
    } else {
        None
    }
}

/// The text of `line` to hand to the JSON decoder, if the line may carry a
/// packet at all.
pub fn packet_text(line: &str) -> (r: Option<String>)
    ensures
        r is Some <==> packet_text_of(line@) is Some,
        r matches Some(t) ==> t@ == packet_text_of(line@)->0,
{
    let t = trim(line);
    if t.as_str().unicode_len() > 0 && t.as_str().get_char(0) == '{' {
        Some(t)
    } else {
        None
    }
}

} // verus!
