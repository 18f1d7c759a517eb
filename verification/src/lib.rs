//! Client side of the S7 protocol over ISO-on-TCP: the request telegrams, the
//! parsing of what the PLC answers, and the engine that drives a transport.

use vstd::prelude::*;

pub mod block;
pub mod client;
pub mod constant;
pub mod control;
pub mod error;
pub mod field;
pub mod multi;
pub mod szl;
pub mod transfer;
pub mod transport;

verus! {

/// Stores the two bytes of `source` at `start` and `start + 1` of `destination`.
pub fn write_word_at(start: usize, source: &[u8; 2], destination: &mut Vec<u8>)
    requires
        start + 1 < old(destination).len(),
    ensures
        final(destination)@ == old(destination)@.update(start as int, source[0]).update(
            start + 1,
            source[1],
        ),
{
    destination[start] = source[0];
    destination[start + 1] = source[1];
}

} // verus!
