//! Raw events as the source delivers them: which of them count as hits, and
//! which are dropped before any algorithm sees them.

use vstd::prelude::*;

verus! {

/// The status byte of the duplicate triggers that some pedals send. An event
/// that starts with it never reaches an algorithm.
pub const SUPPRESSED_STATUS: u8 = 169;

/// Whether a raw event is a hit: exactly three bytes, the last of them
/// (the velocity) not zero.
pub open spec fn is_hit(message: Seq<u8>) -> bool {
    message.len() == 3 && message[2] != 0
}

/// Whether a raw event is one of the duplicate triggers that are dropped.
/// An empty event is not: it is handed on, and no algorithm takes it for a hit.
pub open spec fn is_suppressed(message: Seq<u8>) -> bool {
    message.len() > 0 && message[0] == SUPPRESSED_STATUS
}

/// Recognizes a hit. Events of any other shape are no hits, and no errors.
pub fn hit(message: &[u8]) -> (r: bool)
    ensures
        r == is_hit(message@),
{
    message.len() == 3 && message[2] != 0
}

/// Recognizes an event that is to be dropped unseen.
pub fn suppressed(message: &[u8]) -> (r: bool)
    ensures
        r == is_suppressed(message@),
{
    message.len() > 0 && message[0] == SUPPRESSED_STATUS
}

} // verus!
