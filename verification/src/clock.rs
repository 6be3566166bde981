//! The wall clock, which only the caller of a verified function reads.

use vstd::prelude::*;

verus! {

/// Reads `SystemTime::now` as milliseconds since the Unix epoch; 0 where
/// the clock stands before the epoch. Nothing is claimed of the value.
#[verifier::external_body]
pub(crate) fn unix_millis() -> (now: u64) {
    std::time::SystemTime::now().duration_since(std::time::UNIX_EPOCH).map(
        |d| d.as_millis() as u64,
    ).unwrap_or(0)
}

} // verus!
