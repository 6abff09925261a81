//! A millisecond-resolution wall-clock reader. The value is advisory: packet
//! timestamps wrap silently in 32 bits and nothing depends on them.

use vstd::prelude::*;

verus! {

/// Milliseconds since the Unix epoch, truncated to 32 bits.
///
/// Relies on `std::time::SystemTime`: `now()` read through
/// `duration_since(UNIX_EPOCH)` and `Duration::as_millis`, truncated. The
/// clock decides the value, so nothing is promised of it; a clock set before
/// the epoch reads as zero rather than failing.
#[verifier::external_body]
pub fn get_time() -> u32 {
    match std::time::SystemTime::now().duration_since(std::time::UNIX_EPOCH) {
        Ok(d) => d.as_millis() as u32,
        Err(_) => 0,
    }
}

} // verus!
