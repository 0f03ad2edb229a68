//! Nanosecond timestamps.
use vstd::prelude::*;

verus! {

/// The timestamp for a clock that stands `elapsed` nanoseconds after the Unix
/// epoch: the low 64 bits of that number, and zero where the clock stands
/// before the epoch.
pub open spec fn timestamp(elapsed: Option<u128>) -> u64 {
    match elapsed {
        Some(nanos) => (nanos % 0x1_0000_0000_0000_0000) as u64,
        None => 0,
    }
}

/// Nanoseconds from the Unix epoch to the current time, by
/// `std::time::SystemTime::elapsed` on `std::time::UNIX_EPOCH`, or `None` where
/// that call fails because the clock stands before the epoch.
///
/// The result depends on the machine's clock, so nothing is claimed of it.
#[verifier::external_body]
fn nanos_since_epoch() -> (elapsed: Option<u128>) {
    match std::time::UNIX_EPOCH.elapsed() {
        Ok(duration) => Some(duration.as_nanos()),
        Err(_) => None,
    }
}

/// Turns a clock reading into a timestamp.
pub fn timestamp_from(elapsed: Option<u128>) -> (nanos: u64)
    ensures
        nanos == timestamp(elapsed),
        elapsed is None ==> nanos == 0,
        elapsed matches Some(n) ==> n <= u64::MAX ==> nanos == n,
{
    match elapsed {
        Some(nanos) => {
            assert(nanos as u64 == nanos % 0x1_0000_0000_0000_0000) by (bit_vector);
            nanos as u64
        },
        None => 0,
    }
}

/// The current time as a timestamp. It depends on the machine's clock, so
/// nothing is claimed of it; what is made of a clock reading is stated of
/// `timestamp_from`.
pub(crate) fn nanos_now() -> (nanos: u64) {
    let elapsed = nanos_since_epoch();
    timestamp_from(elapsed)
}

} // verus!
