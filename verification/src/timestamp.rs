//! Points in time, as the wallet and transaction records store them.

use vstd::prelude::*;

verus! {

/// A point in time: whole seconds since the Unix epoch, and the nanoseconds
/// past those seconds.
#[derive(Clone, Copy, Debug, PartialEq, Eq, Structural)]
pub struct Timestamp {
    pub sec: i64,
    pub nsec: i32,
}

impl Timestamp {
    /// The nanoseconds lie within one second.
    pub open spec fn wf(self) -> bool {
        0 <= self.nsec < 1_000_000_000
    }
}

/// Reads the wall clock with `time::get_time`.
///
/// That function builds its result with `Timespec::new`, which asserts that the
/// nanoseconds lie in `0..1_000_000_000`; that range is all the contract
/// claims. Which instant comes back depends on the clock and is left unsaid:
/// two calls may give any two such values.
#[verifier::external_body]
pub(crate) fn now() -> (t: Timestamp)
    ensures
        t.wf(),
{
    let ts = time::get_time();
    Timestamp { sec: ts.sec, nsec: ts.nsec }
}

} // verus!
