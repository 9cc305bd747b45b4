//! State shared with the health check server: when it was last pinged.

use std::sync::atomic::AtomicU64;
use std::sync::atomic::Ordering;
use std::sync::Arc;
use vstd::prelude::*;

verus! {

/// The time of the last health check, in seconds since the Unix epoch (0
/// before the first one), shared between the server's handlers.
#[derive(Clone)]
pub struct ServerState {
    pub last_ping: Arc<AtomicU64>,
}

/// The stored form of a time in seconds, as `seconds as u64` gives it: the
/// same number when it is not negative, else its two's complement.
pub fn ping_timestamp(unix_seconds: i64) -> (stamp: u64)
    ensures
        stamp as int == if unix_seconds >= 0 {
            unix_seconds as int
        } else {
            unix_seconds + 0x1_0000_0000_0000_0000
        },
{
    proof {
        assert(unix_seconds < 0 ==> unix_seconds as u64 == unix_seconds + 0x1_0000_0000_0000_0000)
            by (bit_vector);
    }
    unix_seconds as u64
}

impl ServerState {
    /// A state that has not been pinged yet.
    pub fn new() -> (state: ServerState) {
        ServerState { last_ping: Arc::new(AtomicU64::new(0)) }
    }

    /// Records that a health check arrived at `unix_seconds` (seconds since
    /// the Unix epoch, as the caller read the clock).
    pub fn update_ping(&self, unix_seconds: i64) {
        self.last_ping.store(ping_timestamp(unix_seconds), Ordering::SeqCst);
    }
}

} // verus!
