//! Runner gateway core: the verified logic of a WebSocket endpoint that
//! multiplexes a fleet of runner processes with a workflow engine and a
//! per-actor key/value store.
//!
//! - `codec` and `wire`: the versioned binary framing of runner messages,
//!   with decoding proved to invert encoding;
//! - `registry`: the runner-id -> connection map and its single-writer
//!   guarantees;
//! - `url_params`: the upgrade URL's required query parameters;
//! - `gateway`: every decision of the handshake, the per-connection read
//!   loop, the KV authorization, the command fan-in and the ping aggregator;
//! - `error`: the `ws` error taxonomy and its close frames.
//!
//! Socket I/O, timers and the external operations stay outside; they feed
//! these functions plain values and act on what comes back.

pub mod ids;
pub mod protocol;
pub mod registry;
pub mod wire;
pub mod codec;
pub mod error;
pub mod gateway;
pub mod url_params;

use vstd::prelude::*;

verus! {

/// Milliseconds between two ping-aggregation sweeps.
pub const UPDATE_PING_INTERVAL_MS: u64 = 3000;

/// Round-trip time computed from a ping timestamp: the elapsed
/// milliseconds, clamped below at zero and above at `u32::MAX`.
pub open spec fn spec_rtt(now_ms: int, ts: int) -> int {
    let diff = now_ms - ts;
    if diff < 0 {
        0
    } else if diff > u32::MAX {
        u32::MAX as int
    } else {
        diff
    }
}

/// Compute the round-trip time carried by a runner ping: the difference
/// between the gateway clock and the peer's timestamp, saturating at zero
/// (clock skew) and at `u32::MAX` (the registry stores it in 32 bits).
pub fn rtt_from_ping(now_ms: i64, ts: i64) -> (rtt: u32)
    ensures
        rtt as int == spec_rtt(now_ms as int, ts as int),
{
    match now_ms.checked_sub(ts) {
        Some(diff) => {
            if diff < 0 {
                0
            } else if diff > u32::MAX as i64 {
                u32::MAX
            } else {
                diff as u32
            }
        },
        None => {
            if ts < 0 {
                u32::MAX
            } else {
                0
            }
        },
    }
}

} // verus!
