//! Default limits. Time budgets are counted in nanoseconds.
use vstd::prelude::*;

verus! {

/// Default time budget for establishing the outbound TCP connection to the
/// requested destination: thirty seconds.
///
/// This bounds only connection establishment, never the relay that follows, so
/// a long-lived proxied connection is unaffected once it is up.
pub const DEFAULT_CONNECT_TIMEOUT: u128 = 30_000_000_000;

/// Default time budget for the whole SOCKS5 handshake (greeting + auth) before
/// the server gives up on a slow or stalled client: thirty seconds. Protects
/// against slowloris-style connections that trickle bytes to hold a task open.
pub const DEFAULT_HANDSHAKE_TIMEOUT: u128 = 30_000_000_000;

/// Default maximum number of client connections handled at once.
///
/// Accepted connections beyond this limit wait in the accept loop until a
/// slot frees, applying kernel-level backpressure instead of spawning an
/// unbounded number of tasks/actors.
pub const DEFAULT_MAX_CONNECTIONS: usize = 1024;

/// Both time budgets are thirty seconds unless configured otherwise, and 1024
/// clients are served at once.
pub proof fn law_defaults()
    ensures
        DEFAULT_CONNECT_TIMEOUT == 30 * 1_000_000_000,
        DEFAULT_HANDSHAKE_TIMEOUT == 30 * 1_000_000_000,
        DEFAULT_MAX_CONNECTIONS == 1024,
{
}

} // verus!
