//! Engine tuning constants: heartbeats, timeouts, limits.
//!
//! Durations are in milliseconds, the unit of the clock readings that the
//! engine's decision functions take.

use vstd::prelude::*;

verus! {

// ---- Discovery layer ----

/// Interval between UDP multicast announcements.
pub const HEARTBEAT_INTERVAL_MS: u64 = 5000;

/// A peer goes offline after this long without a UDP heartbeat
/// (two consecutive heartbeats may be lost).
pub const PEER_TIMEOUT_MS: u64 = 15000;

/// TCP probe interval for peers visible only through mDNS and silent over UDP.
///
/// mDNS has no periodic heartbeat, so time alone cannot expire such a peer; a
/// failed probe triggers mDNS cache verification instead. It is at least
/// [`PEER_TIMEOUT_MS`] and well below the 120-second mDNS record lifetime.
pub const PEER_PROBE_INTERVAL_MS: u64 = 30000;

/// Total timeout per probe address, TCP connection and TLS handshake included.
pub const PEER_PROBE_TIMEOUT_MS: u64 = 2000;

/// Multicast receive silence after which membership is rebuilt, once multicast
/// has been received at least once.
pub const MULTICAST_SILENCE_TIMEOUT_MS: u64 = 60000;

/// Peer event channel capacity; events are dropped when full.
pub const EVENT_CHANNEL_CAP: usize = 64;

// ---- Transfer layer ----

/// Data-channel read/write block size (1 MiB).
pub const CHUNK_SIZE: usize = 1048576;

/// Timeout while waiting for a receiver decision; a person is in the loop.
pub const OFFER_TIMEOUT_MS: u64 = 300000;

/// Timeout for handshake and response messages.
pub const REPLY_TIMEOUT_MS: u64 = 30000;

/// TCP connection timeout for each candidate address.
pub const CONNECT_TIMEOUT_MS: u64 = 3000;

/// Kernel send and receive buffer limit for data connections.
pub const SOCKET_BUFFER_SIZE: usize = 4194304;

/// Files above this size bypass the page cache while they are transferred.
pub const NOCACHE_THRESHOLD: u64 = 67108864;

/// A data channel idle this long is interrupted, keeping resume state.
pub const DATA_IDLE_TIMEOUT_MS: u64 = 60000;

// ---- Receiver connection management ----

/// Maximum number of concurrent connections.
pub const MAX_CONCURRENT_CONNECTIONS: usize = 128;

/// Timeout for the unauthenticated phase: TLS handshake plus first frame.
pub const HANDSHAKE_TIMEOUT_MS: u64 = 30000;

/// Lifetime of an accepted task whose sender never opens a data connection.
pub const PENDING_TTL_MS: u64 = 300000;

/// Sweep interval for expired tasks.
pub const PENDING_SWEEP_INTERVAL_MS: u64 = 60000;

// ---- Receiver PIN gate ----

/// Rate-limit window for PIN attempts.
pub const PIN_WINDOW_MS: u64 = 60000;

/// Failed attempts allowed per window; a source that reaches it is refused for the rest of the window.
pub const PIN_MAX_FAILURES: u32 = 5;

/// Maximum number of sources (TLS fingerprints) tracked for PIN failures.
pub const PIN_TRACK_CAP: usize = 1024;

/// Period of the multicast membership watchdog.
pub const WATCHDOG_TICK_MS: u64 = 30000;

/// Gap between wall-clock and monotonic time that reveals a wake from sleep.
pub const STALL_JUMP_MS: u64 = 60000;

} // verus!
