//! deskmate: the LAN transfer engine's decision logic, verified.
//!
//! The library holds the data model and the rules of the engine: path
//! sanitization, the framed control protocol, the peer registry that merges
//! mDNS and UDP discovery, the pairing-PIN gate, the receiver's task table,
//! resume negotiation, and the text that the desktop shell shows. Sockets,
//! files and timers are left to the program that drives it.

use vstd::prelude::*;

pub mod config;
pub mod console;
pub mod desktop;
pub mod discovery;
pub mod format;
pub mod identity;
pub mod protocol;
pub mod tls;
pub mod text;
pub mod transfer;

verus! {

/// Protocol version (`major.minor`) negotiated during the handshake.
///
/// Different major versions cannot communicate; minor versions stay backward compatible.
pub const PROTOCOL_VERSION: &'static str = "1.5";

/// Default TCP listening port shared by control and data channels.
pub const DEFAULT_TCP_PORT: u16 = 42424;

/// Default UDP multicast discovery port used as an mDNS fallback.
pub const DEFAULT_DISCOVERY_PORT: u16 = 42425;

} // verus!
