//! The discovery service's decisions: which channels run, what stealth mode
//! and identity changes do to the advertisement, and what follows a failed
//! identity probe.
//!
//! The program owns the mDNS daemon, the UDP socket and the timers; it asks
//! these functions what to do and reports back.

use vstd::prelude::*;

use super::announce::service_fullname;
use super::announce::MDNS_SERVICE_TYPE;
use crate::protocol::{opt_view, PeerInfo, PeerInfoView};

verus! {

/// Discovery layer errors.
#[derive(Debug)]
pub enum DiscoveryError {
    /// Both mDNS and UDP multicast failed to initialize.
    AllChannelsFailed,
    /// A UDP socket operation failed; holds the error text.
    Io(String),
    /// An mDNS daemon operation failed; holds the error text.
    Mdns(String),
}

impl DiscoveryError {
    /// The text shown for this error.
    pub fn message(&self) -> (r: String)
        ensures
            r@ == match *self {
                DiscoveryError::AllChannelsFailed =>
                    "discovery unavailable: both mDNS and UDP multicast failed to initialize"@,
                DiscoveryError::Io(t) => "UDP multicast channel error: "@ + t@,
                DiscoveryError::Mdns(t) => "mDNS channel error: "@ + t@,
            },
    {
        match self {
            DiscoveryError::AllChannelsFailed => crate::text::to_string(
                "discovery unavailable: both mDNS and UDP multicast failed to initialize",
            ),
            DiscoveryError::Io(t) => {
                let mut s = crate::text::to_string("UDP multicast channel error: ");
                crate::text::push_str(&mut s, t.as_str());
                s
            },
            DiscoveryError::Mdns(t) => {
                let mut s = crate::text::to_string("mDNS channel error: ");
                crate::text::push_str(&mut s, t.as_str());
                s
            },
        }
    }
}

/// Discovery runs when at least one of its two channels started.
pub fn channels_started(mdns_ok: bool, udp_ok: bool) -> (r: Result<(), DiscoveryError>)
    ensures
        r is Ok <==> (mdns_ok || udp_ok),
        r matches Err(e) ==> e is AllChannelsFailed,
{
    if !mdns_ok && !udp_ok {
        Err(DiscoveryError::AllChannelsFailed)
    } else {
        Ok(())
    }
}

/// The advertisement state shared by stealth and identity updates.
#[derive(Debug)]
pub struct BroadcastState {
    /// Current advertised identity.
    pub info: PeerInfo,
    /// Stealth mode receives without transmitting.
    pub passive: bool,
    /// Full name of the registered mDNS service, when one is registered.
    pub mdns_fullname: Option<String>,
}

/// What the program does for a stealth-mode switch.
#[derive(Debug)]
pub enum StealthChange {
    /// Already in the requested mode: nothing.
    Unchanged,
    /// Entering stealth: send the current goodbye (twice, UDP being lossy)
    /// while it is still there, empty the packet set, and unregister this
    /// mDNS service, if one is registered.
    Enter {
        /// The mDNS service to unregister.
        unregister: Option<String>,
    },
    /// Leaving stealth: re-encode the packet set, register the mDNS service
    /// again (then report its name with [`BroadcastState::registered`]) and
    /// announce at once.
    Leave,
}

impl BroadcastState {
    /// The state at start-up.
    pub fn new(info: PeerInfo, passive: bool, mdns_fullname: Option<String>) -> (r: BroadcastState)
        ensures
            r.info@ == info@,
            r.passive == passive,
            opt_view(r.mdns_fullname) == opt_view(mdns_fullname),
    {
        BroadcastState { info, passive, mdns_fullname }
    }

    /// Switches stealth mode; switching to the current mode is a no-op.
    pub fn set_passive(&mut self, passive: bool) -> (r: StealthChange)
        ensures
            final(self).info@ == old(self).info@,
            final(self).passive == passive,
            old(self).passive == passive ==> r is Unchanged && opt_view(final(self).mdns_fullname)
                == opt_view(old(self).mdns_fullname),
            old(self).passive != passive && passive ==> (r matches StealthChange::Enter { unregister }
                && opt_view(unregister) == opt_view(old(self).mdns_fullname)) && final(self).mdns_fullname is None,
            old(self).passive != passive && !passive ==> r is Leave && opt_view(final(self).mdns_fullname)
                == opt_view(old(self).mdns_fullname),
    {
        if self.passive == passive {
            return StealthChange::Unchanged;
        }
        self.passive = passive;
        if passive {
            let unregister = self.mdns_fullname.take();
            StealthChange::Enter { unregister }
        } else {
            StealthChange::Leave
        }
    }

    /// Records the name of a service the program registered.
    pub fn registered(&mut self, fullname: String)
        ensures
            final(self).info@ == old(self).info@,
            final(self).passive == old(self).passive,
            opt_view(final(self).mdns_fullname) == Some(fullname@),
    {
        self.mdns_fullname = Some(fullname);
    }

    /// Replaces the advertised identity. Returns whether to announce it now
    /// (send the new announcement and register the mDNS service again), which
    /// stealth mode forbids; the packet set is re-encoded either way.
    pub fn update_info(&mut self, info: PeerInfo) -> (announce: bool)
        ensures
            final(self).info@ == info@,
            final(self).passive == old(self).passive,
            opt_view(final(self).mdns_fullname) == opt_view(old(self).mdns_fullname),
            announce == !old(self).passive,
    {
        self.info = info;
        !self.passive
    }

    /// Takes the registered service name at shutdown, so it is unregistered once.
    pub fn take_fullname(&mut self) -> (r: Option<String>)
        ensures
            final(self).info@ == old(self).info@,
            final(self).passive == old(self).passive,
            opt_view(r) == opt_view(old(self).mdns_fullname),
            final(self).mdns_fullname is None,
    {
        self.mdns_fullname.take()
    }
}

/// Whether an identity probe proved a peer alive: the TLS handshake must
/// have succeeded and shown the expected certificate fingerprint. A bare
/// connection proves nothing, since a stale address may now belong to
/// another device.
pub fn probe_proves_alive(expected_fp: &str, probed: &Option<String>) -> (r: bool)
    ensures
        r == (opt_view(*probed) == Some(expected_fp@)),
{
    match probed {
        Some(fp) => crate::text::str_eq(fp.as_str(), expected_fp),
        None => false,
    }
}

/// What follows an identity probe that found no live address.
#[derive(Debug)]
pub enum ProbeFollowUp {
    /// A UDP heartbeat arrived meanwhile: newer evidence, leave the peer alone.
    Keep,
    /// Ask the mDNS daemon to verify this service instance; its removal event
    /// takes the peer offline if nobody answers.
    Verify(String),
    /// No mDNS channel: take the peer offline directly.
    Remove,
}

/// Decides what follows a failed probe of the peer with device ID `device_id`.
pub fn after_failed_probe(device_id: &str, udp_fresh: bool, has_mdns: bool) -> (r: ProbeFollowUp)
    ensures
        udp_fresh ==> r is Keep,
        !udp_fresh && has_mdns ==> (r matches ProbeFollowUp::Verify(n) && n@ == device_id@
            + seq!['.'] + MDNS_SERVICE_TYPE@),
        !udp_fresh && !has_mdns ==> r is Remove,
{
    if udp_fresh {
        ProbeFollowUp::Keep
    } else if has_mdns {
        ProbeFollowUp::Verify(service_fullname(device_id))
    } else {
        ProbeFollowUp::Remove
    }
}

} // verus!
