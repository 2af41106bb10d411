//! Discovery layer: makes Deskmate peers visible to each other on a LAN.
//!
//! Two channels feed one registry: mDNS/DNS-SD browsing of
//! `_deskmate._tcp.local.` and periodic UDP multicast announcements for
//! networks that block mDNS. Either channel is enough on its own. Peers
//! announce every five seconds, go offline after fifteen seconds of silence,
//! and send a goodbye on a graceful exit.

use vstd::prelude::*;

use crate::protocol::{PeerInfo, PeerInfoView};

pub mod addrs;
pub mod announce;
pub mod registry;
pub mod service;

use addrs::IpAddr;

verus! {

/// An online peer on the LAN.
#[derive(Debug)]
pub struct Peer {
    /// Device information: ID, name, fingerprint, and platform.
    pub info: PeerInfo,
    /// Candidate addresses, non-loopback IPv4 first, all interfaces retained.
    pub addrs: Vec<IpAddr>,
    /// TCP port shared by control and data channels.
    pub port: u16,
}

/// The contents of a [`Peer`].
pub struct PeerView {
    pub info: PeerInfoView,
    pub addrs: Seq<IpAddr>,
    pub port: u16,
}

impl View for Peer {
    type V = PeerView;

    open spec fn view(&self) -> PeerView {
        PeerView { info: self.info@, addrs: self.addrs@, port: self.port }
    }
}

impl Peer {
    /// A copy of this peer.
    pub fn duplicate(&self) -> (r: Peer)
        ensures
            r@ == self@,
    {
        let addrs = self.addrs.clone();
        assert(addrs@ =~= self.addrs@);
        Peer { info: self.info.duplicate(), addrs, port: self.port }
    }

    /// Both describe the same peer with the same addresses and port.
    pub fn same_as(&self, other: &Peer) -> (r: bool)
        ensures
            r == (self@ == other@),
    {
        self.info.same_as(&other.info) && addrs::addrs_eq(&self.addrs, &other.addrs) && self.port
            == other.port
    }
}

/// Peer availability event.
#[derive(Debug)]
pub enum PeerEvent {
    /// A peer came online or changed its information.
    Up(Peer),
    /// A peer went offline; the value is its certificate fingerprint.
    Down(String),
}

/// The contents of a [`PeerEvent`].
pub enum PeerEventView {
    Up(PeerView),
    Down(Seq<char>),
}

impl View for PeerEvent {
    type V = PeerEventView;

    open spec fn view(&self) -> PeerEventView {
        match self {
            PeerEvent::Up(p) => PeerEventView::Up(p@),
            PeerEvent::Down(f) => PeerEventView::Down(f@),
        }
    }
}

/// The contents of a list of events.
pub open spec fn events_view(v: Seq<PeerEvent>) -> Seq<PeerEventView> {
    v.map_values(|e: PeerEvent| e@)
}

/// The contents of a list of peers.
pub open spec fn peers_view(v: Seq<Peer>) -> Seq<PeerView> {
    v.map_values(|p: Peer| p@)
}

} // verus!
