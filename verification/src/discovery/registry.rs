//! The peer registry: merges mDNS and UDP sightings, tracks liveness per
//! channel, and reports the changes that the user interface shows.
//!
//! Liveness is kept separately per channel. mDNS has no periodic heartbeat: an
//! mDNS-visible peer goes away only through an explicit removal (goodbye or
//! record expiry) or a failed identity probe. UDP liveness expires when the
//! heartbeat has been silent longer than its timeout. A peer goes offline only
//! when both channels are dead, so a network that blocks multicast but passes
//! mDNS does not make peers flicker.
//!
//! Times are readings of a monotonic clock in milliseconds, passed in by the
//! caller.

use vstd::prelude::*;

use super::addrs::{
    keep_class, lemma_merge_keeps, lemma_normalize_keeps, link_local_spec, merge_addrs, merge_spec,
    normalize_addrs, normalize_spec,
    normalized_has_no_link_local, IpAddr,
};
use super::{events_view, peers_view, Peer, PeerEvent, PeerEventView, PeerView};
use crate::config::PEER_PROBE_INTERVAL_MS;

verus! {

/// Source channel of a sighting.
#[derive(Clone, Copy, Debug, PartialEq, Eq, Structural)]
pub enum PeerSource {
    /// Event-driven mDNS browsing.
    Mdns,
    /// Heartbeat-driven UDP multicast.
    Udp,
}

/// The state kept for one peer.
#[derive(Debug)]
pub struct PeerState {
    /// Peer information.
    pub peer: Peer,
    /// Latest UDP heartbeat, or `None` if never seen through UDP.
    pub last_udp: Option<u64>,
    /// mDNS liveness: set by a resolution, cleared by a removal or a failed probe.
    pub mdns_alive: bool,
    /// Start of the most recent identity probe; joining counts as one.
    pub last_probe: Option<u64>,
}

/// The contents of a [`PeerState`].
pub struct PeerStateView {
    pub peer: PeerView,
    pub last_udp: Option<u64>,
    pub mdns_alive: bool,
    pub last_probe: Option<u64>,
}

impl View for PeerState {
    type V = PeerStateView;

    open spec fn view(&self) -> PeerStateView {
        PeerStateView {
            peer: self.peer@,
            last_udp: self.last_udp,
            mdns_alive: self.mdns_alive,
            last_probe: self.last_probe,
        }
    }
}

impl PeerState {
    /// A copy of this state.
    pub fn duplicate(&self) -> (r: PeerState)
        ensures
            r@ == self@,
    {
        PeerState {
            peer: self.peer.duplicate(),
            last_udp: self.last_udp,
            mdns_alive: self.mdns_alive,
            last_probe: self.last_probe,
        }
    }
}

/// Peer registry keyed by certificate fingerprint.
pub struct Registry {
    /// Local fingerprint, used to ignore self-discovery.
    self_fingerprint: String,
    /// Online peers, at most one per fingerprint, in order of first sighting.
    peers: Vec<PeerState>,
}

/// The contents of a [`Registry`].
pub struct RegistryView {
    pub self_fp: Seq<char>,
    pub peers: Seq<PeerStateView>,
}

impl View for Registry {
    type V = RegistryView;

    closed spec fn view(&self) -> RegistryView {
        RegistryView { self_fp: self.self_fingerprint@, peers: self.peers@.map_values(|s: PeerState| s@) }
    }
}

// ---------------------------------------------------------------------------
// Specification
// ---------------------------------------------------------------------------

/// Milliseconds from `t` to `now`; zero if the clock reading is older than `t`.
pub open spec fn elapsed(t: u64, now: u64) -> int {
    if now >= t { now - t } else { 0 }
}

/// The fingerprint that keys a state.
pub open spec fn fp_of(s: PeerStateView) -> Seq<char> {
    s.peer.info.fingerprint
}

/// The index of the first state with fingerprint `fp`, or -1.
pub open spec fn pos(s: Seq<PeerStateView>, fp: Seq<char>) -> int
    decreases s.len(),
{
    if s.len() == 0 {
        -1
    } else {
        let k = pos(s.drop_last(), fp);
        if k >= 0 {
            k
        } else if fp_of(s.last()) == fp {
            s.len() - 1
        } else {
            -1
        }
    }
}

/// The index of the first state whose device ID is `id`, or -1.
pub open spec fn pos_device(s: Seq<PeerStateView>, id: Seq<char>) -> int
    decreases s.len(),
{
    if s.len() == 0 {
        -1
    } else {
        let k = pos_device(s.drop_last(), id);
        if k >= 0 {
            k
        } else if s.last().peer.info.device_id == id {
            s.len() - 1
        } else {
            -1
        }
    }
}

/// The registry's invariant: one state per fingerprint, never the local
/// device, and every stored peer has at least one usable address.
pub open spec fn wf_spec(r: RegistryView) -> bool {
    &&& forall|i: int, j: int|
        0 <= i < j < r.peers.len() ==> fp_of(#[trigger] r.peers[i]) != fp_of(#[trigger] r.peers[j])
    &&& forall|i: int| 0 <= i < r.peers.len() ==> fp_of(#[trigger] r.peers[i]) != r.self_fp
    &&& forall|i: int|
        0 <= i < r.peers.len() ==> (#[trigger] r.peers[i]).peer.addrs.len() > 0 && forall|k: int|
            0 <= k < r.peers[i].peer.addrs.len() ==> !link_local_spec(
                #[trigger] r.peers[i].peer.addrs[k],
            )
}

/// No events.
pub open spec fn no_events() -> Seq<PeerEventView> {
    Seq::empty()
}

/// Inserts or refreshes a peer seen through `src` at `now`.
///
/// Addresses are merged with those already known, then normalized; an update
/// left with no usable address changes nothing. `Up` is reported only when the
/// stored information changes. The other channel's liveness is preserved.
pub open spec fn upsert_spec(r: RegistryView, p: PeerView, src: PeerSource, now: u64) -> (
    RegistryView,
    Seq<PeerEventView>,
) {
    let fp = p.info.fingerprint;
    if fp == r.self_fp {
        (r, no_events())
    } else {
        let i = pos(r.peers, fp);
        let addrs = if i >= 0 {
            normalize_spec(merge_spec(r.peers[i].peer.addrs, p.addrs))
        } else {
            normalize_spec(p.addrs)
        };
        let np = PeerView { addrs: addrs, ..p };
        if addrs.len() == 0 {
            (r, no_events())
        } else {
            let changed = i < 0 || r.peers[i].peer != np;
            let base = if i >= 0 {
                r.peers[i]
            } else {
                PeerStateView { peer: np, last_udp: None, mdns_alive: false, last_probe: Some(now) }
            };
            let ns = PeerStateView {
                peer: np,
                last_udp: if src == PeerSource::Udp { Some(now) } else { base.last_udp },
                mdns_alive: if src == PeerSource::Mdns { true } else { base.mdns_alive },
                last_probe: base.last_probe,
            };
            let peers = if i >= 0 { r.peers.update(i, ns) } else { r.peers.push(ns) };
            (
                RegistryView { self_fp: r.self_fp, peers: peers },
                if changed { seq![PeerEventView::Up(np)] } else { no_events() },
            )
        }
    }
}

/// Removes the peer with fingerprint `fp`, reporting `Down` if it was present.
pub open spec fn remove_spec(r: RegistryView, fp: Seq<char>) -> (RegistryView, Seq<PeerEventView>) {
    let i = pos(r.peers, fp);
    if i < 0 {
        (r, no_events())
    } else {
        (
            RegistryView { self_fp: r.self_fp, peers: r.peers.remove(i) },
            seq![PeerEventView::Down(fp)],
        )
    }
}

/// The UDP heartbeat of `s` is older than `timeout`, or there never was one.
pub open spec fn udp_silent(s: PeerStateView, timeout: u64, now: u64) -> bool {
    match s.last_udp {
        None => true,
        Some(t) => elapsed(t, now) > timeout,
    }
}

/// mDNS reported the device `id` gone: its mDNS liveness is cleared, and it
/// goes offline unless a fresh UDP heartbeat still vouches for it.
pub open spec fn mdns_removed_spec(r: RegistryView, id: Seq<char>, udp_timeout: u64, now: u64) -> (
    RegistryView,
    Seq<PeerEventView>,
) {
    let i = pos_device(r.peers, id);
    if i < 0 {
        (r, no_events())
    } else {
        let s = r.peers[i];
        if udp_silent(s, udp_timeout, now) {
            (
                RegistryView { self_fp: r.self_fp, peers: r.peers.remove(i) },
                seq![PeerEventView::Down(fp_of(s))],
            )
        } else {
            (
                RegistryView {
                    self_fp: r.self_fp,
                    peers: r.peers.update(i, PeerStateView { mdns_alive: false, ..s }),
                },
                no_events(),
            )
        }
    }
}

/// A probe of `s` is due: an mDNS-only peer with a silent UDP channel whose
/// last probe is older than the probe interval.
pub open spec fn probe_due(s: PeerStateView, timeout: u64, now: u64) -> bool {
    &&& s.mdns_alive
    &&& udp_silent(s, timeout, now)
    &&& match s.last_probe {
        None => true,
        Some(t) => elapsed(t, now) > PEER_PROBE_INTERVAL_MS,
    }
}

/// The state of `s` after a sweep marks its probe.
pub open spec fn swept_state(s: PeerStateView, timeout: u64, now: u64) -> PeerStateView {
    if probe_due(s, timeout, now) {
        PeerStateView { last_probe: Some(now), ..s }
    } else {
        s
    }
}

/// A peer that both channels consider dead.
pub open spec fn expired(s: PeerStateView, timeout: u64, now: u64) -> bool {
    !s.mdns_alive && udp_silent(s, timeout, now)
}

/// The states that survive a sweep, with probe marks updated.
pub open spec fn sweep_survivors(s: Seq<PeerStateView>, timeout: u64, now: u64) -> Seq<PeerStateView>
    decreases s.len(),
{
    if s.len() == 0 {
        Seq::empty()
    } else {
        let prev = sweep_survivors(s.drop_last(), timeout, now);
        if expired(s.last(), timeout, now) {
            prev
        } else {
            prev.push(swept_state(s.last(), timeout, now))
        }
    }
}

/// The peers a sweep hands out for an identity probe.
pub open spec fn sweep_probes(s: Seq<PeerStateView>, timeout: u64, now: u64) -> Seq<PeerView>
    decreases s.len(),
{
    if s.len() == 0 {
        Seq::empty()
    } else {
        let prev = sweep_probes(s.drop_last(), timeout, now);
        if probe_due(s.last(), timeout, now) {
            prev.push(s.last().peer)
        } else {
            prev
        }
    }
}

/// The `Down` events of a sweep.
pub open spec fn sweep_downs(s: Seq<PeerStateView>, timeout: u64, now: u64) -> Seq<PeerEventView>
    decreases s.len(),
{
    if s.len() == 0 {
        Seq::empty()
    } else {
        let prev = sweep_downs(s.drop_last(), timeout, now);
        if expired(s.last(), timeout, now) {
            prev.push(PeerEventView::Down(fp_of(s.last())))
        } else {
            prev
        }
    }
}

/// A failed identity probe of `fp`: the peer goes offline unless a fresh UDP
/// heartbeat arrived in the meantime.
pub open spec fn probe_failed_spec(r: RegistryView, fp: Seq<char>, udp_timeout: u64, now: u64) -> (
    RegistryView,
    Seq<PeerEventView>,
) {
    let i = pos(r.peers, fp);
    if i < 0 || !udp_silent(r.peers[i], udp_timeout, now) {
        (r, no_events())
    } else {
        (
            RegistryView { self_fp: r.self_fp, peers: r.peers.remove(i) },
            seq![PeerEventView::Down(fp)],
        )
    }
}

// ---------------------------------------------------------------------------
// Lemmas
// ---------------------------------------------------------------------------

proof fn lemma_pos(s: Seq<PeerStateView>, fp: Seq<char>)
    ensures
        -1 <= pos(s, fp) < s.len(),
        pos(s, fp) == -1 <==> forall|j: int| 0 <= j < s.len() ==> fp_of(#[trigger] s[j]) != fp,
        pos(s, fp) >= 0 ==> fp_of(s[pos(s, fp)]) == fp && forall|j: int|
            0 <= j < pos(s, fp) ==> fp_of(#[trigger] s[j]) != fp,
    decreases s.len(),
{
    if s.len() > 0 {
        lemma_pos(s.drop_last(), fp);
        assert forall|j: int| 0 <= j < s.len() - 1 implies s[j] == s.drop_last()[j] by {}
    }
}

proof fn lemma_pos_device(s: Seq<PeerStateView>, id: Seq<char>)
    ensures
        -1 <= pos_device(s, id) < s.len(),
        pos_device(s, id) == -1 <==> forall|j: int|
            0 <= j < s.len() ==> (#[trigger] s[j]).peer.info.device_id != id,
        pos_device(s, id) >= 0 ==> s[pos_device(s, id)].peer.info.device_id == id && forall|j: int|
            0 <= j < pos_device(s, id) ==> (#[trigger] s[j]).peer.info.device_id != id,
    decreases s.len(),
{
    if s.len() > 0 {
        lemma_pos_device(s.drop_last(), id);
        assert forall|j: int| 0 <= j < s.len() - 1 implies s[j] == s.drop_last()[j] by {}
    }
}

proof fn lemma_remove_keeps_wf(r: RegistryView, i: int)
    requires
        wf_spec(r),
        0 <= i < r.peers.len(),
    ensures
        wf_spec(RegistryView { self_fp: r.self_fp, peers: r.peers.remove(i) }),
{
    let p = r.peers.remove(i);
    assert forall|a: int, b: int| 0 <= a < b < p.len() implies fp_of(#[trigger] p[a]) != fp_of(
        #[trigger] p[b],
    ) by {
        let a0 = if a < i { a } else { a + 1 };
        let b0 = if b < i { b } else { b + 1 };
        assert(p[a] == r.peers[a0]);
        assert(p[b] == r.peers[b0]);
    }
    assert forall|a: int| 0 <= a < p.len() implies fp_of(#[trigger] p[a]) != r.self_fp by {
        let a0 = if a < i { a } else { a + 1 };
        assert(p[a] == r.peers[a0]);
    }
    assert forall|a: int| 0 <= a < p.len() implies (#[trigger] p[a]).peer.addrs.len() > 0
        && forall|k: int|
        0 <= k < p[a].peer.addrs.len() ==> !link_local_spec(#[trigger] p[a].peer.addrs[k]) by {
        let a0 = if a < i { a } else { a + 1 };
        assert(p[a] == r.peers[a0]);
    }
}

// ---------------------------------------------------------------------------
// Implementation
// ---------------------------------------------------------------------------

impl Registry {
    /// An empty registry for the device with fingerprint `self_fingerprint`.
    pub fn new(self_fingerprint: String) -> (r: Registry)
        ensures
            r@.self_fp == self_fingerprint@,
            r@.peers == Seq::<PeerStateView>::empty(),
            r.wf(),
    {
        let r = Registry { self_fingerprint, peers: Vec::new() };
        assert(r@.peers =~= Seq::<PeerStateView>::empty());
        r
    }

    /// The registry's invariant holds.
    pub open spec fn wf(&self) -> bool {
        wf_spec(self@)
    }

    /// Whether `fingerprint` is the local device's own.
    pub fn is_self(&self, fingerprint: &str) -> (r: bool)
        ensures
            r == (fingerprint@ == self@.self_fp),
    {
        crate::text::str_eq(self.self_fingerprint.as_str(), fingerprint)
    }

    proof fn lemma_view(&self)
        ensures
            self@.peers.len() == self.peers@.len(),
            forall|j: int| 0 <= j < self.peers@.len() ==> #[trigger] self@.peers[j] == self.peers@[j]@,
    {
    }

    /// The index of the state with fingerprint `fp`.
    fn find(&self, fp: &String) -> (r: Option<usize>)
        ensures
            match r {
                Some(i) => i as int == pos(self@.peers, fp@) && i < self.peers@.len(),
                None => pos(self@.peers, fp@) == -1,
            },
            self@.peers.len() == self.peers@.len(),
    {
        proof {
            self.lemma_view();
        }
        proof {
            lemma_pos(self@.peers, fp@);
        }
        let mut i: usize = 0;
        while i < self.peers.len()
            invariant
                i <= self.peers.len(),
                self@.peers.len() == self.peers.len(),
                forall|j: int| 0 <= j < i ==> fp_of(#[trigger] self@.peers[j]) != fp@,
            decreases self.peers.len() - i,
        {
            if self.peers[i].peer.info.fingerprint == *fp {
                assert(fp_of(self@.peers[i as int]) == fp@);
                proof {
                    self.lemma_view();
                    lemma_pos(self@.peers, fp@);
                    let p = pos(self@.peers, fp@);
                    if p == -1 {
                        assert(fp_of(self@.peers[i as int]) != fp@);
                    } else if p < i {
                        assert(fp_of(self@.peers[p]) != fp@);
                    }
                    if p > i {
                        assert(fp_of(self@.peers[i as int]) != fp@);
                    }
                }
                return Some(i);
            }
            i = i + 1;
        }
        None
    }

    /// The index of the first state with device ID `id`.
    fn find_device(&self, id: &str) -> (r: Option<usize>)
        ensures
            match r {
                Some(i) => i as int == pos_device(self@.peers, id@) && i < self.peers@.len(),
                None => pos_device(self@.peers, id@) == -1,
            },
            self@.peers.len() == self.peers@.len(),
    {
        proof {
            self.lemma_view();
        }
        proof {
            lemma_pos_device(self@.peers, id@);
        }
        let mut i: usize = 0;
        while i < self.peers.len()
            invariant
                i <= self.peers.len(),
                self@.peers.len() == self.peers.len(),
                forall|j: int| 0 <= j < i ==> (#[trigger] self@.peers[j]).peer.info.device_id != id@,
            decreases self.peers.len() - i,
        {
            if crate::text::str_eq(self.peers[i].peer.info.device_id.as_str(), id) {
                proof {
                    self.lemma_view();
                    lemma_pos_device(self@.peers, id@);
                    let p = pos_device(self@.peers, id@);
                    if p == -1 {
                        assert(self@.peers[i as int].peer.info.device_id != id@);
                    } else if p < i {
                        assert(self@.peers[p].peer.info.device_id != id@);
                    }
                    if p > i {
                        assert(self@.peers[i as int].peer.info.device_id != id@);
                    }
                }
                return Some(i);
            }
            i = i + 1;
        }
        None
    }

    /// Inserts or refreshes a peer sighted through `source` at time `now`,
    /// emitting `Up` only when its information changes.
    ///
    /// mDNS contributes several addresses and UDP the packet's source address.
    /// They are merged, deduplicated and normalized (stable, IPv4 first), so
    /// alternating channels do not reorder the list. An update with no usable
    /// address is ignored until a later sighting provides one. The local
    /// device is never registered.
    pub fn upsert(&mut self, peer: Peer, source: PeerSource, now: u64) -> (r: Vec<PeerEvent>)
        requires
            old(self).wf(),
        ensures
            final(self).wf(),
            (final(self)@, events_view(r@)) == upsert_spec(old(self)@, peer@, source, now),
    {
        proof {
            self.lemma_view();
        }
        let ghost old_view = self@;
        let ghost pv = peer@;
        if peer.info.fingerprint == self.self_fingerprint {
            let r: Vec<PeerEvent> = Vec::new();
            assert(events_view(r@) =~= no_events());
            return r;
        }
        let found = self.find(&peer.info.fingerprint);
        let Peer { info, addrs, port } = peer;
        let addrs = match found {
            Some(i) => normalize_addrs(merge_addrs(&self.peers[i].peer.addrs, &addrs)),
            None => normalize_addrs(addrs),
        };
        proof {
            normalized_has_no_link_local(if found is Some {
                merge_spec(old_view.peers[found->0 as int].peer.addrs, pv.addrs)
            } else {
                pv.addrs
            });
        }
        if addrs.len() == 0 {
            let r: Vec<PeerEvent> = Vec::new();
            assert(events_view(r@) =~= no_events());
            return r;
        }
        let np = Peer { info, addrs, port };
        let (changed, last_udp, mdns_alive, last_probe) = match found {
            Some(i) => {
                let st = &self.peers[i];
                (!st.peer.same_as(&np), st.last_udp, st.mdns_alive, st.last_probe)
            },
            None => (true, None, false, Some(now)),
        };
        let last_udp = match source {
            PeerSource::Udp => Some(now),
            PeerSource::Mdns => last_udp,
        };
        let mdns_alive = match source {
            PeerSource::Mdns => true,
            PeerSource::Udp => mdns_alive,
        };
        let event_peer = np.duplicate();
        let ns = PeerState { peer: np, last_udp, mdns_alive, last_probe };
        let ghost nsv = ns@;
        match found {
            Some(i) => {
                self.peers.set(i, ns);
            },
            None => {
                self.peers.push(ns);
            },
        }
        proof {
            lemma_pos(old_view.peers, pv.info.fingerprint);
            let spec_peers = if found is Some {
                old_view.peers.update(found->0 as int, nsv)
            } else {
                old_view.peers.push(nsv)
            };
            assert(self@.peers =~= spec_peers);
            // The invariant is kept: the fingerprint is new or replaces its own slot.
            let p = self@.peers;
            assert forall|a: int, b: int| 0 <= a < b < p.len() implies fp_of(#[trigger] p[a])
                != fp_of(#[trigger] p[b]) by {
                if found is None {
                    if b == p.len() - 1 {
                        assert(p[a] == old_view.peers[a]);
                    } else {
                        assert(p[a] == old_view.peers[a] && p[b] == old_view.peers[b]);
                    }
                } else {
                    let fi = found->0 as int;
                    if a != fi && b != fi {
                        assert(p[a] == old_view.peers[a] && p[b] == old_view.peers[b]);
                    } else if a == fi {
                        assert(p[b] == old_view.peers[b]);
                        assert(fp_of(old_view.peers[fi]) == pv.info.fingerprint);
                    } else {
                        assert(p[a] == old_view.peers[a]);
                        assert(fp_of(old_view.peers[fi]) == pv.info.fingerprint);
                    }
                }
            }
            assert forall|a: int| 0 <= a < p.len() implies fp_of(#[trigger] p[a]) != self@.self_fp by {
                if (found is None && a < p.len() - 1) || (found is Some && a != found->0 as int) {
                    assert(p[a] == old_view.peers[a]);
                }
            }
            assert forall|a: int| 0 <= a < p.len() implies (#[trigger] p[a]).peer.addrs.len() > 0
                && forall|k: int|
                0 <= k < p[a].peer.addrs.len() ==> !link_local_spec(#[trigger] p[a].peer.addrs[k]) by {
                if (found is None && a < p.len() - 1) || (found is Some && a != found->0 as int) {
                    assert(p[a] == old_view.peers[a]);
                }
            }
        }
        let mut r: Vec<PeerEvent> = Vec::new();
        if changed {
            r.push(PeerEvent::Up(event_peer));
        }
        proof {
            let sv = upsert_spec(old_view, pv, source, now);
            assert(self@.peers == sv.0.peers);
            if changed {
                assert(events_view(r@) =~= seq![PeerEventView::Up(event_peer@)]);
            } else {
                assert(events_view(r@) =~= no_events());
            }
        }
        r
    }

    /// Removes a peer by fingerprint, emitting `Down` only if it was present.
    pub fn remove(&mut self, fingerprint: &String) -> (r: Vec<PeerEvent>)
        requires
            old(self).wf(),
        ensures
            final(self).wf(),
            (final(self)@, events_view(r@)) == remove_spec(old(self)@, fingerprint@),
    {
        proof {
            self.lemma_view();
        }
        let ghost old_view = self@;
        let mut r: Vec<PeerEvent> = Vec::new();
        match self.find(fingerprint) {
            Some(i) => {
                self.peers.remove(i);
                proof {
                    assert(self@.peers =~= old_view.peers.remove(i as int));
                    lemma_remove_keeps_wf(old_view, i as int);
                }
                r.push(PeerEvent::Down(fingerprint.clone()));
                assert(events_view(r@) =~= seq![PeerEventView::Down(fingerprint@)]);
            },
            None => {
                assert(events_view(r@) =~= no_events());
            },
        }
        r
    }

    /// Clears mDNS liveness of the device `device_id` after a goodbye or record
    /// expiry; the peer goes offline unless its UDP heartbeat is still within
    /// `udp_timeout`, so losing one channel does not make it flicker.
    pub fn mdns_removed(&mut self, device_id: &str, udp_timeout: u64, now: u64) -> (r: Vec<PeerEvent>)
        requires
            old(self).wf(),
        ensures
            final(self).wf(),
            (final(self)@, events_view(r@)) == mdns_removed_spec(
                old(self)@,
                device_id@,
                udp_timeout,
                now,
            ),
    {
        proof {
            self.lemma_view();
        }
        let ghost old_view = self@;
        let mut r: Vec<PeerEvent> = Vec::new();
        match self.find_device(device_id) {
            None => {
                assert(events_view(r@) =~= no_events());
            },
            Some(i) => {
                let udp_dead = match self.peers[i].last_udp {
                    None => true,
                    Some(t) => (if now >= t { now - t } else { 0 }) > udp_timeout,
                };
                if udp_dead {
                    let st = self.peers.remove(i);
                    proof {
                        assert(self@.peers =~= old_view.peers.remove(i as int));
                        lemma_remove_keeps_wf(old_view, i as int);
                    }
                    r.push(PeerEvent::Down(st.peer.info.fingerprint));
                    assert(events_view(r@) =~= seq![
                        PeerEventView::Down(fp_of(old_view.peers[i as int])),
                    ]);
                } else {
                    let mut st = self.peers[i].duplicate();
                    st.mdns_alive = false;
                    let ghost nsv = st@;
                    self.peers.set(i, st);
                    proof {
                        assert(self@.peers =~= old_view.peers.update(
                            i as int,
                            PeerStateView { mdns_alive: false, ..old_view.peers[i as int] },
                        ));
                        let p = self@.peers;
                        assert forall|a: int, b: int| 0 <= a < b < p.len() implies fp_of(
                            #[trigger] p[a],
                        ) != fp_of(#[trigger] p[b]) by {
                            assert(fp_of(p[a]) == fp_of(old_view.peers[a]));
                            assert(fp_of(p[b]) == fp_of(old_view.peers[b]));
                        }
                        assert forall|a: int| 0 <= a < p.len() implies fp_of(#[trigger] p[a])
                            != self@.self_fp by {
                            assert(fp_of(p[a]) == fp_of(old_view.peers[a]));
                        }
                        assert forall|a: int| 0 <= a < p.len() implies (#[trigger] p[a]).peer.addrs.len()
                            > 0 && forall|k: int|
                            0 <= k < p[a].peer.addrs.len() ==> !link_local_spec(
                                #[trigger] p[a].peer.addrs[k],
                            ) by {
                            assert(p[a].peer == old_view.peers[a].peer);
                        }
                    }
                    assert(events_view(r@) =~= no_events());
                }
            },
        }
        r
    }

    /// Removes peers that both channels consider dead and returns the peers
    /// that need an identity probe, together with the `Down` events.
    ///
    /// - Removal: a peer without mDNS liveness whose UDP heartbeat is older than
    ///   `timeout` (or absent) is removed. mDNS-live peers are never removed here.
    /// - Probing: an mDNS-live peer whose UDP channel is silent cannot expire by
    ///   time, so it is handed out for a probe, at most once per probe interval;
    ///   its probe time is set to `now`.
    pub fn sweep(&mut self, timeout: u64, now: u64) -> (r: (Vec<Peer>, Vec<PeerEvent>))
        requires
            old(self).wf(),
        ensures
            final(self).wf(),
            final(self)@.self_fp == old(self)@.self_fp,
            final(self)@.peers == sweep_survivors(old(self)@.peers, timeout, now),
            peers_view(r.0@) == sweep_probes(old(self)@.peers, timeout, now),
            events_view(r.1@) == sweep_downs(old(self)@.peers, timeout, now),
    {
        proof {
            self.lemma_view();
        }
        let ghost old_view = self@;
        let ghost s = old_view.peers;
        let mut kept: Vec<PeerState> = Vec::new();
        let mut probes: Vec<Peer> = Vec::new();
        let mut events: Vec<PeerEvent> = Vec::new();
        let mut i: usize = 0;
        while i < self.peers.len()
            invariant
                i <= self.peers.len(),
                self@ == old_view,
                s == old_view.peers,
                s.len() == self.peers.len(),
                kept@.map_values(|x: PeerState| x@) == sweep_survivors(s.take(i as int), timeout, now),
                peers_view(probes@) == sweep_probes(s.take(i as int), timeout, now),
                events_view(events@) == sweep_downs(s.take(i as int), timeout, now),
            decreases self.peers.len() - i,
        {
            let ghost sv = s[i as int];
            let mut st = self.peers[i].duplicate();
            assert(st@ == sv);
            proof {
                assert(s.take(i + 1).drop_last() =~= s.take(i as int));
                assert(s.take(i + 1).last() == sv);
            }
            let udp_silent = match st.last_udp {
                None => true,
                Some(t) => (if now >= t { now - t } else { 0 }) > timeout,
            };
            let due = match st.last_probe {
                None => true,
                Some(t) => (if now >= t { now - t } else { 0 }) > PEER_PROBE_INTERVAL_MS,
            };
            let ghost probes_before = probes@;
            let ghost kept_before = kept@;
            let ghost events_before = events@;
            if st.mdns_alive && udp_silent && due {
                st.last_probe = Some(now);
                probes.push(st.peer.duplicate());
                assert(peers_view(probes@) =~= peers_view(probes_before).push(sv.peer));
            } else {
                assert(peers_view(probes@) =~= peers_view(probes_before));
            }
            if !st.mdns_alive && udp_silent {
                events.push(PeerEvent::Down(st.peer.info.fingerprint.clone()));
                assert(events_view(events@) =~= events_view(events_before).push(
                    PeerEventView::Down(fp_of(sv)),
                ));
                assert(kept@.map_values(|x: PeerState| x@) =~= kept_before.map_values(
                    |x: PeerState| x@,
                ));
            } else {
                let ghost stv = st@;
                kept.push(st);
                assert(stv == swept_state(sv, timeout, now));
                assert(kept@.map_values(|x: PeerState| x@) =~= kept_before.map_values(
                    |x: PeerState| x@,
                ).push(stv));
                assert(events_view(events@) =~= events_view(events_before));
            }
            i = i + 1;
        }
        proof {
            assert(s.take(s.len() as int) =~= s);
        }
        self.peers = kept;
        proof {
            assert(self@.peers == sweep_survivors(s, timeout, now));
            lemma_sweep_keeps_wf(old_view, timeout, now);
        }
        (probes, events)
    }

    /// Whether the peer `fingerprint` still has a UDP heartbeat within `timeout`;
    /// fresh evidence overrides a failed probe.
    pub fn udp_fresh(&self, fingerprint: &String, timeout: u64, now: u64) -> (r: bool)
        ensures
            r == (pos(self@.peers, fingerprint@) >= 0 && !udp_silent(
                self@.peers[pos(self@.peers, fingerprint@)],
                timeout,
                now,
            )),
    {
        proof {
            self.lemma_view();
        }
        match self.find(fingerprint) {
            None => false,
            Some(i) => {
                let st = &self.peers[i];
                assert(self@.peers[i as int] == st@);
                match st.last_udp {
                    None => false,
                    Some(t) => (if now >= t { now - t } else { 0 }) <= timeout,
                }
            },
        }
    }

    /// Takes a peer offline after a failed identity probe, unless a fresh UDP
    /// heartbeat arrived during the probe window.
    ///
    /// This fallback is used when mDNS cache verification cannot run; normally
    /// the verification's removal takes the peer offline.
    pub fn probe_failed(&mut self, fingerprint: &String, udp_timeout: u64, now: u64) -> (r: Vec<PeerEvent>)
        requires
            old(self).wf(),
        ensures
            final(self).wf(),
            (final(self)@, events_view(r@)) == probe_failed_spec(
                old(self)@,
                fingerprint@,
                udp_timeout,
                now,
            ),
    {
        let ghost old_view = self@;
        if self.udp_fresh(fingerprint, udp_timeout, now) {
            let r: Vec<PeerEvent> = Vec::new();
            assert(events_view(r@) =~= no_events());
            return r;
        }
        self.remove(fingerprint)
    }

    /// A snapshot of the online peers.
    pub fn snapshot(&self) -> (r: Vec<Peer>)
        ensures
            peers_view(r@) == self@.peers.map_values(|s: PeerStateView| s.peer),
    {
        proof {
            self.lemma_view();
        }
        let mut out: Vec<Peer> = Vec::new();
        let mut i: usize = 0;
        while i < self.peers.len()
            invariant
                i <= self.peers.len(),
                self@.peers.len() == self.peers.len(),
                peers_view(out@) == self@.peers.take(i as int).map_values(|s: PeerStateView| s.peer),
            decreases self.peers.len() - i,
        {
            proof {
                self.lemma_view();
            }
            let ghost before = out@;
            let d = self.peers[i].peer.duplicate();
            assert(d@ == self@.peers[i as int].peer);
            out.push(d);
            assert(peers_view(out@) =~= peers_view(before).push(d@));
            assert(self@.peers.take(i + 1).map_values(|s: PeerStateView| s.peer) =~= self@.peers.take(
                i as int,
            ).map_values(|s: PeerStateView| s.peer).push(self@.peers[i as int].peer));
            i = i + 1;
        }
        assert(self@.peers.take(self.peers.len() as int) =~= self@.peers);
        out
    }

    /// Looks up one online peer by certificate fingerprint.
    pub fn peer_by_fingerprint(&self, fingerprint: &String) -> (r: Option<Peer>)
        ensures
            pos(self@.peers, fingerprint@) < 0 ==> r is None,
            pos(self@.peers, fingerprint@) >= 0 ==> (r matches Some(p) && p@ == self@.peers[pos(
                self@.peers,
                fingerprint@,
            )].peer),
    {
        proof {
            self.lemma_view();
        }
        match self.find(fingerprint) {
            None => None,
            Some(i) => {
                assert(self@.peers[i as int] == self.peers@[i as int]@);
                Some(self.peers[i].peer.duplicate())
            },
        }
    }
}

/// Refreshing a known peer never loses an address: every address stored
/// for it before an update, from either channel, is still stored after it,
/// so such an update is never discarded for want of a usable address. The
/// peer keeps its place, and takes the update's information.
pub proof fn upsert_keeps_known_addresses(r: RegistryView, p: PeerView, src: PeerSource, now: u64)
    requires
        wf_spec(r),
        p.info.fingerprint != r.self_fp,
        pos(r.peers, p.info.fingerprint) >= 0,
    ensures
        ({
            let i = pos(r.peers, p.info.fingerprint);
            let r2 = upsert_spec(r, p, src, now).0;
            &&& r2.peers.len() == r.peers.len()
            &&& r2.peers[i].peer.info == p.info
            &&& forall|k: int|
                0 <= k < r.peers[i].peer.addrs.len() ==> r2.peers[i].peer.addrs.contains(
                    #[trigger] r.peers[i].peer.addrs[k],
                )
        }),
{
    lemma_pos(r.peers, p.info.fingerprint);
    let i = pos(r.peers, p.info.fingerprint);
    let old_addrs = r.peers[i].peer.addrs;
    let merged = merge_spec(old_addrs, p.addrs);
    assert forall|k: int| 0 <= k < old_addrs.len() implies normalize_spec(merged).contains(
        #[trigger] old_addrs[k],
    ) by {
        let a = old_addrs[k];
        assert(old_addrs.contains(a));
        lemma_merge_keeps(old_addrs, p.addrs, a);
        lemma_normalize_keeps(merged, a);
    }
    assert(old_addrs.len() > 0);
    assert(normalize_spec(merged).contains(old_addrs[0]));
}

/// A sighting on one channel never clears the other channel's liveness: an
/// mDNS sighting of a known peer keeps its last UDP heartbeat and marks it
/// alive on mDNS; a UDP heartbeat records its time and keeps the peer's mDNS
/// liveness. Either way the time of its last identity probe stays, and no
/// other peer's state changes.
pub proof fn sighting_keeps_other_channel(r: RegistryView, p: PeerView, src: PeerSource, now: u64)
    requires
        wf_spec(r),
        p.info.fingerprint != r.self_fp,
        pos(r.peers, p.info.fingerprint) >= 0,
    ensures
        ({
            let i = pos(r.peers, p.info.fingerprint);
            let before = r.peers[i];
            let after = upsert_spec(r, p, src, now).0.peers[i];
            let r2 = upsert_spec(r, p, src, now).0;
            &&& src == PeerSource::Mdns ==> after.last_udp == before.last_udp && after.mdns_alive
            &&& src == PeerSource::Udp ==> after.last_udp == Some(now) && after.mdns_alive
                == before.mdns_alive
            &&& after.last_probe == before.last_probe
            &&& r2.peers.len() == r.peers.len()
            &&& forall|j: int| 0 <= j < r.peers.len() && j != i ==> r2.peers[j] == r.peers[j]
        }),
{
    lemma_pos(r.peers, p.info.fingerprint);
    let i = pos(r.peers, p.info.fingerprint);
    let old_addrs = r.peers[i].peer.addrs;
    let a = old_addrs[0];
    assert(old_addrs.contains(a));
    lemma_merge_keeps(old_addrs, p.addrs, a);
    lemma_normalize_keeps(merge_spec(old_addrs, p.addrs), a);
    assert(normalize_spec(merge_spec(old_addrs, p.addrs)).len() > 0);
}

/// A peer first seen on one channel is live on that channel only: an mDNS
/// sighting leaves it without a UDP heartbeat, a UDP heartbeat leaves it not
/// alive on mDNS. Joining counts as its first identity probe.
pub proof fn new_peer_is_live_on_its_channel(r: RegistryView, p: PeerView, src: PeerSource, now: u64)
    requires
        wf_spec(r),
        p.info.fingerprint != r.self_fp,
        pos(r.peers, p.info.fingerprint) < 0,
        normalize_spec(p.addrs).len() > 0,
    ensures
        ({
            let r2 = upsert_spec(r, p, src, now).0;
            let s = r2.peers.last();
            &&& r2.peers.len() == r.peers.len() + 1
            &&& r2.peers.drop_last() == r.peers
            &&& s.peer.info == p.info
            &&& s.last_probe == Some(now)
            &&& src == PeerSource::Mdns ==> s.last_udp is None && s.mdns_alive
            &&& src == PeerSource::Udp ==> s.last_udp == Some(now) && !s.mdns_alive
        }),
{
    let r2 = upsert_spec(r, p, src, now).0;
    assert(r2.peers.drop_last() =~= r.peers);
}

/// A sweep settles the registry for the instant it runs at: a second sweep
/// at the same time probes no peer, takes no peer down, and leaves the
/// peers as the first one left them. A peer the first sweep probed has just
/// been marked, and the probe interval has not passed since.
pub proof fn second_sweep_is_quiet(s: Seq<PeerStateView>, timeout: u64, now: u64)
    ensures
        sweep_probes(sweep_survivors(s, timeout, now), timeout, now) == Seq::<PeerView>::empty(),
        sweep_downs(sweep_survivors(s, timeout, now), timeout, now)
            == Seq::<PeerEventView>::empty(),
        sweep_survivors(sweep_survivors(s, timeout, now), timeout, now) == sweep_survivors(
            s,
            timeout,
            now,
        ),
    decreases s.len(),
{
    if s.len() > 0 {
        let d = s.drop_last();
        second_sweep_is_quiet(d, timeout, now);
        let prev = sweep_survivors(d, timeout, now);
        if !expired(s.last(), timeout, now) {
            let y = swept_state(s.last(), timeout, now);
            let cur = prev.push(y);
            assert(cur.drop_last() =~= prev);
            assert(cur.last() == y);
            assert(!expired(y, timeout, now));
            assert(!probe_due(y, timeout, now));
            assert(swept_state(y, timeout, now) == y);
        }
    }
}

proof fn lemma_sweep_survivors_from(s: Seq<PeerStateView>, timeout: u64, now: u64)
    requires
        forall|i: int, j: int| 0 <= i < j < s.len() ==> fp_of(#[trigger] s[i]) != fp_of(#[trigger] s[j]),
    ensures
        forall|k: int|
            #![trigger sweep_survivors(s, timeout, now)[k]]
            0 <= k < sweep_survivors(s, timeout, now).len() ==> exists|j: int|
                0 <= j < s.len() && sweep_survivors(s, timeout, now)[k] == swept_state(
                    #[trigger] s[j],
                    timeout,
                    now,
                ),
        forall|a: int, b: int|
            0 <= a < b < sweep_survivors(s, timeout, now).len() ==> fp_of(
                #[trigger] sweep_survivors(s, timeout, now)[a],
            ) != fp_of(#[trigger] sweep_survivors(s, timeout, now)[b]),
    decreases s.len(),
{
    if s.len() > 0 {
        let d = s.drop_last();
        assert forall|i: int, j: int| 0 <= i < j < d.len() implies fp_of(#[trigger] d[i]) != fp_of(
            #[trigger] d[j],
        ) by {
            assert(d[i] == s[i] && d[j] == s[j]);
        }
        lemma_sweep_survivors_from(d, timeout, now);
        let prev = sweep_survivors(d, timeout, now);
        let cur = sweep_survivors(s, timeout, now);
        assert forall|k: int| #![trigger cur[k]] 0 <= k < cur.len() implies exists|j: int|
            0 <= j < s.len() && cur[k] == swept_state(#[trigger] s[j], timeout, now) by {
            if k < prev.len() {
                assert(cur[k] == prev[k]);
                let j = choose|j: int| 0 <= j < d.len() && prev[k] == swept_state(#[trigger] d[j], timeout, now);
                assert(s[j] == d[j]);
            } else {
                assert(cur[k] == swept_state(s[s.len() - 1], timeout, now));
            }
        }
        assert forall|a: int, b: int| 0 <= a < b < cur.len() implies fp_of(#[trigger] cur[a])
            != fp_of(#[trigger] cur[b]) by {
            if b < prev.len() {
                assert(cur[a] == prev[a] && cur[b] == prev[b]);
            } else {
                assert(cur[a] == prev[a]);
                let ja = choose|j: int| 0 <= j < d.len() && prev[a] == swept_state(#[trigger] d[j], timeout, now);
                assert(s[ja] == d[ja]);
                assert(cur[b] == swept_state(s[s.len() - 1], timeout, now));
                assert(fp_of(cur[a]) == fp_of(s[ja]));
                assert(fp_of(cur[b]) == fp_of(s[s.len() - 1]));
            }
        }
    }
}

proof fn lemma_sweep_keeps_wf(r: RegistryView, timeout: u64, now: u64)
    requires
        wf_spec(r),
    ensures
        wf_spec(RegistryView { self_fp: r.self_fp, peers: sweep_survivors(r.peers, timeout, now) }),
{
    lemma_sweep_survivors_from(r.peers, timeout, now);
    let p = sweep_survivors(r.peers, timeout, now);
    assert forall|a: int| 0 <= a < p.len() implies fp_of(#[trigger] p[a]) != r.self_fp by {
        let j = choose|j: int| 0 <= j < r.peers.len() && p[a] == swept_state(#[trigger] r.peers[j], timeout, now);
        assert(fp_of(p[a]) == fp_of(r.peers[j]));
    }
    assert forall|a: int| 0 <= a < p.len() implies (#[trigger] p[a]).peer.addrs.len() > 0
        && forall|k: int|
        0 <= k < p[a].peer.addrs.len() ==> !link_local_spec(#[trigger] p[a].peer.addrs[k]) by {
        let j = choose|j: int| 0 <= j < r.peers.len() && p[a] == swept_state(#[trigger] r.peers[j], timeout, now);
        assert(p[a].peer == r.peers[j].peer);
    }
}


// ---------------------------------------------------------------------------
// Laws
// ---------------------------------------------------------------------------

proof fn lemma_merge_members(acc: Seq<IpAddr>, new: Seq<IpAddr>)
    ensures
        forall|x: IpAddr| acc.contains(x) ==> merge_spec(acc, new).contains(x),
        forall|x: IpAddr| new.contains(x) ==> merge_spec(acc, new).contains(x),
    decreases new.len(),
{
    if new.len() > 0 {
        lemma_merge_members(acc, new.drop_last());
        let prev = merge_spec(acc, new.drop_last());
        let m = merge_spec(acc, new);
        assert forall|x: IpAddr| prev.contains(x) implies m.contains(x) by {
            let k = choose|k: int| 0 <= k < prev.len() && prev[k] == x;
            if !prev.contains(new.last()) {
                assert(m[k] == prev[k]);
            }
        }
        assert forall|x: IpAddr| new.contains(x) implies m.contains(x) by {
            let k = choose|k: int| 0 <= k < new.len() && new[k] == x;
            if k < new.len() - 1 {
                assert(new.drop_last()[k] == x);
                assert(new.drop_last().contains(x));
                assert(prev.contains(x));
            } else if !prev.contains(new.last()) {
                assert(m[m.len() - 1] == x);
            } else {
                assert(m == prev);
            }
        }
    }
}

/// Merging into `s` addresses whose usable members `s` already holds appends only link-local ones.
proof fn lemma_merge_known(s: Seq<IpAddr>, new: Seq<IpAddr>) -> (tail: Seq<IpAddr>)
    requires
        forall|x: IpAddr| new.contains(x) && !link_local_spec(x) ==> s.contains(x),
    ensures
        merge_spec(s, new) == s + tail,
        forall|k: int| 0 <= k < tail.len() ==> link_local_spec(#[trigger] tail[k]),
    decreases new.len(),
{
    if new.len() == 0 {
        assert(s + Seq::<IpAddr>::empty() =~= s);
        Seq::empty()
    } else {
        let d = new.drop_last();
        assert forall|x: IpAddr| d.contains(x) && !link_local_spec(x) implies s.contains(x) by {
            let k = choose|k: int| 0 <= k < d.len() && d[k] == x;
            assert(new[k] == x);
        }
        let t = lemma_merge_known(s, d);
        let prev = merge_spec(s, d);
        let x = new.last();
        assert(new[new.len() - 1] == x);
        if prev.contains(x) {
            t
        } else {
            if !link_local_spec(x) {
                assert(s.contains(x));
                let k = choose|k: int| 0 <= k < s.len() && s[k] == x;
                assert(prev[k] == x);
            }
            assert(s + t.push(x) =~= (s + t).push(x));
            t.push(x)
        }
    }
}

proof fn lemma_keep_class_contains(s: Seq<IpAddr>, x: IpAddr)
    requires
        s.contains(x),
        !link_local_spec(x),
    ensures
        keep_class(s, super::addrs::addr_class(x)).contains(x),
    decreases s.len(),
{
    let c = super::addrs::addr_class(x);
    if s.last() == x {
        let k = keep_class(s, c);
        assert(k[k.len() - 1] == x);
    } else {
        let j = choose|j: int| 0 <= j < s.len() && s[j] == x;
        assert(s.drop_last()[j] == x);
        lemma_keep_class_contains(s.drop_last(), x);
        let prev = keep_class(s.drop_last(), c);
        let i = choose|i: int| 0 <= i < prev.len() && prev[i] == x;
        assert(keep_class(s, c)[i] == x);
    }
}

proof fn lemma_normalize_contains(s: Seq<IpAddr>, x: IpAddr)
    requires
        s.contains(x),
        !link_local_spec(x),
    ensures
        normalize_spec(s).contains(x),
{
    let c = super::addrs::addr_class(x);
    lemma_keep_class_contains(s, x);
    let k = keep_class(s, c);
    let i = choose|i: int| 0 <= i < k.len() && k[i] == x;
    let k0 = keep_class(s, 0);
    let k1 = keep_class(s, 1);
    let k2 = keep_class(s, 2);
    let n = normalize_spec(s);
    if c == 0 {
        assert(n[i] == x);
    } else if c == 1 {
        assert(n[k0.len() + i] == x);
    } else if c == 2 {
        assert(n[k0.len() + k1.len() + i] == x);
    } else {
        assert(n[k0.len() + k1.len() + k2.len() + i] == x);
    }
}

proof fn lemma_keep_class_link_local(l: Seq<IpAddr>, c: int)
    requires
        forall|k: int| 0 <= k < l.len() ==> link_local_spec(#[trigger] l[k]),
    ensures
        keep_class(l, c) == Seq::<IpAddr>::empty(),
    decreases l.len(),
{
    if l.len() > 0 {
        lemma_keep_class_link_local(l.drop_last(), c);
    }
}

/// Adding link-local addresses does not change a normalized list.
proof fn lemma_normalize_ignores_link_local(s: Seq<IpAddr>, l: Seq<IpAddr>)
    requires
        forall|k: int| 0 <= k < l.len() ==> link_local_spec(#[trigger] l[k]),
    ensures
        normalize_spec(s + l) == normalize_spec(s),
{
    assert forall|c: int| 0 <= c < 4 implies keep_class(s + l, c) == keep_class(s, c) by {
        super::addrs::lemma_keep_class_concat(s, l, c);
        lemma_keep_class_link_local(l, c);
        assert(keep_class(s, c) + Seq::<IpAddr>::empty() =~= keep_class(s, c));
    }
    assert(keep_class(s + l, 0) == keep_class(s, 0));
    assert(keep_class(s + l, 1) == keep_class(s, 1));
    assert(keep_class(s + l, 2) == keep_class(s, 2));
    assert(keep_class(s + l, 3) == keep_class(s, 3));
}

/// Repeated sightings are silent: seeing a peer again with the same
/// information, through the same channel, changes nothing that is reported,
/// whatever the time of the second sighting.
pub proof fn repeated_sighting_is_silent(r: RegistryView, p: PeerView, src: PeerSource, now1: u64, now2: u64)
    requires
        wf_spec(r),
    ensures
        upsert_spec(upsert_spec(r, p, src, now1).0, p, src, now2).1 == no_events(),
{
    let fp = p.info.fingerprint;
    let r1 = upsert_spec(r, p, src, now1).0;
    if fp == r.self_fp {
        return;
    }
    let i = pos(r.peers, fp);
    lemma_pos(r.peers, fp);
    let x = if i >= 0 { merge_spec(r.peers[i].peer.addrs, p.addrs) } else { p.addrs };
    let st = normalize_spec(x);
    if st.len() == 0 {
        // The first sighting was ignored; the registry is unchanged and so is the second.
        return;
    }
    // Every usable address of the sighting is stored.
    if i >= 0 {
        lemma_merge_members(r.peers[i].peer.addrs, p.addrs);
    }
    assert forall|a: IpAddr| p.addrs.contains(a) && !link_local_spec(a) implies st.contains(a) by {
        lemma_normalize_contains(x, a);
    }
    let tail = lemma_merge_known(st, p.addrs);
    lemma_normalize_ignores_link_local(st, tail);
    super::addrs::normalize_is_idempotent(x);
    assert(normalize_spec(merge_spec(st, p.addrs)) == st);
    // The second sighting finds the stored entry.
    let j = pos(r1.peers, fp);
    lemma_pos(r1.peers, fp);
    let k = if i >= 0 { i } else { r.peers.len() as int };
    assert(fp_of(r1.peers[k]) == fp);
    assert(r1.peers[k].peer == PeerView { addrs: st, ..p });
    if j != k {
        if j < k {
            assert(fp_of(r1.peers[j]) == fp);
            if i >= 0 {
                assert(r1.peers[j] == r.peers[j]);
            } else {
                assert(r1.peers[j] == r.peers[j]);
            }
        } else {
            assert(fp_of(r1.peers[k]) != fp);
        }
    }
    assert(j == k);
}

/// Removal reports `Down` once: removing a peer that is already gone
/// reports nothing.
pub proof fn removal_reports_down_once(r: RegistryView, fp: Seq<char>)
    requires
        wf_spec(r),
    ensures
        remove_spec(remove_spec(r, fp).0, fp).1 == no_events(),
{
    let i = pos(r.peers, fp);
    lemma_pos(r.peers, fp);
    if i >= 0 {
        let p = r.peers.remove(i);
        lemma_pos(p, fp);
        assert forall|j: int| 0 <= j < p.len() implies fp_of(#[trigger] p[j]) != fp by {
            let j0 = if j < i { j } else { j + 1 };
            assert(p[j] == r.peers[j0]);
        }
    }
}

proof fn lemma_sweep_keeps_live(s: Seq<PeerStateView>, timeout: u64, now: u64, i: int)
    requires
        0 <= i < s.len(),
        !expired(s[i], timeout, now),
    ensures
        exists|k: int|
            0 <= k < sweep_survivors(s, timeout, now).len() && #[trigger] sweep_survivors(
                s,
                timeout,
                now,
            )[k] == swept_state(s[i], timeout, now),
    decreases s.len(),
{
    let surv = sweep_survivors(s, timeout, now);
    if i == s.len() - 1 {
        assert(surv[surv.len() - 1] == swept_state(s[i], timeout, now));
    } else {
        let d = s.drop_last();
        assert(d[i] == s[i]);
        lemma_sweep_keeps_live(d, timeout, now, i);
        let prev = sweep_survivors(d, timeout, now);
        let k = choose|k: int| 0 <= k < prev.len() && #[trigger] prev[k] == swept_state(d[i], timeout, now);
        assert(surv[k] == prev[k]);
    }
}

/// Sweeps never take an mDNS-live peer offline, nor one whose UDP heartbeat
/// is within the timeout: such a peer is still registered afterwards, with
/// the same information.
pub proof fn sweep_keeps_live_peers(r: RegistryView, timeout: u64, now: u64, i: int)
    requires
        wf_spec(r),
        0 <= i < r.peers.len(),
        r.peers[i].mdns_alive || !udp_silent(r.peers[i], timeout, now),
    ensures
        exists|k: int|
            0 <= k < sweep_survivors(r.peers, timeout, now).len() && (#[trigger] sweep_survivors(
                r.peers,
                timeout,
                now,
            )[k]).peer == r.peers[i].peer,
{
    lemma_sweep_keeps_live(r.peers, timeout, now, i);
    let k = choose|k: int|
        0 <= k < sweep_survivors(r.peers, timeout, now).len() && #[trigger] sweep_survivors(
            r.peers,
            timeout,
            now,
        )[k] == swept_state(r.peers[i], timeout, now);
    assert(sweep_survivors(r.peers, timeout, now)[k].peer == r.peers[i].peer);
}

/// A fresh UDP heartbeat keeps a peer online: neither an mDNS removal of its
/// device nor a failed identity probe takes offline a peer whose heartbeat is
/// within the UDP timeout. (mDNS removals name a device ID; the law is stated
/// for the entry that the removal acts on, the first with that ID.)
pub proof fn fresh_udp_keeps_peer_online(r: RegistryView, i: int, udp_timeout: u64, now: u64)
    requires
        wf_spec(r),
        0 <= i < r.peers.len(),
        pos_device(r.peers, r.peers[i].peer.info.device_id) == i,
        !udp_silent(r.peers[i], udp_timeout, now),
    ensures
        mdns_removed_spec(r, r.peers[i].peer.info.device_id, udp_timeout, now).1 == no_events(),
        mdns_removed_spec(r, r.peers[i].peer.info.device_id, udp_timeout, now).0.peers.len()
            == r.peers.len(),
        probe_failed_spec(r, fp_of(r.peers[i]), udp_timeout, now) == (r, no_events()),
{
    let id = r.peers[i].peer.info.device_id;
    lemma_pos_device(r.peers, id);
    lemma_pos(r.peers, fp_of(r.peers[i]));
    let j = pos(r.peers, fp_of(r.peers[i]));
    if j != i {
        if j < i {
            assert(fp_of(r.peers[j]) == fp_of(r.peers[i]));
        }
    }
    assert(j == i);
}

} // verus!
