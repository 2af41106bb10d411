//! The two discovery channels' own rules: UDP announcement packets and the
//! multicast pulse, mDNS names and TXT records, and the membership watchdog.

use vstd::prelude::*;

use super::addrs::{normalize_addrs, normalize_spec, IpAddr};
use super::registry::{
    elapsed, remove_spec, upsert_spec, PeerSource, Registry, RegistryView,
};
use super::{events_view, Peer, PeerEvent, PeerEventView, PeerView};
use crate::config::{MULTICAST_SILENCE_TIMEOUT_MS, STALL_JUMP_MS};
use crate::protocol::{opt_view, PeerInfo, PeerInfoView};
use crate::text::to_string;

verus! {

/// mDNS service type.
pub const MDNS_SERVICE_TYPE: &'static str = "_deskmate._tcp.local.";

/// UDP multicast packet type.
#[derive(Debug, Clone, Copy, PartialEq, Eq, Structural)]
pub enum AnnounceKind {
    /// Periodic online announcement.
    Announce,
    /// Unicast answer to an announcement, so a new peer sees existing peers at once.
    Response,
    /// Graceful departure.
    Goodbye,
}

impl AnnounceKind {
    /// The packet's `kind` field on the wire.
    pub fn wire_name(&self) -> (r: &'static str)
        ensures
            r == match *self {
                AnnounceKind::Announce => "announce",
                AnnounceKind::Response => "response",
                AnnounceKind::Goodbye => "goodbye",
            },
    {
        match self {
            AnnounceKind::Announce => "announce",
            AnnounceKind::Response => "response",
            AnnounceKind::Goodbye => "goodbye",
        }
    }
}

/// The pre-encoded packet set of the local device, replaced when its identity changes.
#[derive(Debug)]
pub struct UdpPackets {
    /// Periodic announcement.
    pub announce: Vec<u8>,
    /// Unicast response to an announcement.
    pub response: Vec<u8>,
    /// Graceful departure.
    pub goodbye: Vec<u8>,
}

impl UdpPackets {
    /// The packet set to send, given the three encoded packets of the current
    /// identity. Passive (stealth) mode only listens: every packet is empty,
    /// which silences heartbeats, responses and goodbyes alike.
    pub fn encode(announce: Vec<u8>, response: Vec<u8>, goodbye: Vec<u8>, passive: bool) -> (r:
        UdpPackets)
        ensures
            passive ==> r.announce@.len() == 0 && r.response@.len() == 0 && r.goodbye@.len() == 0,
            !passive ==> r.announce@ == announce@ && r.response@ == response@ && r.goodbye@
                == goodbye@,
    {
        if passive {
            UdpPackets { announce: Vec::new(), response: Vec::new(), goodbye: Vec::new() }
        } else {
            UdpPackets { announce, response, goodbye }
        }
    }
}

/// Records the arrival of a multicast packet at `now`.
pub fn mark_pulse(pulse: &mut Option<u64>, now: u64)
    ensures
        *final(pulse) == Some(now),
{
    *pulse = Some(now);
}

/// The time of the latest multicast packet, if any arrived.
pub fn read_pulse(pulse: &Option<u64>) -> (r: Option<u64>)
    ensures
        r == *pulse,
{
    *pulse
}

/// Whether multicast reception has been silent for at least `threshold`.
///
/// Never having received multicast is not silence: a lone or stealth peer
/// on an empty network has nothing to recover from.
pub open spec fn silent_spec(last_seen: Option<u64>, now: u64, threshold: u64) -> bool {
    match last_seen {
        Some(t) => elapsed(t, now) >= threshold,
        None => false,
    }
}

/// Returns whether multicast reception has been silent beyond the threshold.
pub fn multicast_silent(last_seen: Option<u64>, now: u64, threshold: u64) -> (r: bool)
    ensures
        r == silent_spec(last_seen, now, threshold),
{
    match last_seen {
        Some(t) => (if now >= t {
            now - t
        } else {
            0
        }) >= threshold,
        None => false,
    }
}

/// Handles one packet received on the multicast socket from `src`.
///
/// Announcements and goodbyes arrive only through multicast, so they refresh
/// the pulse (unicast responses do not, or they would mask a broken
/// membership). The local device's own packets are then ignored. A goodbye
/// takes the peer offline; anything else is a UDP sighting at the source
/// address. The second result says whether to answer with the unicast
/// response, which only an announcement asks for.
pub fn on_packet(
    registry: &mut Registry,
    pulse: &mut Option<u64>,
    kind: AnnounceKind,
    info: PeerInfo,
    tcp_port: u16,
    src: IpAddr,
    now: u64,
) -> (r: (Vec<PeerEvent>, bool))
    requires
        old(registry).wf(),
    ensures
        final(registry).wf(),
        *final(pulse) == if kind != AnnounceKind::Response {
            Some(now)
        } else {
            *old(pulse)
        },
        info@.fingerprint == old(registry)@.self_fp ==> final(registry)@ == old(registry)@
            && r.0@.len() == 0 && !r.1,
        info@.fingerprint != old(registry)@.self_fp && kind == AnnounceKind::Goodbye ==> (
        final(registry)@, events_view(r.0@)) == remove_spec(old(registry)@, info@.fingerprint)
            && !r.1,
        info@.fingerprint != old(registry)@.self_fp && kind != AnnounceKind::Goodbye ==> (
        final(registry)@, events_view(r.0@)) == upsert_spec(
            old(registry)@,
            PeerView { info: info@, addrs: seq![src], port: tcp_port },
            PeerSource::Udp,
            now,
        ) && r.1 == (kind == AnnounceKind::Announce),
{
    if kind != AnnounceKind::Response {
        mark_pulse(pulse, now);
    }
    if registry.is_self(info.fingerprint.as_str()) {
        return (Vec::new(), false);
    }
    match kind {
        AnnounceKind::Goodbye => (registry.remove(&info.fingerprint), false),
        _ => {
            let addrs = vec![src];
            assert(addrs@ =~= seq![src]);
            let events = registry.upsert(Peer { info, addrs, port: tcp_port }, PeerSource::Udp, now);
            (events, kind == AnnounceKind::Announce)
        },
    }
}

/// What the membership watchdog decided on one tick.
pub open spec fn watchdog_spec(
    wall_gap: u64,
    mono_gap: u64,
    last_pulse: Option<u64>,
    now: u64,
    silence_logged: bool,
) -> (bool, bool) {
    let stalled = if wall_gap >= mono_gap { wall_gap - mono_gap } else { 0 };
    let silent = silent_spec(last_pulse, now, MULTICAST_SILENCE_TIMEOUT_MS);
    if stalled >= STALL_JUMP_MS {
        (true, silence_logged)
    } else if silent {
        (true, true)
    } else {
        (false, false)
    }
}

/// One tick of the multicast membership watchdog.
///
/// Systems can silently drop IGMP membership. Two signs call for a rebuild:
/// wall-clock time that ran ahead of the monotonic clock by a minute (a wake
/// from sleep), and multicast that worked before but has been silent for a
/// minute (a network reconnection; retried every tick until traffic comes
/// back). Returns whether to rebuild, and whether the silence is now being
/// reported (so the first silent tick and the recovery are each noted once).
pub fn watchdog_step(
    wall_gap: u64,
    mono_gap: u64,
    last_pulse: Option<u64>,
    now: u64,
    silence_logged: bool,
) -> (r: (bool, bool))
    ensures
        r == watchdog_spec(wall_gap, mono_gap, last_pulse, now, silence_logged),
{
    let stalled: u64 = if wall_gap >= mono_gap {
        wall_gap - mono_gap
    } else {
        0
    };
    let silent = multicast_silent(last_pulse, now, MULTICAST_SILENCE_TIMEOUT_MS);
    if stalled >= STALL_JUMP_MS {
        (true, silence_logged)
    } else if silent {
        (true, true)
    } else {
        (false, false)
    }
}

// ---------------------------------------------------------------------------
// mDNS
// ---------------------------------------------------------------------------

/// `s` without its trailing `.` characters.
pub open spec fn trim_dots(s: Seq<char>) -> Seq<char>
    decreases s.len(),
{
    if s.len() > 0 && s.last() == '.' {
        trim_dots(s.drop_last())
    } else {
        s
    }
}

/// The instance name of an mDNS full name of this service, or `None` for
/// another service.
pub open spec fn instance_spec(fullname: Seq<char>) -> Option<Seq<char>> {
    let t = MDNS_SERVICE_TYPE@;
    if t.len() <= fullname.len() && fullname.skip(fullname.len() - t.len()) == t {
        Some(trim_dots(fullname.take(fullname.len() - t.len())))
    } else {
        None
    }
}

/// Extracts the instance name, which is the device ID, from an mDNS full name.
pub fn instance_of(fullname: &str) -> (r: Option<String>)
    ensures
        opt_view(r) == instance_spec(fullname@),
{
    let t = MDNS_SERVICE_TYPE;
    let n = fullname.unicode_len();
    let m = t.unicode_len();
    if m > n {
        return None;
    }
    let mut i: usize = 0;
    while i < m
        invariant
            n == fullname@.len(),
            t@ == MDNS_SERVICE_TYPE@,
            m == t@.len(),
            m <= n,
            i <= m,
            forall|j: int| 0 <= j < i ==> fullname@[n - m + j] == t@[j],
        decreases m - i,
    {
        if fullname.get_char(n - m + i) != t.get_char(i) {
            assert(fullname@.skip(n - m)[i as int] != t@[i as int]);
            assert(fullname@.skip(n - m) != t@);
            return None;
        }
        i = i + 1;
    }
    assert(fullname@.skip(n - m) =~= t@);
    let mut k: usize = n - m;
    while k > 0 && fullname.get_char(k - 1) == '.'
        invariant
            k <= n - m,
            n == fullname@.len(),
            t@ == MDNS_SERVICE_TYPE@,
            m == t@.len(),
            m <= n,
            trim_dots(fullname@.take(n - m)) == trim_dots(fullname@.take(k as int)),
        decreases k,
    {
        assert(fullname@.take(k as int).drop_last() =~= fullname@.take(k - 1));
        k = k - 1;
    }
    let mut out = String::new();
    let mut j: usize = 0;
    while j < k
        invariant
            k <= n,
            n == fullname@.len(),
            j <= k,
            out@ == fullname@.take(j as int),
        decreases k - j,
    {
        crate::text::push_char(&mut out, fullname.get_char(j));
        j = j + 1;
        assert(out@ =~= fullname@.take(j as int));
    }
    Some(out)
}

/// The TXT record of the local service: `id`, `name`, `fp` and `platform`,
/// then `avatar` and `osv` when they are set.
pub open spec fn txt_spec(info: PeerInfoView) -> Seq<(Seq<char>, Seq<char>)> {
    let base = seq![
        ("id"@, info.device_id),
        ("name"@, info.name),
        ("fp"@, info.fingerprint),
        ("platform"@, info.platform),
    ];
    let with_avatar = match info.avatar {
        Some(a) => base.push(("avatar"@, a)),
        None => base,
    };
    match info.os_version {
        Some(v) => with_avatar.push(("osv"@, v)),
        None => with_avatar,
    }
}

/// The contents of a list of key/value pairs.
pub open spec fn pairs_view(v: Seq<(String, String)>) -> Seq<(Seq<char>, Seq<char>)> {
    v.map_values(|p: (String, String)| (p.0@, p.1@))
}

/// Builds the TXT properties of the local mDNS service.
pub fn mdns_properties(info: &PeerInfo) -> (r: Vec<(String, String)>)
    ensures
        pairs_view(r@) == txt_spec(info@),
{
    let mut v: Vec<(String, String)> = Vec::new();
    v.push((to_string("id"), info.device_id.clone()));
    v.push((to_string("name"), info.name.clone()));
    v.push((to_string("fp"), info.fingerprint.clone()));
    v.push((to_string("platform"), info.platform.clone()));
    let ghost base = pairs_view(v@);
    assert(base =~= seq![
        ("id"@, info@.device_id),
        ("name"@, info@.name),
        ("fp"@, info@.fingerprint),
        ("platform"@, info@.platform),
    ]);
    if let Some(a) = &info.avatar {
        v.push((to_string("avatar"), a.clone()));
    }
    let ghost mid = pairs_view(v@);
    assert(mid =~= match info@.avatar {
        Some(a) => base.push(("avatar"@, a)),
        None => base,
    });
    if let Some(o) = &info.os_version {
        v.push((to_string("osv"), o.clone()));
    }
    assert(pairs_view(v@) =~= txt_spec(info@));
    v
}

/// The full name of a device's mDNS service instance.
pub fn service_fullname(device_id: &str) -> (r: String)
    ensures
        r@ == device_id@ + seq!['.'] + MDNS_SERVICE_TYPE@,
{
    let mut s = to_string(device_id);
    crate::text::push_char(&mut s, '.');
    crate::text::push_str(&mut s, MDNS_SERVICE_TYPE);
    s
}

/// The host name a device registers: its ID under `.local.`.
pub fn service_host(device_id: &str) -> (r: String)
    ensures
        r@ == device_id@ + ".local."@,
{
    let mut s = to_string(device_id);
    crate::text::push_str(&mut s, ".local.");
    s
}

/// A peer from a resolved mDNS service: `None` when a required TXT property
/// (`id`, `name`, `fp`, `platform`) is missing, or when no usable address is
/// left after normalization (an early event may carry only link-local IPv6).
pub fn peer_from_txt(
    id: Option<String>,
    name: Option<String>,
    fp: Option<String>,
    platform: Option<String>,
    avatar: Option<String>,
    osv: Option<String>,
    addrs: Vec<IpAddr>,
    port: u16,
) -> (r: Option<Peer>)
    ensures
        (id is Some && name is Some && fp is Some && platform is Some && normalize_spec(addrs@).len()
            > 0) <==> r is Some,
        r matches Some(p) ==> p@ == (PeerView {
            info: PeerInfoView {
                device_id: id->0@,
                name: name->0@,
                fingerprint: fp->0@,
                platform: platform->0@,
                avatar: opt_view(avatar),
                os_version: opt_view(osv),
            },
            addrs: normalize_spec(addrs@),
            port,
        }),
{
    let (device_id, name, fingerprint, platform) = match (id, name, fp, platform) {
        (Some(a), Some(b), Some(c), Some(d)) => (a, b, c, d),
        _ => {
            return None;
        },
    };
    let addrs = normalize_addrs(addrs);
    if addrs.len() == 0 {
        return None;
    }
    Some(
        Peer {
            info: PeerInfo { device_id, name, fingerprint, platform, avatar, os_version: osv },
            addrs,
            port,
        },
    )
}

} // verus!
