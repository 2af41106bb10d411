//! Peer registry, address normalization, announcements and mDNS naming.

use deskmate::config::PEER_TIMEOUT_MS;
use deskmate::discovery::addrs::{addr_text, normalize_addrs, IpAddr};
use deskmate::discovery::announce::{
    instance_of, mark_pulse, mdns_properties, multicast_silent, on_packet, peer_from_txt,
    read_pulse, service_fullname, watchdog_step, AnnounceKind, UdpPackets,
};
use deskmate::discovery::registry::{PeerSource, Registry};
use deskmate::discovery::service::{
    after_failed_probe, channels_started, probe_proves_alive, BroadcastState, DiscoveryError,
    ProbeFollowUp, StealthChange,
};
use deskmate::discovery::{Peer, PeerEvent};
use deskmate::protocol::PeerInfo;

fn info(fp: &str, name: &str) -> PeerInfo {
    PeerInfo {
        device_id: format!("dev-{fp}"),
        name: name.to_string(),
        fingerprint: fp.to_string(),
        platform: "macos".to_string(),
        avatar: None,
        os_version: None,
    }
}

fn test_peer(fp: &str, name: &str) -> Peer {
    Peer { info: info(fp, name), addrs: vec![IpAddr::v4(192, 168, 1, 2)], port: 42424 }
}

fn up_name(e: &PeerEvent) -> Option<&str> {
    match e {
        PeerEvent::Up(p) => Some(p.info.name.as_str()),
        PeerEvent::Down(_) => None,
    }
}

/// Extracts the instance device ID from an mDNS full name.
#[test]
fn instance_extraction() {
    assert_eq!(instance_of("uuid-1234._deskmate._tcp.local."), Some("uuid-1234".to_string()));
    assert_eq!(instance_of("._deskmate._tcp.local."), Some(String::new()));
    assert_eq!(instance_of("uuid-1234._other._tcp.local."), None);
    assert_eq!(instance_of("x..._deskmate._tcp.local."), Some("x".to_string()));
}

/// No prior multicast reception does not count as silence.
#[test]
fn multicast_silent_requires_prior_reception() {
    assert!(!multicast_silent(None, 5_000, 0));
}

/// A fresh pulse below the threshold is not silent.
#[test]
fn multicast_silent_fresh_pulse_is_not_silent() {
    let now = 1_000_000;
    assert!(!multicast_silent(Some(now), now, 3_600_000));
}

/// Prior multicast reception becomes silent after the threshold.
#[test]
fn multicast_silent_after_threshold() {
    let now = 1_000_000;
    assert!(multicast_silent(Some(now), now, 0));
    assert!(multicast_silent(Some(0), 60_000, 60_000));
    assert!(!multicast_silent(Some(1), 60_000, 60_000));
}

/// A pulse starts empty and holds a time after marking.
#[test]
fn pulse_mark_roundtrip() {
    let mut pulse: Option<u64> = None;
    assert!(read_pulse(&pulse).is_none());
    mark_pulse(&mut pulse, 77);
    assert_eq!(read_pulse(&pulse), Some(77));
}

/// Address normalization removes link-local IPv6, prioritizes IPv4, and may return empty.
#[test]
fn normalize_addrs_filters_and_sorts() {
    let v4 = IpAddr::v4(192, 168, 1, 2);
    let lo4 = IpAddr::v4(127, 0, 0, 1);
    let ll6 = IpAddr::V6(0xfe80u128 << 112 | 1);
    let lo6 = IpAddr::V6(1);
    assert_eq!(normalize_addrs(vec![ll6, lo6, lo4, v4]), vec![v4, lo4, lo6]);
    assert_eq!(normalize_addrs(vec![ll6]), Vec::<IpAddr>::new());
}

/// Repeated heartbeats do not emit `Up`, while information changes do.
#[test]
fn upsert_emits_only_on_change() {
    let mut reg = Registry::new("self".to_string());
    let e1 = reg.upsert(test_peer("aaa", "old"), PeerSource::Udp, 0);
    let e2 = reg.upsert(test_peer("aaa", "old"), PeerSource::Udp, 10);
    let e3 = reg.upsert(test_peer("aaa", "new"), PeerSource::Udp, 20);
    assert_eq!(e1.len(), 1);
    assert_eq!(up_name(&e1[0]), Some("old"));
    assert!(e2.is_empty());
    assert_eq!(e3.len(), 1);
    assert_eq!(up_name(&e3[0]), Some("new"));
}

/// Self-discovery packets are filtered.
#[test]
fn self_is_filtered() {
    let mut reg = Registry::new("self".to_string());
    assert!(reg.upsert(test_peer("self", "me"), PeerSource::Udp, 0).is_empty());
    assert!(reg.snapshot().is_empty());
}

/// Cross-channel address merging emits once for new addresses and keeps stable order.
#[test]
fn upsert_merges_addrs_stably() {
    let mut reg = Registry::new("self".to_string());
    let a = IpAddr::v4(192, 168, 1, 2);
    let b = IpAddr::v4(10, 0, 0, 2);
    let ev = reg.upsert(test_peer("aaa", "n"), PeerSource::Udp, 0);
    assert!(matches!(&ev[..], [PeerEvent::Up(p)] if p.addrs == vec![a]));
    let mut peer = test_peer("aaa", "n");
    peer.addrs = vec![b, a];
    let ev = reg.upsert(peer, PeerSource::Mdns, 1);
    assert!(matches!(&ev[..], [PeerEvent::Up(p)] if p.addrs == vec![a, b]));
    assert!(reg.upsert(test_peer("aaa", "n"), PeerSource::Udp, 2).is_empty());
}

/// Removal emits `Down` only for an existing peer.
#[test]
fn remove_emits_down_once() {
    let mut reg = Registry::new("self".to_string());
    reg.upsert(test_peer("bbb", "b"), PeerSource::Udp, 0);
    let first = reg.remove(&"bbb".to_string());
    let second = reg.remove(&"bbb".to_string());
    assert!(matches!(&first[..], [PeerEvent::Down(fp)] if fp == "bbb"));
    assert!(second.is_empty());
}

/// An mDNS-only peer survives heartbeat sweeps when UDP is blocked.
#[test]
fn mdns_peer_survives_sweep() {
    let mut reg = Registry::new("self".to_string());
    reg.upsert(test_peer("aaa", "n"), PeerSource::Mdns, 0);
    let (_probes, events) = reg.sweep(0, 1);
    assert!(events.is_empty());
    assert_eq!(reg.snapshot().len(), 1);
}

/// A UDP-only peer is removed after its heartbeat timeout.
#[test]
fn udp_peer_swept_after_timeout() {
    let mut reg = Registry::new("self".to_string());
    reg.upsert(test_peer("aaa", "n"), PeerSource::Udp, 0);
    let (_probes, events) = reg.sweep(0, 1);
    assert!(matches!(&events[..], [PeerEvent::Down(fp)] if fp == "aaa"));
    assert!(reg.snapshot().is_empty());
}

/// An mDNS removal without a UDP heartbeat takes the peer offline immediately.
#[test]
fn mdns_removed_downs_peer_without_udp() {
    let mut reg = Registry::new("self".to_string());
    reg.upsert(test_peer("aaa", "n"), PeerSource::Mdns, 0);
    let ev = reg.mdns_removed("dev-aaa", PEER_TIMEOUT_MS, 1);
    assert!(matches!(&ev[..], [PeerEvent::Down(fp)] if fp == "aaa"));
    assert!(reg.snapshot().is_empty());
}

/// A fresh UDP heartbeat keeps a peer online after mDNS removal until UDP expires.
#[test]
fn mdns_removed_keeps_peer_with_live_udp() {
    let mut reg = Registry::new("self".to_string());
    reg.upsert(test_peer("aaa", "n"), PeerSource::Mdns, 0);
    reg.upsert(test_peer("aaa", "n"), PeerSource::Udp, 1);
    assert!(reg.mdns_removed("dev-aaa", PEER_TIMEOUT_MS, 2).is_empty());
    assert_eq!(reg.snapshot().len(), 1);
    let (_probes, events) = reg.sweep(0, 3);
    assert!(matches!(&events[..], [PeerEvent::Down(fp)] if fp == "aaa"));
}

/// A link-local-only peer is deferred until a usable address arrives.
#[test]
fn link_local_only_peer_is_deferred() {
    let mut reg = Registry::new("self".to_string());
    let ll6 = IpAddr::V6(0xfe80u128 << 112 | 1);
    let v4 = IpAddr::v4(192, 168, 1, 2);
    let mut peer = test_peer("aaa", "n");
    peer.addrs = vec![ll6];
    assert!(reg.upsert(peer, PeerSource::Mdns, 0).is_empty());
    assert!(reg.snapshot().is_empty());
    let mut peer = test_peer("aaa", "n");
    peer.addrs = vec![ll6, v4];
    let ev = reg.upsert(peer, PeerSource::Mdns, 1);
    assert!(matches!(&ev[..], [PeerEvent::Up(p)] if p.addrs == vec![v4]));
}

/// Sweeps probe only stale mDNS-only peers, at most once per probe interval.
#[test]
fn sweep_flags_stale_mdns_only_peers_for_probe() {
    let mut reg = Registry::new("self".to_string());
    reg.upsert(test_peer("aaa", "a"), PeerSource::Mdns, 0);
    reg.upsert(test_peer("bbb", "b"), PeerSource::Udp, 40_000);
    let (probes, events) = reg.sweep(PEER_TIMEOUT_MS, 40_000);
    assert!(events.is_empty());
    assert_eq!(probes.len(), 1);
    assert_eq!(probes[0].info.fingerprint, "aaa");
    let (probes, _) = reg.sweep(PEER_TIMEOUT_MS, 40_001);
    assert!(probes.is_empty());
    assert_eq!(reg.snapshot().len(), 2);
}

/// Failed probes keep peers with fresh UDP evidence and remove mDNS-only peers.
#[test]
fn probe_failed_respects_fresh_udp() {
    let mut reg = Registry::new("self".to_string());
    reg.upsert(test_peer("aaa", "a"), PeerSource::Mdns, 0);
    reg.upsert(test_peer("aaa", "a"), PeerSource::Udp, 0);
    assert!(reg.probe_failed(&"aaa".to_string(), PEER_TIMEOUT_MS, 100).is_empty());
    assert_eq!(reg.snapshot().len(), 1);
    reg.upsert(test_peer("ccc", "c"), PeerSource::Mdns, 100);
    let ev = reg.probe_failed(&"ccc".to_string(), PEER_TIMEOUT_MS, 200);
    assert!(matches!(&ev[..], [PeerEvent::Down(fp)] if fp == "ccc"));
    assert_eq!(reg.snapshot().len(), 1);
    assert!(reg.udp_fresh(&"aaa".to_string(), PEER_TIMEOUT_MS, 200));
    assert!(!reg.udp_fresh(&"aaa".to_string(), PEER_TIMEOUT_MS, 20_000));
    assert_eq!(reg.peer_by_fingerprint(&"aaa".to_string()).unwrap().info.name, "a");
    assert!(reg.peer_by_fingerprint(&"zzz".to_string()).is_none());
}

#[test]
fn multicast_packets_refresh_pulse_and_registry() {
    let mut reg = Registry::new("self".to_string());
    let mut pulse = None;
    let src = IpAddr::v4(10, 0, 0, 9);
    // An announcement is a sighting and asks for a unicast response.
    let (ev, reply) = on_packet(&mut reg, &mut pulse, AnnounceKind::Announce, info("aaa", "a"), 5000, src, 10);
    assert!(reply);
    assert_eq!(pulse, Some(10));
    assert!(matches!(&ev[..], [PeerEvent::Up(p)] if p.addrs == vec![src] && p.port == 5000));
    // A response is a sighting too, but neither refreshes the pulse nor asks for an answer.
    let (ev, reply) = on_packet(&mut reg, &mut pulse, AnnounceKind::Response, info("bbb", "b"), 5000, src, 20);
    assert!(!reply);
    assert_eq!(pulse, Some(10));
    assert_eq!(ev.len(), 1);
    // Our own packets only refresh the pulse.
    let (ev, reply) = on_packet(&mut reg, &mut pulse, AnnounceKind::Announce, info("self", "me"), 5000, src, 30);
    assert!(ev.is_empty() && !reply);
    assert_eq!(pulse, Some(30));
    // A goodbye takes the peer offline.
    let (ev, reply) = on_packet(&mut reg, &mut pulse, AnnounceKind::Goodbye, info("aaa", "a"), 5000, src, 40);
    assert!(!reply);
    assert!(matches!(&ev[..], [PeerEvent::Down(fp)] if fp == "aaa"));
    assert_eq!(reg.snapshot().len(), 1);
    assert_eq!(AnnounceKind::Goodbye.wire_name(), "goodbye");
}

#[test]
fn passive_packets_are_empty() {
    let p = UdpPackets::encode(vec![1], vec![2], vec![3], true);
    assert!(p.announce.is_empty() && p.response.is_empty() && p.goodbye.is_empty());
    let p = UdpPackets::encode(vec![1], vec![2], vec![3], false);
    assert_eq!((p.announce, p.response, p.goodbye), (vec![1], vec![2], vec![3]));
}

#[test]
fn watchdog_rebuilds_after_sleep_or_silence() {
    // A wall clock that ran a minute ahead of the monotonic clock means a wake.
    assert_eq!(watchdog_step(100_000, 30_000, None, 0, false), (true, false));
    // Silent for a minute after earlier traffic: rebuild and report once.
    assert_eq!(watchdog_step(30_000, 30_000, Some(0), 60_000, false), (true, true));
    assert_eq!(watchdog_step(30_000, 30_000, Some(0), 90_000, true), (true, true));
    // Traffic again: nothing to do, and the report is reset.
    assert_eq!(watchdog_step(30_000, 30_000, Some(89_000), 90_000, true), (false, false));
    // Never received anything: no rebuild.
    assert_eq!(watchdog_step(30_000, 30_000, None, 90_000, false), (false, false));
}

#[test]
fn mdns_names_and_txt_records() {
    assert_eq!(service_fullname("dev-1"), "dev-1._deskmate._tcp.local.");
    let mut i = info("fp1", "Mac");
    i.avatar = Some("🐱".to_string());
    let props = mdns_properties(&i);
    let keys: Vec<&str> = props.iter().map(|(k, _)| k.as_str()).collect();
    assert_eq!(keys, ["id", "name", "fp", "platform", "avatar"]);
    assert_eq!(props[2].1, "fp1");
    i.os_version = Some("macOS 15".to_string());
    assert_eq!(mdns_properties(&i).last().unwrap(), &("osv".to_string(), "macOS 15".to_string()));
}

#[test]
fn peers_from_txt_need_required_fields_and_an_address() {
    let v4 = IpAddr::v4(192, 168, 1, 2);
    let ll6 = IpAddr::V6(0xfe80u128 << 112 | 1);
    let s = |x: &str| Some(x.to_string());
    let p = peer_from_txt(s("id"), s("n"), s("fp"), s("linux"), None, s("Ubuntu 24"), vec![ll6, v4], 42424)
        .unwrap();
    assert_eq!(p.addrs, vec![v4]);
    assert_eq!(p.info.os_version.as_deref(), Some("Ubuntu 24"));
    assert!(peer_from_txt(s("id"), None, s("fp"), s("linux"), None, None, vec![v4], 1).is_none());
    assert!(peer_from_txt(s("id"), s("n"), s("fp"), s("linux"), None, None, vec![ll6], 1).is_none());
}

#[test]
fn stealth_switches_and_probes() {
    let mut st = BroadcastState::new(info("fp", "n"), false, Some("svc".to_string()));
    assert!(matches!(st.set_passive(false), StealthChange::Unchanged));
    match st.set_passive(true) {
        StealthChange::Enter { unregister } => assert_eq!(unregister.as_deref(), Some("svc")),
        other => panic!("unexpected {other:?}"),
    }
    assert!(st.mdns_fullname.is_none());
    assert!(!st.update_info(info("fp", "renamed")));
    assert!(matches!(st.set_passive(false), StealthChange::Leave));
    assert!(st.update_info(info("fp", "again")));
    st.registered("svc2".to_string());
    assert_eq!(st.take_fullname().as_deref(), Some("svc2"));
    assert!(st.take_fullname().is_none());

    assert!(probe_proves_alive("abc", &Some("abc".to_string())));
    assert!(!probe_proves_alive("abc", &Some("abd".to_string())));
    assert!(!probe_proves_alive("abc", &None));
    assert!(matches!(after_failed_probe("d1", true, true), ProbeFollowUp::Keep));
    match after_failed_probe("d1", false, true) {
        ProbeFollowUp::Verify(n) => assert_eq!(n, "d1._deskmate._tcp.local."),
        other => panic!("unexpected {other:?}"),
    }
    assert!(matches!(after_failed_probe("d1", false, false), ProbeFollowUp::Remove));
    assert!(channels_started(false, true).is_ok());
    assert!(matches!(channels_started(false, false), Err(DiscoveryError::AllChannelsFailed)));
    assert_eq!(
        DiscoveryError::AllChannelsFailed.message(),
        "discovery unavailable: both mDNS and UDP multicast failed to initialize"
    );
}

#[test]
fn address_text_examples() {
    assert_eq!(addr_text(&IpAddr::v4(192, 168, 1, 2)), "192.168.1.2");
    assert_eq!(addr_text(&IpAddr::V4(0)), "0.0.0.0");
    assert_eq!(addr_text(&IpAddr::V6(0)), "::");
    assert_eq!(addr_text(&IpAddr::V6(1)), "::1");
    assert_eq!(addr_text(&IpAddr::V6(0xfe80 << 112 | 1)), "fe80::1");
    assert_eq!(addr_text(&IpAddr::V6(0xffff_0102_0304)), "::ffff:1.2.3.4");
    assert_eq!(addr_text(&IpAddr::V6(0x2001_0db8_0000_0001_0000_0000_0000_0001)), "2001:db8:0:1::1");
    assert_eq!(addr_text(&IpAddr::V6(0x0001_0000_0002_0000_0003_0004_0005_0006)), "1:0:2:0:3:4:5:6");
    assert_eq!(addr_text(&IpAddr::V6(0x0001_0000_0000_0002_0000_0000_0003_0004)), "1::2:0:0:3:4");
}

#[test]
fn address_text_edge_cases() {
    assert_eq!(addr_text(&IpAddr::V4(u32::MAX)), "255.255.255.255");
    assert_eq!(addr_text(&IpAddr::V6(u128::MAX)), "ffff:ffff:ffff:ffff:ffff:ffff:ffff:ffff");
    assert_eq!(addr_text(&IpAddr::V6(0xffff << 32)), "::ffff:0.0.0.0");
    assert_eq!(addr_text(&IpAddr::V6(0xfffe << 32)), "::fffe:0:0");
    assert_eq!(addr_text(&IpAddr::V6(1 << 112)), "1::");
    assert_eq!(addr_text(&IpAddr::V6(0x0001_0002_0003_0004_0005_0006_0007_0000)), "1:2:3:4:5:6:7:0");
    assert_eq!(addr_text(&IpAddr::V6(0x0000_0001_0000_0000_0000_0002_0000_0000)), "0:1::2:0:0");
    assert_eq!(addr_text(&IpAddr::V6(0x00ab_0000_0000_0000_0000_0000_0000_0c0d)), "ab::c0d");
}

/// A second sweep at the same instant probes nobody and takes nobody down.
#[test]
fn second_sweep_at_the_same_time_is_quiet() {
    let mut reg = Registry::new("self".to_string());
    reg.upsert(test_peer("aaa", "a"), PeerSource::Mdns, 0);
    reg.upsert(test_peer("bbb", "b"), PeerSource::Udp, 0);
    reg.upsert(test_peer("ccc", "c"), PeerSource::Mdns, 0);
    let (probes, events) = reg.sweep(PEER_TIMEOUT_MS, 40_000);
    assert_eq!(probes.len(), 2);
    assert!(matches!(&events[..], [PeerEvent::Down(fp)] if fp == "bbb"));
    let (probes, events) = reg.sweep(PEER_TIMEOUT_MS, 40_000);
    assert!(probes.is_empty());
    assert!(events.is_empty());
    assert_eq!(reg.snapshot().len(), 2);
}

/// Refreshing a known peer keeps the addresses it already had.
#[test]
fn upsert_keeps_known_addresses() {
    let mut reg = Registry::new("self".to_string());
    reg.upsert(test_peer("aaa", "a"), PeerSource::Mdns, 0);
    let mut peer = test_peer("aaa", "a2");
    peer.addrs = vec![IpAddr::v4(10, 0, 0, 7), IpAddr::V6(0xfe80u128 << 112 | 1)];
    reg.upsert(peer, PeerSource::Udp, 1);
    let stored = reg.peer_by_fingerprint(&"aaa".to_string()).unwrap();
    assert_eq!(stored.info.name, "a2");
    assert!(stored.addrs.contains(&IpAddr::v4(192, 168, 1, 2)));
    assert!(stored.addrs.contains(&IpAddr::v4(10, 0, 0, 7)));
    assert_eq!(stored.addrs.len(), 2);
}
