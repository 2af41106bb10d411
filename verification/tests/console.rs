//! Command-line texts and decisions.

use deskmate::console::{
    addrs_label, default_data_dir, default_download_dir, event_lines, home_dir, is_yes, listen_decision,
    not_found_message, offer_lines, target_hit,
};
use deskmate::discovery::addrs::IpAddr;
use deskmate::protocol::{FileMeta, PeerInfo};
use deskmate::transfer::receiver::OfferDecision;
use deskmate::transfer::{ConflictPolicy, TransferEvent};

fn peer(name: &str, fp: &str) -> PeerInfo {
    PeerInfo {
        device_id: "d".into(),
        name: name.into(),
        fingerprint: fp.into(),
        platform: "macos".into(),
        avatar: None,
        os_version: None,
    }
}

fn meta(id: u32, rel: &str, size: u64) -> FileMeta {
    FileMeta { file_id: id, rel_path: rel.into(), size, inline_image: false }
}

#[test]
fn directories_follow_home() {
    assert_eq!(home_dir(Some("/h".into()), Some("/p".into())), "/h");
    assert_eq!(home_dir(None, Some("/p".into())), "/p");
    assert_eq!(home_dir(None, None), ".");
    assert_eq!(default_data_dir(Some("/h".into()), None), "/h/.deskmate");
    assert_eq!(default_download_dir(Some("/h".into()), None), "/h/Downloads/deskmate");
}

#[test]
fn address_labels() {
    let lan = IpAddr::v4(192, 168, 1, 2);
    assert_eq!(addrs_label(&vec![], 1), "-");
    assert_eq!(addrs_label(&vec![lan], 42424), "192.168.1.2:42424");
    assert_eq!(addrs_label(&vec![lan, IpAddr::V6(1), IpAddr::v4(10, 0, 0, 1)], 42424), "192.168.1.2:42424 (+2)");
    assert_eq!(addrs_label(&vec![IpAddr::V6(1)], 7), "::1:7");
}

#[test]
fn targets_match_name_prefix_or_address() {
    let p = peer("Mac", "abcdef0123");
    let addrs = vec![IpAddr::v4(192, 168, 1, 9), IpAddr::V6(0xfe80 << 112 | 1)];
    assert!(target_hit(&p, &addrs, "Mac"));
    assert!(target_hit(&p, &addrs, "abcd"));
    assert!(target_hit(&p, &addrs, "192.168.1.9"));
    assert!(target_hit(&p, &addrs, "fe80::1"));
    assert!(!target_hit(&p, &addrs, "192.168.1.90"));
    assert!(!target_hit(&p, &addrs, "mac"));
    assert!(!target_hit(&p, &addrs, "bcd"));
    assert!(!target_hit(&p, &addrs, "abcdef0123456"));
    assert_eq!(
        not_found_message("x", &vec![]),
        "peer \"x\" was not found within 8s; currently visible: (none)"
    );
    assert_eq!(
        not_found_message("x", &vec!["A".into(), "B".into()]),
        "peer \"x\" was not found within 8s; currently visible: A, B"
    );
}

#[test]
fn prompt_answers() {
    assert!(is_yes("y\n"));
    assert!(is_yes("  yes "));
    assert!(is_yes("Y"));
    assert!(!is_yes("no"));
    assert!(!is_yes("YES"));
    assert!(!is_yes(""));
}

#[test]
fn listen_decisions_accept_everything_or_reject() {
    let files = vec![meta(0, "a", 1), meta(1, "b", 2)];
    match listen_decision(true, &files) {
        OfferDecision::Accept { accepted_files, save_dir, conflict } => {
            assert_eq!(accepted_files, vec![0, 1]);
            assert!(save_dir.is_none());
            assert_eq!(conflict, ConflictPolicy::Rename);
        }
        other => panic!("unexpected {other:?}"),
    }
    assert!(matches!(
        listen_decision(false, &files),
        OfferDecision::Reject { reason: Some(ref r) } if r == "rejected by receiver"
    ));
}

#[test]
fn offer_and_event_lines() {
    let lines = offer_lines(&peer("Mac", "f"), &vec![meta(0, "a.txt", 1536), meta(1, "b", 10)], 1546);
    assert_eq!(
        lines,
        vec![
            "\n📥 Transfer request from Mac (macos):".to_string(),
            "   a.txt (1.5 KB)".to_string(),
            "   b (10 B)".to_string(),
            "   2 file(s), 1.5 KB total".to_string(),
        ]
    );
    let progress = TransferEvent::Progress { transfer_id: "t".into(), file_id: 0, rel_path: "a".into(), done: 1, size: 2 };
    assert!(event_lines(&progress).is_empty());
    let done = TransferEvent::FileCompleted { transfer_id: "t".into(), file_id: 0, path: "/d/a".into(), inline_image: false };
    assert_eq!(event_lines(&done), vec!["  ✓ /d/a".to_string()]);
    let cut = TransferEvent::Interrupted { transfer_id: "t".into(), reason: "gone".into(), code: "io", detail: None };
    assert_eq!(
        event_lines(&cut),
        vec!["⚠ Transfer interrupted: gone (incomplete data retained for resuming)".to_string()]
    );
    let text = TransferEvent::TextReceived { from: peer("Mac", "f"), text: "hi\nthere".into() };
    assert_eq!(
        event_lines(&text),
        vec!["📋 Text from Mac (verified byte for byte):".to_string(), "hi\nthere".to_string()]
    );
}
