//! Protocol constants, frames, versions and path sanitization.

use deskmate::protocol::{
    check_version, decode_frame, encode_frame, frame_len, major_of, ControlMessage, PeerInfo,
    ProtocolError, MAX_FRAME_LEN,
};
use deskmate::transfer::paths::{path_join, sanitize_component, sanitize_rel_path, sanitize_rel_path_for};
use deskmate::transfer::TransferError;
use deskmate::{DEFAULT_DISCOVERY_PORT, DEFAULT_TCP_PORT, PROTOCOL_VERSION};

/// The protocol version uses a parseable `major.minor` format.
#[test]
fn lib_protocol_version_format() {
    let parts: Vec<&str> = PROTOCOL_VERSION.split('.').collect();
    assert_eq!(parts.len(), 2);
    assert!(parts.iter().all(|p| p.parse::<u32>().is_ok()));
}

/// The control and discovery ports must not conflict.
#[test]
fn lib_default_ports_distinct() {
    assert_ne!(DEFAULT_TCP_PORT, DEFAULT_DISCOVERY_PORT);
}

/// Path sanitization rejects traversal and accepts normal relative paths.
#[test]
fn tests_sanitize_blocks_traversal() {
    assert!(sanitize_rel_path("../evil.sh").is_err());
    assert!(sanitize_rel_path("a/../../evil").is_err());
    assert!(sanitize_rel_path("/etc/passwd").is_err());
    assert!(sanitize_rel_path("..\\win\\style").is_err());
    assert!(sanitize_rel_path("").is_err());
    assert_eq!(sanitize_rel_path("a/b/c.txt").unwrap(), "a/b/c.txt");
    assert_eq!(sanitize_rel_path("./a/./b").unwrap(), "a/b");
    assert_eq!(sanitize_rel_path(".hidden").unwrap(), ".hidden");
}

/// Windows sanitization handles invalid characters, reserved names, and trailing dots/spaces.
#[test]
fn tests_sanitize_windows_rules() {
    assert_eq!(sanitize_rel_path_for("report:final.pdf", true).unwrap(), "report_final.pdf");
    assert_eq!(sanitize_rel_path_for("report:final.pdf", false).unwrap(), "report:final.pdf");
    assert_eq!(
        sanitize_rel_path_for("a?b*c<d>e\"f|g.txt", true).unwrap(),
        "a_b_c_d_e_f_g.txt"
    );
    assert_eq!(sanitize_rel_path_for("CON.txt", true).unwrap(), "_CON.txt");
    assert_eq!(sanitize_rel_path_for("dir/nul", true).unwrap(), "dir/_nul");
    assert_eq!(sanitize_rel_path_for("lpt9.log", true).unwrap(), "_lpt9.log");
    assert_eq!(sanitize_rel_path_for("dir./file. ", true).unwrap(), "dir/file");
    assert_eq!(sanitize_rel_path_for("a/...", true).unwrap(), "a/_");
    assert_eq!(sanitize_rel_path_for("CONS.txt", true).unwrap(), "CONS.txt");
    assert!(sanitize_rel_path_for("../evil", true).is_err());
}

/// Matching major versions are compatible; different majors are rejected.
#[test]
fn version_compat() {
    assert!(check_version("1.0").is_ok());
    assert!(check_version("1.9").is_ok());
    assert!(matches!(
        check_version("2.0"),
        Err(ProtocolError::VersionMismatch { .. })
    ));
}

#[test]
fn version_mismatch_names_both_versions() {
    match check_version("2.3") {
        Err(ProtocolError::VersionMismatch { peer, local }) => {
            assert_eq!(peer, "2.3");
            assert_eq!(local, "1.5");
        }
        other => panic!("unexpected {other:?}"),
    }
    assert_eq!(major_of("12.4"), "12");
    assert_eq!(major_of("7"), "7");
    assert_eq!(major_of(""), "");
}

#[test]
fn invalid_path_keeps_original_text() {
    match sanitize_rel_path("a\\..\\..\\x") {
        Err(TransferError::InvalidPath { path }) => assert_eq!(path, "a\\..\\..\\x"),
        other => panic!("unexpected {other:?}"),
    }
    assert_eq!(sanitize_rel_path("a\\b\\c").unwrap(), "a/b/c");
    assert_eq!(sanitize_rel_path("a//b/").unwrap(), "a/b");
    assert!(sanitize_rel_path("././.").is_err());
}

#[test]
fn component_rules_only_apply_on_windows() {
    assert_eq!(sanitize_component("aux.c", true), "_aux.c");
    assert_eq!(sanitize_component("aux.c", false), "aux.c");
    assert_eq!(sanitize_component(" . ", true), "_");
    assert_eq!(sanitize_component("tab\there", true), "tab_here");
}

#[test]
fn paths_join_like_unix() {
    assert_eq!(path_join("/tmp", "a"), "/tmp/a");
    assert_eq!(path_join("/tmp/", "a"), "/tmp/a");
    assert_eq!(path_join("", "a"), "a");
    assert_eq!(path_join("/tmp", "/abs"), "/abs");
}

#[test]
fn frame_roundtrip_and_split() {
    let body = b"{\"type\":\"bye\"}".to_vec();
    let frame = encode_frame(&body).unwrap();
    assert_eq!(&frame[..4], &(body.len() as u32).to_be_bytes());
    let mut buf = frame.clone();
    buf.extend_from_slice(b"rest");
    let (got, used) = decode_frame(&buf).unwrap().unwrap();
    assert_eq!(got, body);
    assert_eq!(used, frame.len());
    // An incomplete frame asks for more bytes.
    assert!(decode_frame(&frame[..frame.len() - 1]).unwrap().is_none());
    assert!(decode_frame(&frame[..3]).unwrap().is_none());
}

/// The reader rejects an oversized frame before reading its body.
#[test]
fn oversized_frame_rejected() {
    let bogus = (MAX_FRAME_LEN + 1).to_be_bytes();
    assert!(matches!(frame_len(&bogus), Err(ProtocolError::FrameTooLarge(n)) if n == MAX_FRAME_LEN + 1));
    assert!(matches!(decode_frame(&bogus), Err(ProtocolError::FrameTooLarge(_))));
    assert_eq!(frame_len(&MAX_FRAME_LEN.to_be_bytes()).unwrap(), MAX_FRAME_LEN);
    let big = vec![0u8; MAX_FRAME_LEN as usize + 1];
    assert!(matches!(encode_frame(&big), Err(ProtocolError::FrameTooLarge(_))));
}

#[test]
fn message_kinds_and_error_texts() {
    assert_eq!(ControlMessage::Bye.kind(), "bye");
    assert_eq!(ControlMessage::DataHello { transfer_id: "t".into() }.kind(), "data_hello");
    let info = PeerInfo {
        device_id: "d".into(),
        name: "n".into(),
        fingerprint: "f".into(),
        platform: "linux".into(),
        avatar: None,
        os_version: None,
    };
    assert_eq!(ControlMessage::Hello { version: "1.5".into(), info }.kind(), "hello");
    assert_eq!(
        ProtocolError::FrameTooLarge(2000000).message(),
        "frame length 2000000 bytes exceeds the 1048576-byte limit"
    );
    assert_eq!(
        ProtocolError::Unexpected { expected: "hello_ack".into(), got: "bye".into() }.message(),
        "unexpected message: expected hello_ack, received bye"
    );
}

#[test]
fn sanitizing_twice_changes_nothing() {
    for rel in ["./a/./b", "a\\b\\c", "a//b/", "report:final.pdf", "dir./file. ", "CON.txt", "a/...", ".hidden"] {
        for windows in [false, true] {
            let once = sanitize_rel_path_for(rel, windows).unwrap();
            assert_eq!(sanitize_rel_path_for(&once, windows).unwrap(), once, "{rel} {windows}");
        }
    }
}

#[test]
fn every_message_kind_is_distinct() {
    let info = || PeerInfo {
        device_id: "d".into(),
        name: "n".into(),
        fingerprint: "f".into(),
        platform: "linux".into(),
        avatar: None,
        os_version: None,
    };
    let t = || "t".to_string();
    let all = vec![
        ControlMessage::Hello { version: "1.5".into(), info: info() },
        ControlMessage::HelloAck { version: "1.5".into(), info: info() },
        ControlMessage::TransferRequest { transfer_id: t(), files: vec![], total_size: 0, pin: None },
        ControlMessage::TransferResponse {
            transfer_id: t(),
            accepted_files: vec![],
            reason: None,
            pin_required: false,
            reason_code: None,
        },
        ControlMessage::Text { text: "x".into(), pin: None },
        ControlMessage::TextAck,
        ControlMessage::TextRejected { pin_required: false },
        ControlMessage::Pause { transfer_id: t() },
        ControlMessage::Resume { transfer_id: t() },
        ControlMessage::Cancel { transfer_id: t() },
        ControlMessage::DataHello { transfer_id: t() },
        ControlMessage::FileHeader { file_id: 0, offset: 0 },
        ControlMessage::FileFooter { file_id: 0, hash: "h".into() },
        ControlMessage::ResumeQuery { transfer_id: t() },
        ControlMessage::ResumeInfo { transfer_id: t(), files: vec![] },
        ControlMessage::AvatarRequest,
        ControlMessage::AvatarResponse { hash: "h".into(), size: 0 },
        ControlMessage::DataDone,
        ControlMessage::Bye,
    ];
    let kinds: Vec<&str> = all.iter().map(|m| m.kind()).collect();
    assert_eq!(kinds[1], "hello_ack");
    assert_eq!(kinds[17], "data_done");
    for i in 0..kinds.len() {
        for j in 0..kinds.len() {
            assert_eq!(kinds[i] == kinds[j], i == j, "{} {}", kinds[i], kinds[j]);
        }
    }
}

#[test]
fn every_error_code_is_distinct() {
    let s = || "x".to_string();
    let all = vec![
        TransferError::Io(s()),
        TransferError::Protocol(ProtocolError::Io(s())),
        TransferError::Tls(deskmate::tls::TlsError::Config(s())),
        TransferError::PeerMismatch,
        TransferError::InvalidPath { path: s() },
        TransferError::SourceNotFound(s()),
        TransferError::Rejected { reason: None, reason_code: None },
        TransferError::HashMismatch { rel_path: s() },
        TransferError::Cancelled,
        TransferError::Timeout(s()),
        TransferError::BadFileId(1),
        TransferError::UnknownTransfer(s()),
        TransferError::DuplicateDataSession(s()),
        TransferError::ResumeUnavailable(s()),
        TransferError::ResumeOffsetMismatch { offset: 1, part_len: 2 },
        TransferError::AvatarTooLarge { size: 1 },
        TransferError::PinRequired,
        TransferError::NoValidFiles,
    ];
    let codes: Vec<&str> = all.iter().map(|e| e.code()).collect();
    assert_eq!(codes[14], "resume_offset_mismatch");
    assert_eq!(TransferError::BadFileId(7).code(), codes[10]);
    for i in 0..codes.len() {
        for j in 0..codes.len() {
            assert_eq!(codes[i] == codes[j], i == j, "{} {}", codes[i], codes[j]);
        }
    }
}
