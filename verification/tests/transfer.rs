//! Receiver and sender rules: PIN gate, task table, requests, resume,
//! data-stream checks, naming, and errors.

use deskmate::protocol::{ControlMessage, FileMeta, PeerInfo, ProtocolError, ResumeFileState};
use deskmate::transfer::ignore_rules::{child_rel, finish_collection, walk_action, IgnoreRules, WalkAction};
use deskmate::transfer::pending::{PendingTable, PendingTransfer};
use deskmate::transfer::pin::PinGate;
use deskmate::transfer::receiver::{
    answer_request, avatar_data, avatar_reply, check_footer, check_resume_offset,
    classify_first_frame, dedup_candidate, dedup_choice, dedup_path, discards_part, fallback_candidate, effective_pin, entry_part_path_of,
    finish_session, header_entry, is_safe_transfer_id, next_data_step, part_path_of,
    resume_meta_path, resume_states, target_of, ControlAction, DataStep, OfferDecision,
    ReceiverState, RequestOutcome, ResumeMeta, SessionKind,
};
use deskmate::transfer::sender::{
    build_manifest, check_avatar, check_hello_ack, command_for, farewell, new_send_plan,
    on_remote_frame, plan_summary, read_avatar_header, read_offer_response, read_resume_info,
    read_text_reply, resume_plan, send_result_event, sync_command, total_size, RemoteCommand,
    SourceEntry,
};
use deskmate::transfer::{
    ended_event, wait_outcome, write_may_continue, ConflictPolicy, ControlState, TransferError,
    TransferEvent, PART_SUFFIX,
};

fn peer(fp: &str) -> PeerInfo {
    PeerInfo {
        device_id: format!("dev-{fp}"),
        name: format!("name-{fp}"),
        fingerprint: fp.to_string(),
        platform: "linux".to_string(),
        avatar: None,
        os_version: None,
    }
}

fn meta(id: u32, rel: &str, size: u64) -> FileMeta {
    FileMeta { file_id: id, rel_path: rel.to_string(), size, inline_image: false }
}

fn response(m: &ControlMessage) -> (String, Vec<u32>, Option<String>, bool, Option<String>) {
    match m {
        ControlMessage::TransferResponse { transfer_id, accepted_files, reason, pin_required, reason_code } => (
            transfer_id.clone(),
            accepted_files.clone(),
            reason.clone(),
            *pin_required,
            reason_code.clone(),
        ),
        other => panic!("not a response: {other:?}"),
    }
}

/// The PIN gate admits the right PIN and turns away a missing or wrong one.
#[test]
fn pin_gate_blocks_and_admits() {
    let mut gate = PinGate::new();
    let pin = Some("1234".to_string());
    assert!(!gate.check(&pin, "a", &None, 0));
    assert!(!gate.check(&pin, "a", &Some("0000".to_string()), 1));
    assert!(gate.check(&pin, "a", &Some("1234".to_string()), 2));
    // Without a configured PIN every request passes.
    assert!(gate.check(&None, "b", &None, 3));
}

/// Five failures lock one source out for the window; others are unaffected.
#[test]
fn pin_lockout_is_per_peer() {
    let mut gate = PinGate::new();
    let pin = Some("1234".to_string());
    let wrong = Some("0000".to_string());
    for t in 0..5 {
        assert!(!gate.check(&pin, "attacker", &wrong, t));
    }
    // Locked out even with the right PIN.
    assert!(!gate.check(&pin, "attacker", &pin, 10));
    // Another device still gets in.
    assert!(gate.check(&pin, "friend", &pin, 10));
    // After the window the source may try again.
    assert!(gate.check(&pin, "attacker", &pin, 61_000));
}

#[test]
fn success_clears_failures() {
    let mut gate = PinGate::new();
    let pin = Some("9".to_string());
    let wrong = Some("0".to_string());
    for t in 0..4 {
        assert!(!gate.check(&pin, "x", &wrong, t));
    }
    assert!(gate.check(&pin, "x", &pin, 5));
    // The count starts over: four more failures do not lock.
    for t in 6..10 {
        assert!(!gate.check(&pin, "x", &wrong, t));
    }
    assert!(gate.check(&pin, "x", &pin, 11));
}

fn task(id: &str, fp: &str, now: u64) -> PendingTransfer {
    PendingTransfer {
        transfer_id: id.to_string(),
        peer: peer(fp),
        files: vec![meta(0, "a.txt", 3)],
        accepted: vec![0],
        save_dir: "/dl".to_string(),
        conflict: ConflictPolicy::Rename,
        control: ControlState::Running,
        active: false,
        registered_at: now,
    }
}

#[test]
fn pending_tasks_are_claimed_once() {
    let mut t = PendingTable::new();
    assert!(t.register(task("t1", "fpA", 0)));
    assert!(!t.register(task("t1", "fpB", 0)));
    assert!(matches!(t.claim("t1", "fpB"), Err(TransferError::PeerMismatch)));
    let plan = t.claim("t1", "fpA").unwrap();
    assert_eq!(plan.save_dir, "/dl");
    assert_eq!(plan.accepted, vec![0]);
    assert!(matches!(t.claim("t1", "fpA"), Err(TransferError::DuplicateDataSession(id)) if id == "t1"));
    assert!(matches!(t.claim("nope", "fpA"), Err(TransferError::UnknownTransfer(id)) if id == "nope"));
    assert!(t.set_control("t1", ControlState::Paused));
    assert_eq!(t.control_of("t1"), Some(ControlState::Paused));
    let cancelled = t.cancel("t1").unwrap();
    assert_eq!(cancelled.control, ControlState::Cancelled);
    assert!(!t.set_control("t1", ControlState::Running));
    assert!(!t.contains("t1"));
}

#[test]
fn sweep_removes_only_stale_unclaimed_tasks() {
    let mut t = PendingTable::new();
    t.register(task("old", "f", 0));
    t.register(task("busy", "f", 0));
    t.register(task("new", "f", 250_000));
    t.claim("busy", "f").unwrap();
    let removed = t.sweep(300_001, 300_000);
    assert_eq!(removed, vec!["old".to_string()]);
    assert!(t.contains("busy") && t.contains("new") && !t.contains("old"));
}

#[test]
fn requests_are_answered_from_the_decision() {
    let mut table = PendingTable::new();
    let files = vec![meta(0, "a", 1), meta(1, "b", 2)];
    // Unsafe IDs are refused before anything else.
    let (r, m) = answer_request(&mut table, &peer("p"), "../x".into(), vec![], RequestOutcome::Unavailable, "/d", 0);
    assert_eq!(response(&r), ("../x".into(), vec![], Some("invalid transfer task ID".into()), false, Some("bad_transfer_id".into())));
    assert!(m.is_none());
    let (r, _) = answer_request(&mut table, &peer("p"), "t".into(), vec![], RequestOutcome::Unavailable, "/d", 0);
    assert_eq!(response(&r).4.as_deref(), Some("receiver_unavailable"));
    let (r, _) = answer_request(&mut table, &peer("p"), "t".into(), vec![], RequestOutcome::TimedOut, "/d", 0);
    assert_eq!(response(&r).2.as_deref(), Some("receiver decision timed out"));
    let (r, _) = answer_request(
        &mut table, &peer("p"), "t".into(), vec![],
        RequestOutcome::Decided(OfferDecision::Reject { reason: Some("busy".into()) }), "/d", 0,
    );
    assert_eq!(response(&r), ("t".into(), vec![], Some("busy".into()), false, Some("declined".into())));
    // Unknown file IDs are dropped; none left is a refusal.
    let decide = |ids: Vec<u32>, dir: Option<&str>| RequestOutcome::Decided(OfferDecision::Accept {
        accepted_files: ids,
        save_dir: dir.map(|d| d.to_string()),
        conflict: ConflictPolicy::Overwrite,
    });
    let (r, _) = answer_request(&mut table, &peer("p"), "t".into(), files.iter().map(|f| meta(f.file_id, &f.rel_path, f.size)).collect(), decide(vec![7], None), "/d", 0);
    assert_eq!(response(&r).4.as_deref(), Some("no_valid_files"));
    let (r, m) = answer_request(&mut table, &peer("p"), "t".into(), files, decide(vec![1, 9], None), "/d", 5);
    assert_eq!(response(&r), ("t".into(), vec![1], None, false, None));
    let m = m.unwrap();
    assert_eq!(m.save_dir, "/d");
    assert_eq!(m.accepted, vec![1]);
    assert_eq!(m.conflict, ConflictPolicy::Overwrite);
    assert!(table.contains("t"));
    // A second request with a live ID is refused.
    let (r, m) = answer_request(&mut table, &peer("p"), "t".into(), vec![meta(1, "b", 2)], decide(vec![1], Some("/x")), "/d", 6);
    assert_eq!(response(&r).4.as_deref(), Some("duplicate_task"));
    assert!(m.is_none());
}

#[test]
fn resume_negotiation_rebuilds_the_task() {
    let mut table = PendingTable::new();
    let m = ResumeMeta {
        peer_fingerprint: "p".into(),
        files: vec![meta(0, "a", 10), meta(1, "b", 10), meta(2, "../c", 10), meta(3, "d", 10)],
        accepted: vec![0, 1, 2, 3],
        completed: vec![1],
        save_dir: "/dl".into(),
        conflict: ConflictPolicy::Rename,
    };
    let dup = |m: &ResumeMeta| ResumeMeta {
        peer_fingerprint: m.peer_fingerprint.clone(),
        files: m.files.iter().map(|f| meta(f.file_id, &f.rel_path, f.size)).collect(),
        accepted: m.accepted.clone(),
        completed: m.completed.clone(),
        save_dir: m.save_dir.clone(),
        conflict: m.conflict,
    };
    // Another device gets nothing.
    assert!(resume_states(&mut table, &peer("q"), "t1", Some(dup(&m)), &vec![4, 0, 0, 20], 0).is_empty());
    assert!(resume_states(&mut table, &peer("p"), "t1", None, &vec![], 0).is_empty());
    let states = resume_states(&mut table, &peer("p"), "t1", Some(dup(&m)), &vec![4, 0, 0, 20], 0);
    let got: Vec<(u32, u64)> = states.iter().map(|s| (s.file_id, s.received)).collect();
    // Completed and unsafe entries are skipped; an oversized part restarts at zero.
    assert_eq!(got, vec![(0, 4), (3, 0)]);
    assert!(table.contains("t1"));
    // While the task is live, a second query gets nothing.
    assert!(resume_states(&mut table, &peer("p"), "t1", Some(dup(&m)), &vec![], 0).is_empty());
}

#[test]
fn control_frames_follow_the_pin_gate() {
    let mut st = ReceiverState::new();
    let pin = Some("42".to_string());
    let req = |p: Option<&str>| ControlMessage::TransferRequest {
        transfer_id: "t".into(),
        files: vec![meta(0, "a", 1)],
        total_size: 1,
        pin: p.map(|x| x.to_string()),
    };
    match st.on_control_message(&peer("p"), req(None), &pin, 0) {
        ControlAction::Reply(m) => assert_eq!(
            response(&m),
            ("t".into(), vec![], Some("a valid pairing PIN is required".into()), true, Some("pin_required".into()))
        ),
        other => panic!("unexpected {other:?}"),
    }
    assert!(matches!(st.on_control_message(&peer("p"), req(Some("42")), &pin, 1), ControlAction::Offer { .. }));
    let text = ControlMessage::Text { text: "hi".into(), pin: None };
    assert!(matches!(
        st.on_control_message(&peer("p"), text, &pin, 2),
        ControlAction::Reply(ControlMessage::TextRejected { pin_required: true })
    ));
    let text = ControlMessage::Text { text: "hi".into(), pin: Some("42".into()) };
    assert!(matches!(st.on_control_message(&peer("p"), text, &pin, 3), ControlAction::DeliverText { text } if text == "hi"));
    assert!(matches!(st.on_control_message(&peer("p"), ControlMessage::Pause { transfer_id: "t".into() }, &pin, 4), ControlAction::Nothing));
    assert!(matches!(st.on_control_message(&peer("p"), ControlMessage::Bye, &pin, 5), ControlAction::End));
    assert!(matches!(st.on_control_message(&peer("p"), ControlMessage::AvatarRequest, &pin, 5), ControlAction::SendAvatar));
    // With a registered task, pause and cancel reach it.
    st.pending.register(task("t", "p", 0));
    assert!(matches!(
        st.on_control_message(&peer("p"), ControlMessage::Pause { transfer_id: "t".into() }, &pin, 6),
        ControlAction::Notify(TransferEvent::Paused { .. })
    ));
    assert_eq!(st.pending.control_of("t"), Some(ControlState::Paused));
    assert!(matches!(st.resume("t"), Some(ControlMessage::Resume { .. })));
    assert!(matches!(
        st.on_control_message(&peer("p"), ControlMessage::Cancel { transfer_id: "t".into() }, &pin, 7),
        ControlAction::Stop { transfer_id } if transfer_id == "t"
    ));
    assert!(st.cancel("t").is_none());
    // A local cancel answers a `Cancel` once; the second finds nothing.
    st.pending.register(task("u", "p", 0));
    assert!(matches!(st.cancel("u"), Some(ControlMessage::Cancel { transfer_id }) if transfer_id == "u"));
    assert!(st.cancel("u").is_none());
    assert_eq!(st.pending.control_of("u"), None);
}

#[test]
fn first_frames_pick_the_session() {
    let hello = |fp: &str, v: &str| ControlMessage::Hello { version: v.into(), info: peer(fp) };
    assert!(matches!(classify_first_frame(hello("a", "1.2"), "a"), Ok(SessionKind::Control(_))));
    assert!(matches!(classify_first_frame(hello("a", "1.2"), "b"), Err(TransferError::PeerMismatch)));
    assert!(matches!(
        classify_first_frame(hello("a", "3.0"), "a"),
        Err(TransferError::Protocol(ProtocolError::VersionMismatch { .. }))
    ));
    assert!(matches!(
        classify_first_frame(ControlMessage::DataHello { transfer_id: "t".into() }, "x"),
        Ok(SessionKind::Data(t)) if t == "t"
    ));
    match classify_first_frame(ControlMessage::TextAck, "x") {
        Err(e) => assert_eq!(e.message(), "unexpected message: expected hello | data_hello, received text_ack"),
        Ok(_) => panic!("accepted"),
    }
}

#[test]
fn data_stream_checks() {
    assert!(matches!(next_data_step(&ControlMessage::FileHeader { file_id: 3, offset: 9 }), Ok(DataStep::File { file_id: 3, offset: 9 })));
    assert!(matches!(next_data_step(&ControlMessage::DataDone), Ok(DataStep::Done)));
    assert!(next_data_step(&ControlMessage::Bye).is_err());
    let mut table = PendingTable::new();
    let mut t = task("t", "p", 0);
    t.files = vec![meta(0, "a", 3), meta(1, "b", 4)];
    t.accepted = vec![1];
    table.register(t);
    let plan = table.claim("t", "p").unwrap();
    assert_eq!(header_entry(&plan, 1).unwrap().rel_path, "b");
    assert!(matches!(header_entry(&plan, 0), Err(TransferError::BadFileId(0))));
    assert!(matches!(header_entry(&plan, 5), Err(TransferError::BadFileId(5))));
    assert!(check_resume_offset(0, None).is_ok());
    assert!(check_resume_offset(7, Some(7)).is_ok());
    assert!(matches!(
        check_resume_offset(7, Some(3)),
        Err(TransferError::ResumeOffsetMismatch { offset: 7, part_len: 3 })
    ));
    assert!(matches!(check_resume_offset(7, None), Err(TransferError::ResumeOffsetMismatch { part_len: 0, .. })));
    let m = meta(1, "b", 4);
    assert!(check_footer(&m, &ControlMessage::FileFooter { file_id: 1, hash: "h".into() }, "h").is_ok());
    assert!(matches!(
        check_footer(&m, &ControlMessage::FileFooter { file_id: 1, hash: "h".into() }, "g"),
        Err(TransferError::HashMismatch { rel_path }) if rel_path == "b"
    ));
    assert!(matches!(check_footer(&m, &ControlMessage::DataDone, "g"), Err(TransferError::Protocol(_))));
    assert!(discards_part(&TransferError::Cancelled));
    assert!(discards_part(&TransferError::HashMismatch { rel_path: "x".into() }));
    assert!(!discards_part(&TransferError::Timeout("idle".into())));
    let (ev, drop_meta) = finish_session(&mut table, "t".into(), &Ok(()));
    assert!(matches!(ev, TransferEvent::Completed { .. }) && drop_meta);
    assert!(!table.contains("t"));
    let (ev, drop_meta) = finish_session(&mut table, "t".into(), &Err(TransferError::Io("reset".into())));
    assert!(!drop_meta);
    match ev {
        TransferEvent::Interrupted { reason, code, detail, .. } => {
            assert_eq!(reason, "I/O error: reset");
            assert_eq!(code, "io");
            assert_eq!(detail.as_deref(), Some("I/O error: reset"));
        }
        other => panic!("unexpected {other:?}"),
    }
}

#[test]
fn names_for_parts_and_metadata() {
    assert!(is_safe_transfer_id("0f8fad5b-d9cb-469f-a165-70867728950e"));
    assert!(!is_safe_transfer_id(""));
    assert!(!is_safe_transfer_id("a/b"));
    assert!(!is_safe_transfer_id(&"a".repeat(65)));
    assert!(is_safe_transfer_id(&"a".repeat(64)));
    assert_eq!(part_path_of("/d/f.txt", "0f8fad5b-d9cb"), format!("/d/f.txt.0f8fad5b{PART_SUFFIX}"));
    assert_eq!(part_path_of("/d/f", "ab"), "/d/f.ab.deskmate.part");
    assert_eq!(resume_meta_path("/data/resume", "t1"), "/data/resume/t1.resume.json");
    assert_eq!(entry_part_path_of("/dl", "x/y.bin", "abcdefghij").as_deref(), Some("/dl/x/y.bin.abcdefgh.deskmate.part"));
    assert!(entry_part_path_of("/dl", "../y", "a").is_none());
    assert_eq!(target_of("/dl/", "a/./b").unwrap(), "/dl/a/b");
}

/// Conflict renaming appends `(1)` and `(2)`, including names without extensions.
#[test]
fn tests_dedup_path_appends_counter() {
    // `taken[0]`: the target exists; `taken[n]`: its `n`-th alternative does.
    assert_eq!(dedup_choice("/d/f.txt", &vec![false]).unwrap(), "/d/f.txt");
    assert_eq!(dedup_choice("/d/f.txt", &vec![true, false]).unwrap(), "/d/f (1).txt");
    assert_eq!(dedup_choice("/d/f.txt", &vec![true, true, false]).unwrap(), "/d/f (2).txt");
    assert_eq!(dedup_choice("/d/bare", &vec![true, false]).unwrap(), "/d/bare (1)");
    assert_eq!(dedup_choice("/d/f.txt", &vec![true, true]), None);
    assert_eq!(dedup_path("/no/such/deskmate/f.txt"), "/no/such/deskmate/f.txt");
    assert_eq!(dedup_path("/"), "/ (1)");
    assert_eq!(dedup_candidate("/d/f.txt", 1), "/d/f (1).txt");
    assert_eq!(dedup_candidate("/d/f.txt", 2), "/d/f (2).txt");
    assert_eq!(dedup_candidate("/d/bare", 1), "/d/bare (1)");
    assert_eq!(dedup_candidate("/d/a.tar.gz", 3), "/d/a.tar (3).gz");
    assert_eq!(dedup_candidate("/d/.hidden", 1), "/d/.hidden (1)");
    assert_eq!(dedup_candidate("f.txt", 1), "f (1).txt");
}

#[test]
fn dedup_path_keeps_free_names_and_numbers_taken_ones() {
    assert_eq!(dedup_path("/no/such/deskmate/f.txt"), "/no/such/deskmate/f.txt");
    assert_eq!(dedup_path("/"), "/ (1)");
    assert_eq!(fallback_candidate("/d/f.txt", "abc"), "/d/f-abc.txt");
    assert_eq!(fallback_candidate("/d/bare", "x"), "/d/bare-x");
    assert_eq!(fallback_candidate("/d/.hidden", "x"), "/d/.hidden-x");
}

#[test]
fn avatars_pair_hash_and_bytes() {
    let (msg, payload) = avatar_reply(&None);
    assert!(matches!(msg, ControlMessage::AvatarResponse { size: 0, .. }) && payload.is_none());
    let data = avatar_data(Some(vec![1, 2, 3])).unwrap();
    assert_eq!(data.0, deskmate::identity::blake3_hex(&[1, 2, 3]));
    let (msg, payload) = avatar_reply(&Some(data));
    assert!(matches!(msg, ControlMessage::AvatarResponse { size: 3, .. }));
    assert_eq!(payload, Some(vec![1, 2, 3]));
    assert_eq!(effective_pin(Some(String::new())), None);
    assert_eq!(effective_pin(Some("7".into())), Some("7".into()));
}

#[test]
fn control_states_merge_by_priority() {
    let (running, paused, cancelled) = (ControlState::Running, ControlState::Paused, ControlState::Cancelled);
    assert_eq!(running.merge(paused), paused);
    assert_eq!(cancelled.merge(paused), cancelled);
    assert_eq!(running.merge(running), running);
    assert!(matches!(wait_outcome(running, running), Some(Ok(()))));
    assert!(wait_outcome(paused, running).is_none());
    assert!(matches!(wait_outcome(running, cancelled), Some(Err(TransferError::Cancelled))));
    assert!(write_may_continue(paused, running));
    assert!(!write_may_continue(paused, cancelled));
}

#[test]
fn error_codes_details_and_messages() {
    let e = TransferError::ResumeOffsetMismatch { offset: 10, part_len: 4 };
    assert_eq!(e.code(), "resume_offset_mismatch");
    assert_eq!(e.detail().as_deref(), Some("10 != 4"));
    assert_eq!(e.message(), "resume offset mismatch: declared 10, .part length 4 bytes");
    let e = TransferError::Rejected { reason: None, reason_code: None };
    assert_eq!(e.message(), "peer rejected transfer: no reason provided");
    assert!(e.detail().is_none());
    assert_eq!(TransferError::AvatarTooLarge { size: 9 }.message(), "avatar exceeds size limit: 9 bytes");
    assert_eq!(TransferError::BadFileId(12).detail().as_deref(), Some("12"));
    assert_eq!(TransferError::PinRequired.code(), "pin_required");
    assert_eq!(TransferError::NoValidFiles.message(), "no files available to send");
    assert!(matches!(ended_event("t".into(), &TransferError::Cancelled), TransferEvent::Cancelled { .. }));
}

#[test]
fn sender_reads_answers() {
    let resp = |ids: Vec<u32>, pin: bool| ControlMessage::TransferResponse {
        transfer_id: "t".into(),
        accepted_files: ids,
        reason: Some("no".into()),
        pin_required: pin,
        reason_code: Some("declined".into()),
    };
    assert_eq!(read_offer_response(resp(vec![2, 3], false)).unwrap(), vec![2, 3]);
    assert!(matches!(read_offer_response(resp(vec![2], true)), Err(TransferError::PinRequired)));
    assert!(matches!(
        read_offer_response(resp(vec![], false)),
        Err(TransferError::Rejected { reason: Some(r), reason_code: Some(c) }) if r == "no" && c == "declined"
    ));
    assert!(read_text_reply(&ControlMessage::TextAck).is_ok());
    assert!(matches!(read_text_reply(&ControlMessage::TextRejected { pin_required: true }), Err(TransferError::PinRequired)));
    assert!(matches!(read_text_reply(&ControlMessage::TextRejected { pin_required: false }), Err(TransferError::Protocol(_))));
    assert!(read_avatar_header(ControlMessage::AvatarResponse { hash: "h".into(), size: 0 }).unwrap().is_none());
    assert!(matches!(
        read_avatar_header(ControlMessage::AvatarResponse { hash: "h".into(), size: 262_145 }),
        Err(TransferError::AvatarTooLarge { size: 262_145 })
    ));
    assert_eq!(read_avatar_header(ControlMessage::AvatarResponse { hash: "h".into(), size: 5 }).unwrap(), Some(("h".into(), 5)));
    let good = deskmate::identity::blake3_hex(b"img");
    assert!(check_avatar(&good, b"img").is_ok());
    assert!(matches!(check_avatar(&good, b"other"), Err(TransferError::HashMismatch { rel_path }) if rel_path == "avatar"));
    match read_resume_info(ControlMessage::ResumeInfo { transfer_id: "t".into(), files: vec![] }) {
        Err(TransferError::ResumeUnavailable(why)) => assert_eq!(
            why,
            format!("peer has no resume data for this {}", "task; it may be complete or metadata may be missing")
        ),
        other => panic!("unexpected {other:?}"),
    }
    let ack = ControlMessage::HelloAck { version: "1.5".into(), info: peer("srv") };
    assert_eq!(check_hello_ack(ack, &Some("srv".into())).unwrap().fingerprint, "srv");
    let ack = ControlMessage::HelloAck { version: "1.5".into(), info: peer("srv") };
    assert!(matches!(check_hello_ack(ack, &Some("other".into())), Err(TransferError::PeerMismatch)));
}

fn entry(abs: &str, rel: &str, size: u64) -> SourceEntry {
    SourceEntry { abs_path: abs.into(), rel_path: rel.into(), size }
}

#[test]
fn send_plans() {
    let entries = vec![entry("/s/a", "a", 5), entry("/s/d/b", "d/b", 7)];
    let files = build_manifest(&entries, false);
    assert_eq!(files.iter().map(|f| (f.file_id, f.rel_path.as_str(), f.size)).collect::<Vec<_>>(), vec![(0, "a", 5), (1, "d/b", 7)]);
    assert!(files.iter().all(|f| !f.inline_image));
    assert!(build_manifest(&entries, true).iter().all(|f| f.inline_image));
    assert_eq!(total_size(&files), 12);
    let plan = new_send_plan(&entries, &files, &vec![1]);
    assert_eq!(plan.len(), 1);
    assert_eq!((plan[0].file_id, plan[0].abs_path.as_str(), plan[0].offset), (1, "/s/d/b", 0));
    let states = vec![ResumeFileState { file_id: 1, rel_path: "d/b".into(), size: 7, received: 9 }];
    let plan = resume_plan(&entries, &states).unwrap();
    assert_eq!(plan[0].offset, 7);
    let summary = plan_summary("t".into(), peer("p"), &plan);
    assert_eq!((summary.files_sent, summary.bytes_sent), (1, 0));
    let states = vec![ResumeFileState { file_id: 1, rel_path: "d/b".into(), size: 8, received: 1 }];
    assert!(matches!(resume_plan(&entries, &states), Err(TransferError::ResumeUnavailable(w)) if w == "source file changed: d/b"));
    let states = vec![ResumeFileState { file_id: 1, rel_path: "zz".into(), size: 8, received: 1 }];
    assert!(matches!(resume_plan(&entries, &states), Err(TransferError::ResumeUnavailable(w)) if w == "local file is missing: zz"));
}

#[test]
fn control_commands_beside_the_data() {
    assert!(matches!(
        on_remote_frame(&ControlMessage::Pause { transfer_id: "t".into() }, "t"),
        RemoteCommand::Apply(ControlState::Paused, TransferEvent::Paused { .. })
    ));
    assert!(matches!(on_remote_frame(&ControlMessage::Pause { transfer_id: "u".into() }, "t"), RemoteCommand::Ignore));
    assert!(matches!(on_remote_frame(&ControlMessage::Cancel { transfer_id: "t".into() }, "t"), RemoteCommand::Cancel));
    assert!(matches!(on_remote_frame(&ControlMessage::Bye, "t"), RemoteCommand::Stop));
    assert!(sync_command(ControlState::Running, ControlState::Running, "t").is_none());
    assert!(matches!(sync_command(ControlState::Running, ControlState::Paused, "t"), Some(ControlMessage::Pause { .. })));
    assert!(matches!(command_for(ControlState::Running, "t"), ControlMessage::Resume { .. }));
    let f = farewell(ControlState::Paused, ControlState::Cancelled, "t");
    assert!(matches!(&f[..], [ControlMessage::Cancel { .. }, ControlMessage::Bye]));
    let f = farewell(ControlState::Cancelled, ControlState::Cancelled, "t");
    assert!(matches!(&f[..], [ControlMessage::Bye]));
    assert!(matches!(send_result_event("t".into(), &Ok(())), TransferEvent::Completed { .. }));
}

/// The default ignore rules compile.
#[test]
fn default_ignore_rules_are_valid() {
    IgnoreRules::parse(deskmate::desktop::settings::DEFAULT_IGNORE_RULES)
        .expect("default rules should pass syntax validation");
}

#[test]
fn ignore_rules_match_like_gitignore() {
    let rules = IgnoreRules::parse("*.log\nnode_modules/\n!keep.log\n# comment").unwrap();
    assert!(rules.is_ignored("proj/debug.log", false));
    assert!(!rules.is_ignored("proj/keep.log", false));
    assert!(rules.is_ignored("proj/node_modules", true));
    assert!(!rules.is_ignored("proj/src/main.rs", false));
    let err = IgnoreRules::parse("a\n[z-a]").unwrap_err();
    assert!(err.starts_with("[z-a]: "), "{err}");
    assert_eq!(child_rel("proj", "src"), "proj/src");
    assert_eq!(walk_action(true, true, false), WalkAction::Skip);
    assert_eq!(walk_action(false, true, false), WalkAction::Descend);
    assert_eq!(walk_action(false, false, true), WalkAction::Include);
    assert_eq!(walk_action(false, false, false), WalkAction::Skip);
    assert!(matches!(finish_collection::<u8>(vec![]), Err(TransferError::NoValidFiles)));
    assert_eq!(finish_collection(vec![1u8]).unwrap(), vec![1]);
}

#[test]
fn comment_blank_and_padded_rule_lines() {
    // Comments and blank lines add no rule; trailing spaces are trimmed.
    let rules = IgnoreRules::parse("#\n   \n").unwrap();
    assert!(!rules.is_ignored("#", false));
    assert!(!rules.is_ignored("a/b", false));
    let rules = IgnoreRules::parse("*.log  \n# *.txt").unwrap();
    assert!(rules.is_ignored("a/debug.log", false));
    assert!(!rules.is_ignored("a/notes.txt", false));
}

#[test]
fn tracked_source_keeps_counting_to_lockout() {
    let pin = Some("9999".to_string());
    let wrong = Some("0000".to_string());
    let mut gate = PinGate::new();
    // Two failures, then a correct PIN from another source in between.
    assert!(!gate.check(&pin, "a", &wrong, 0));
    assert!(!gate.check(&pin, "a", &wrong, 10));
    assert!(gate.check(&pin, "b", &pin, 20));
    for t in [30u64, 40, 50] {
        assert!(!gate.check(&pin, "a", &wrong, t));
    }
    assert!(!gate.check(&pin, "a", &pin, 59_000));
    assert!(gate.check(&pin, "b", &pin, 59_000));
    // Once the window has closed the correct PIN passes again.
    assert!(gate.check(&pin, "a", &pin, 60_001));
}
