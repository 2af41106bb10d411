//! Desktop shell logic: localization, settings, history, notifications and
//! the byte formatting shared with the command line.

use deskmate::desktop::clipboard::{
    copy_outcome_notice, copy_poll, copy_selection, copy_start, ensure_permission, permission_check, read_file_paths,
    read_raw, write_file_paths, CopyOutcome,
};
use deskmate::desktop::dto::{text_send_outcome, ErrDto, PeerDto, TransferEventDto};
use deskmate::discovery::addrs::IpAddr;
use deskmate::discovery::Peer;
use deskmate::desktop::interrupted::{InterruptedSend, InterruptedSends};
use deskmate::desktop::history::{HistoryEntry, HistoryStore, HISTORY_CAP};
use deskmate::desktop::locale::{files_en, Lang, Text};
use deskmate::desktop::settings::{
    advertised_avatar, default_download_dir, display_name_choice, plan_settings_update, AutoCopyKind,
    ConflictPolicySetting, Settings, TrustedDevice, DEFAULT_COPY_SEND_HOTKEY, DEFAULT_IGNORE_RULES,
    DEFAULT_SEND_CLIPBOARD_HOTKEY,
};
use deskmate::desktop::shell::{
    auto_accept, avatar_path, check_avatar_image, event_notice, file_ids, is_legal_screenshot_name,
    is_legal_staged_id, offer_reply, settle_send, taskbar_percent, transfer_rules, FailureMark, RegistryAction,
};
use deskmate::format::{human_bytes, is_blank, preview_of, progress_due, render_bar, trim};
use deskmate::protocol::{FileMeta, PeerInfo};
use deskmate::transfer::receiver::OfferDecision;
use deskmate::transfer::{ConflictPolicy, TransferError, TransferEvent};

/// The formatting of byte counts as written with floating point.
fn reference_human_bytes(n: u64) -> String {
    let units = ["B", "KB", "MB", "GB", "TB"];
    let mut value = n as f64;
    let mut unit = 0;
    while value >= 1024.0 && unit < units.len() - 1 {
        value /= 1024.0;
        unit += 1;
    }
    if unit == 0 {
        format!("{n} B")
    } else {
        format!("{value:.1} {}", units[unit])
    }
}

fn meta(id: u32, rel: &str, size: u64) -> FileMeta {
    FileMeta { file_id: id, rel_path: rel.into(), size, inline_image: false }
}

fn peer(name: &str) -> PeerInfo {
    PeerInfo {
        device_id: "d".into(),
        name: name.into(),
        fingerprint: "fp".into(),
        platform: "linux".into(),
        avatar: None,
        os_version: None,
    }
}

fn entry(id: &str, at: u64) -> HistoryEntry {
    HistoryEntry {
        transfer_id: id.into(),
        direction: "send".into(),
        peer_name: "Mac".into(),
        status: "completed".into(),
        files_done: 1,
        bytes: 10,
        at,
        last_path: None,
    }
}

fn ids(store: &HistoryStore) -> Vec<String> {
    store.snapshot().into_iter().map(|e| e.transfer_id).collect()
}

#[test]
fn notification_templates_fill_placeholders() {
    assert_eq!(
        Text::OfferIncoming { name: "Mac", n: 1, size: "2.0 MB" }.localize(Lang::En),
        "Mac wants to send 1 file (2.0 MB)"
    );
    assert_eq!(
        Text::AutoReceiving { name: "Mac", n: 3, size: "9.5 MB" }.localize(Lang::En),
        "Automatically receiving 3 files from Mac (9.5 MB)"
    );
    assert_eq!(
        Text::OfferIncoming { name: "Mac", n: 3, size: "9.5 MB" }.localize(Lang::Zh),
        "Mac 请求发送 3 个文件(9.5 MB)"
    );
    assert_eq!(
        Text::IncomingMessage { name: "Mac", copied: true }.localize(Lang::Zh),
        "Mac 发来文本 · 已复制"
    );
}

#[test]
fn localized_texts_and_language_choice() {
    assert_eq!(Text::TrayQuit.localize(Lang::En), "Quit");
    assert_eq!(Text::TrayQuit.localize(Lang::Zh), "退出");
    assert_eq!(Text::IncomingMessage { name: "Mac", copied: false }.localize(Lang::En), "Text from Mac");
    assert_eq!(Text::IncomingMessage { name: "Mac", copied: true }.localize(Lang::En), "Text from Mac · copied");
    assert_eq!(
        Text::AutoReceiving { name: "Mac", n: 2, size: "1 B" }.localize(Lang::Zh),
        "正在自动接收 Mac 发来的 2 个文件(1 B)"
    );
    assert_eq!(files_en(0), "0 files");
    assert_eq!(files_en(1), "1 file");
    assert_eq!(files_en(12), "12 files");
    assert_eq!(Lang::from_settings("zh", "en_US.UTF-8"), Lang::Zh);
    assert_eq!(Lang::from_settings("en", "zh_CN.UTF-8"), Lang::En);
    assert_eq!(Lang::from_settings("", "zh_CN.UTF-8"), Lang::Zh);
    assert_eq!(Lang::from_settings("", "ZH"), Lang::Zh);
    assert_eq!(Lang::from_settings("", "fr_FR"), Lang::En);
    assert_eq!(Lang::from_settings("", ""), Lang::En);
}

#[test]
fn missing_fields_fall_back_to_defaults() {
    let s = Settings::defaults(default_download_dir(Some("/home/u".into()), None));
    assert_eq!(s.send_clipboard_hotkey.as_deref(), Some("CmdOrCtrl+Shift+D"));
    assert_eq!(s.copy_send_hotkey.as_deref(), Some("CmdOrCtrl+Shift+X"));
    assert_eq!(s.ignore_rules, DEFAULT_IGNORE_RULES);
    assert_eq!(s.auto_copy_kinds, vec![AutoCopyKind::Text]);
    assert_eq!(DEFAULT_SEND_CLIPBOARD_HOTKEY, "CmdOrCtrl+Shift+D");
    assert_eq!(DEFAULT_COPY_SEND_HOTKEY, "CmdOrCtrl+Shift+X");
    assert_eq!(s.download_dir, "/home/u/Downloads/Deskmate");
    assert_eq!(s.tcp_port, 42424);
    assert_eq!(s.conflict_policy, ConflictPolicySetting::Rename);
}

#[test]
fn auto_copy_migration_respects_old_switch() {
    let mut off = Settings::defaults("d".into());
    off.auto_copy_text = false;
    off.migrate_auto_copy();
    assert!(off.auto_copy_kinds.is_empty());
    assert!(off.auto_copy_text);

    let mut on = Settings::defaults("d".into());
    on.auto_copy_text = true;
    on.migrate_auto_copy();
    assert_eq!(on.auto_copy_kinds, vec![AutoCopyKind::Text]);

    let mut cleared = Settings::defaults("d".into());
    cleared.auto_copy_text = true;
    cleared.auto_copy_kinds = vec![];
    cleared.migrate_auto_copy();
    assert!(cleared.auto_copy_kinds.is_empty());
}

#[test]
fn default_download_dir_prefers_home() {
    assert_eq!(default_download_dir(Some("/h".into()), Some("/p".into())), "/h/Downloads/Deskmate");
    assert_eq!(default_download_dir(None, Some("/p".into())), "/p/Downloads/Deskmate");
    assert_eq!(default_download_dir(None, None), "./Downloads/Deskmate");
}

#[test]
fn settings_updates_are_checked() {
    let old = Settings::defaults("d".into());
    let mut new = Settings::defaults("d".into());
    new.pin = Some(String::new());
    new.language = "en".into();
    let u = plan_settings_update(&old, &new).unwrap();
    assert!(!u.send_hotkey_changed && !u.copy_hotkey_changed);
    assert!(u.pin.is_none());
    assert!(u.language_changed);

    new.pin = Some("1234".into());
    new.copy_send_hotkey = None;
    let u = plan_settings_update(&old, &new).unwrap();
    assert_eq!(u.pin.as_deref(), Some("1234"));
    assert!(u.copy_hotkey_changed && !u.send_hotkey_changed);

    new.copy_send_hotkey = new.send_clipboard_hotkey.clone();
    let e = plan_settings_update(&old, &new).unwrap_err();
    assert_eq!(e.code, "hotkey_conflict");
    assert!(e.detail.is_none());

    let mut bad = Settings::defaults("d".into());
    bad.ignore_rules = "a\n[z-a]".into();
    let e = plan_settings_update(&old, &bad).unwrap_err();
    assert_eq!(e.code, "ignore_rules_invalid");
    assert!(e.detail.is_some());

    let mut blank = Settings::defaults("d".into());
    blank.ignore_rules = "  \n".into();
    assert!(plan_settings_update(&old, &blank).is_ok());
}

#[test]
fn trust_names_and_avatars() {
    let mut s = Settings::defaults("d".into());
    s.trusted.push(TrustedDevice { fingerprint: "aa".into(), name: "Mac".into() });
    assert!(s.is_trusted("aa"));
    assert!(!s.is_trusted("bb"));
    assert!(!s.wants_custom_avatar());
    s.avatar = Some("custom".into());
    assert!(s.wants_custom_avatar());

    assert_eq!(display_name_choice(&Some("  ".into()), "host".into()), "host");
    assert_eq!(display_name_choice(&Some("Desk".into()), "host".into()), "Desk");
    assert_eq!(display_name_choice(&None, "host".into()), "host");

    let img = b"jpeg-bytes";
    let expected = format!("img:{}", deskmate::identity::blake3_hex(img));
    assert_eq!(advertised_avatar(&Some("custom".into()), Some(&img[..])), Some(expected));
    assert_eq!(advertised_avatar(&Some("custom".into()), None), None);
    assert_eq!(advertised_avatar(&Some("🐱".into()), None).as_deref(), Some("🐱"));
    assert_eq!(advertised_avatar(&None, None), None);
    assert_eq!(ConflictPolicySetting::Ask.unattended(), ConflictPolicy::Rename);
    assert_eq!(ConflictPolicySetting::Overwrite.unattended(), ConflictPolicy::Overwrite);
}

#[test]
fn trusted_offers_are_accepted_whole() {
    let mut s = Settings::defaults("d".into());
    s.trusted.push(TrustedDevice { fingerprint: "aa".into(), name: "Mac".into() });
    s.conflict_policy = ConflictPolicySetting::Overwrite;
    let files = vec![meta(4, "a", 1), meta(9, "b", 2)];
    assert_eq!(file_ids(&files), vec![4, 9]);
    match auto_accept(&s, "aa", &files) {
        Some(OfferDecision::Accept { accepted_files, save_dir, conflict }) => {
            assert_eq!(accepted_files, vec![4, 9]);
            assert!(save_dir.is_none());
            assert_eq!(conflict, ConflictPolicy::Overwrite);
        }
        other => panic!("unexpected {other:?}"),
    }
    assert!(auto_accept(&s, "zz", &files).is_none());
    match offer_reply(false, vec![1], None, false) {
        OfferDecision::Reject { reason } => assert_eq!(reason.as_deref(), Some("rejected by receiver")),
        other => panic!("unexpected {other:?}"),
    }
    match offer_reply(true, vec![1], Some("/x".into()), true) {
        OfferDecision::Accept { accepted_files, save_dir, conflict } => {
            assert_eq!(accepted_files, vec![1]);
            assert_eq!(save_dir.as_deref(), Some("/x"));
            assert_eq!(conflict, ConflictPolicy::Overwrite);
        }
        other => panic!("unexpected {other:?}"),
    }
}

#[test]
fn history_keeps_newest_unique_and_capped() {
    let mut h = HistoryStore::new(vec![entry("a", 1), entry("b", 2)]);
    h.append(entry("c", 3));
    assert_eq!(ids(&h), vec!["c", "a", "b"]);
    h.append(entry("a", 4));
    assert_eq!(ids(&h), vec!["a", "c", "b"]);
    assert_eq!(h.snapshot()[0].at, 4);
    h.remove("c");
    assert_eq!(ids(&h), vec!["a", "b"]);
    h.remove("missing");
    assert_eq!(ids(&h), vec!["a", "b"]);
    h.clear();
    assert!(h.snapshot().is_empty());
    for i in 0..(HISTORY_CAP + 5) {
        h.append(entry(&format!("t{i}"), i as u64));
    }
    let snap = h.snapshot();
    assert_eq!(snap.len(), HISTORY_CAP);
    assert_eq!(snap[0].transfer_id, format!("t{}", HISTORY_CAP + 4));
    assert_eq!(snap[HISTORY_CAP - 1].transfer_id, "t5");
}

#[test]
fn send_settlement_follows_the_outcome() {
    let p = settle_send("t", &Ok(()), false, false);
    assert_eq!(p.registry, RegistryAction::Forget);
    assert!(p.notice.is_none() && p.event.is_none() && !p.mark_failure);

    let p = settle_send("t", &Err(TransferError::Cancelled), false, false);
    assert_eq!(p.registry, RegistryAction::Forget);

    let rejected = TransferError::Rejected { reason: Some("busy".into()), reason_code: Some("declined".into()) };
    let p = settle_send("t", &Err(rejected), false, false);
    assert_eq!(p.registry, RegistryAction::Register);
    assert!(matches!(p.notice, Some(Text::TransferRejected)));
    match p.event {
        Some(TransferEventDto::Rejected { transfer_id, reason, pin_required, reason_code }) => {
            assert_eq!(transfer_id, "t");
            assert_eq!(reason.as_deref(), Some("busy"));
            assert!(!pin_required);
            assert_eq!(reason_code.as_deref(), Some("declined"));
        }
        other => panic!("unexpected {other:?}"),
    }
    let p = settle_send("t", &Err(TransferError::PinRequired), true, false);
    assert_eq!(p.registry, RegistryAction::Keep);
    assert!(p.notice.is_none());
    assert!(matches!(
        p.event,
        Some(TransferEventDto::Rejected { pin_required: true, reason_code: Some(ref c), .. }) if c == "pin_required"
    ));
    let p = settle_send("t", &Err(TransferError::NoValidFiles), false, false);
    assert_eq!(p.registry, RegistryAction::Keep);
    assert!(matches!(p.notice, Some(Text::NothingToSend)));
    assert!(matches!(p.event, Some(TransferEventDto::Ignored { .. })));

    let failed = Err(TransferError::AvatarTooLarge { size: 9 });
    let p = settle_send("t", &failed, false, false);
    assert_eq!(p.registry, RegistryAction::Register);
    assert!(matches!(p.notice, Some(Text::TransferFailed)));
    assert!(p.mark_failure);
    match p.event {
        Some(TransferEventDto::Interrupted { reason, code, detail, .. }) => {
            assert_eq!(reason, "avatar exceeds size limit: 9 bytes");
            assert_eq!(code, "avatar_too_large");
            assert_eq!(detail.as_deref(), Some("9"));
        }
        other => panic!("unexpected {other:?}"),
    }
    let p = settle_send("t", &failed, true, true);
    assert_eq!(p.registry, RegistryAction::Keep);
    assert!(p.notice.is_none());
}

#[test]
fn engine_events_raise_notices() {
    let (n, m) = event_notice(&TransferEvent::Completed { transfer_id: "t".into() }, Lang::En, false, false);
    assert_eq!(n, Some(("Deskmate".into(), "Transfer completed".into())));
    assert_eq!(m, FailureMark::Clear);
    let interrupted = TransferEvent::Interrupted { transfer_id: "t".into(), reason: "x".into(), code: "io", detail: None };
    let (n, m) = event_notice(&interrupted, Lang::Zh, false, false);
    assert_eq!(n, Some(("Deskmate".into(), "传输意外中断, 未完成部分已保留".into())));
    assert_eq!(m, FailureMark::Mark);
    let (n, _) = event_notice(&interrupted, Lang::Zh, false, true);
    assert!(n.is_none());
    let text = TransferEvent::TextReceived { from: peer("Mac"), text: "hello\nworld".into() };
    let (n, m) = event_notice(&text, Lang::En, true, false);
    assert_eq!(n, Some(("Text from Mac · copied".into(), "hello…".into())));
    assert_eq!(m, FailureMark::Keep);
    let (n, m) = event_notice(&TransferEvent::Paused { transfer_id: "t".into() }, Lang::En, false, false);
    assert!(n.is_none());
    assert_eq!(m, FailureMark::Keep);
}

#[test]
fn taskbar_progress_over_active_transfers() {
    assert_eq!(taskbar_percent(&vec![]), None);
    assert_eq!(taskbar_percent(&vec![(0, 0)]), Some(0));
    assert_eq!(taskbar_percent(&vec![(50, 100), (25, 100)]), Some(37));
    assert_eq!(taskbar_percent(&vec![(300, 100)]), Some(100));
}

#[test]
fn avatar_files_and_names() {
    let h = "a".repeat(64);
    assert_eq!(avatar_path("/data", &None).as_deref(), Some("/data/avatar.jpg"));
    assert_eq!(avatar_path("/data", &Some(h.clone())), Some(format!("/data/avatars/{h}.jpg")));
    assert_eq!(avatar_path("/data", &Some("../x".into())), None);
    assert_eq!(check_avatar_image(0).unwrap_err().code, "avatar_empty");
    assert_eq!(check_avatar_image(262_145).unwrap_err().code, "avatar_too_large");
    assert!(check_avatar_image(262_144).is_ok());
    assert!(is_legal_screenshot_name("shot-1_a.png"));
    assert!(!is_legal_screenshot_name(""));
    assert!(!is_legal_screenshot_name("a..png"));
    assert!(!is_legal_screenshot_name("a/b.png"));
    assert!(is_legal_staged_id("0f9e-AB"));
    assert!(!is_legal_staged_id("x1"));
    assert!(!is_legal_staged_id(""));
}

#[test]
fn error_dtos_and_text_outcomes() {
    let e = ErrDto::with("io", "disk full".into());
    assert_eq!(e.message(), "io (disk full)");
    assert_eq!(ErrDto::new("x").message(), "x");
    let e = ErrDto::of_transfer(&TransferError::BadFileId(3));
    assert_eq!(e.code, "bad_file_id");
    assert_eq!(e.detail.as_deref(), Some("3"));
    assert!(!text_send_outcome(&Ok(())).unwrap().pin_required);
    assert!(text_send_outcome(&Err(TransferError::PinRequired)).unwrap().pin_required);
    assert_eq!(text_send_outcome(&Err(TransferError::Cancelled)).unwrap_err().code, "cancelled");
}

#[test]
fn clipboard_on_this_platform() {
    assert!(read_file_paths(&read_raw(), &vec![]).is_empty());
    assert!(!write_file_paths(&vec!["/tmp".into()]));
    assert!(!write_file_paths(&vec![]));
    assert!(ensure_permission());
    assert_eq!(copy_selection(), CopyOutcome::Unsupported);
    assert!(copy_outcome_notice(CopyOutcome::Copied).is_none());
    assert!(matches!(copy_outcome_notice(CopyOutcome::NothingCopied), Some(Text::CopySendNothing)));
}

#[test]
fn clipboard_paths_that_no_longer_exist_are_dropped() {
    let raw: Vec<String> = vec!["/a".into(), "/gone".into(), "/c".into()];
    assert_eq!(read_file_paths(&raw, &vec![true, false, true]), vec!["/a".to_string(), "/c".to_string()]);
    assert!(read_file_paths(&raw, &vec![false, false, false]).is_empty());
    assert_eq!(read_file_paths(&raw, &vec![true, true, true]), raw);
    assert!(read_file_paths(&vec![], &vec![]).is_empty());
}

#[test]
fn simulated_copy_decisions() {
    assert_eq!(copy_start(false, true), Some(CopyOutcome::PermissionNeeded));
    assert_eq!(copy_start(true, false), Some(CopyOutcome::NothingCopied));
    assert_eq!(copy_start(true, true), None);
    assert_eq!(copy_poll(7, 8, false), Some(CopyOutcome::Copied));
    assert_eq!(copy_poll(7, 8, true), Some(CopyOutcome::Copied));
    assert_eq!(copy_poll(7, 7, false), None);
    assert_eq!(copy_poll(7, 7, true), Some(CopyOutcome::NothingCopied));
}

#[test]
fn human_bytes_examples() {
    assert_eq!(human_bytes(0), "0 B");
    assert_eq!(human_bytes(1023), "1023 B");
    assert_eq!(human_bytes(1024), "1.0 KB");
    assert_eq!(human_bytes(1536), "1.5 KB");
    assert_eq!(human_bytes(2304), "2.2 KB");
    assert_eq!(human_bytes(2 * 1024 * 1024), "2.0 MB");
    assert_eq!(human_bytes(1024u64.pow(4)), "1.0 TB");
    assert_eq!(human_bytes(1024u64.pow(5)), "1024.0 TB");
}

#[test]
fn human_bytes_matches_floating_point_formatting() {
    let mut samples: Vec<u64> = vec![u64::MAX, u64::MAX - 1, 1 << 63, (1 << 53) + 1];
    for k in 1..6u32 {
        let p = 1024u64.pow(k);
        for d in [0u64, 1, 51, 52, 102, 103, 512] {
            samples.push(p.saturating_sub(d));
            samples.push(p.saturating_add(d));
        }
        for tenth in 0..30u64 {
            samples.push(p / 20 * (2 * tenth + 1));
            samples.push(p / 20 * (2 * tenth + 1) + 1);
        }
    }
    let mut x: u64 = 0x9e37_79b9_7f4a_7c15;
    for _ in 0..20_000 {
        x ^= x << 13;
        x ^= x >> 7;
        x ^= x << 17;
        samples.push(x >> (x % 60));
    }
    for n in samples {
        assert_eq!(human_bytes(n), reference_human_bytes(n), "n = {n}");
    }
}

#[test]
fn previews_take_the_first_line() {
    assert_eq!(preview_of("hello"), "hello");
    assert_eq!(preview_of("hello\nworld"), "hello…");
    assert_eq!(preview_of("line\r\nmore"), "line…");
    assert_eq!(preview_of(""), "");
    let long = "x".repeat(70);
    assert_eq!(preview_of(&long), format!("{}…", "x".repeat(60)));
    assert_eq!(preview_of(&"x".repeat(60)), "x".repeat(60));
}

#[test]
fn blank_trim_and_progress() {
    assert!(is_blank(" \t\n"));
    assert!(!is_blank(" a "));
    assert_eq!(trim("  a b \n"), "a b");
    assert!(progress_due(None, 5, 1, 10));
    assert!(!progress_due(Some(0), 50, 1, 10));
    assert!(progress_due(Some(0), 100, 1, 10));
    assert!(progress_due(Some(0), 1, 10, 10));
    let (pct, bar) = render_bar(5, 10);
    assert_eq!(pct, 50);
    assert_eq!(bar, format!("{}{}", "=".repeat(10), " ".repeat(10)));
}

#[test]
fn peer_dtos_carry_address_text() {
    let p = Peer { info: peer("Mac"), addrs: vec![IpAddr::v4(10, 0, 0, 7), IpAddr::V6(1)], port: 42424 };
    let dto = PeerDto::from_peer(&p);
    assert_eq!(dto.addrs, vec!["10.0.0.7".to_string(), "::1".to_string()]);
    assert_eq!(dto.port, 42424);
    assert_eq!(dto.name, "Mac");
    assert_eq!(dto.fingerprint, "fp");
    assert!(dto.avatar.is_none());
}

#[test]
fn transfer_rules_skip_blank_text_and_refuse_bad_rules() {
    assert!(matches!(transfer_rules(""), Ok(None)));
    assert!(matches!(transfer_rules("  \n\t"), Ok(None)));
    let rules = transfer_rules("*.log\n!keep.log").unwrap().unwrap();
    assert!(rules.is_ignored("a/debug.log", false));
    assert!(!rules.is_ignored("a/keep.log", false));
    match transfer_rules("a\n[z-a]") {
        Err(e) => {
            assert_eq!(e.code, "ignore_rules_invalid");
            assert!(e.detail.unwrap().starts_with("[z-a]: "));
        }
        Ok(_) => panic!("invalid rules were accepted"),
    }
}

fn interrupted(fp: &str) -> InterruptedSend {
    InterruptedSend {
        fingerprint: fp.into(),
        paths: vec!["/home/u/a.txt".into()],
        ignore_rules: "*.log".into(),
        inline_image: false,
    }
}

#[test]
fn interrupted_sends_follow_settlement() {
    let mut reg = InterruptedSends::new();
    assert!(reg.get("t1").is_none());
    // A failed fresh send is registered with its parameters.
    reg.settle("t1", interrupted("peer-a"), &Err(TransferError::Timeout("handshake".into())), false);
    let e = reg.get("t1").unwrap();
    assert_eq!(e.fingerprint, "peer-a");
    assert_eq!(e.paths, vec!["/home/u/a.txt".to_string()]);
    assert_eq!(e.ignore_rules, "*.log");
    assert!(!e.inline_image);
    // Another task's settlement leaves it alone.
    reg.settle("t2", interrupted("peer-b"), &Err(TransferError::PinRequired), false);
    reg.settle("t2", interrupted("peer-b"), &Ok(()), false);
    assert!(reg.get("t2").is_none());
    assert_eq!(reg.get("t1").unwrap().fingerprint, "peer-a");
    // A failed resume keeps the registration; so does an empty manifest.
    reg.settle("t1", interrupted("peer-z"), &Err(TransferError::Timeout("x".into())), true);
    reg.settle("t1", interrupted("peer-z"), &Err(TransferError::NoValidFiles), false);
    assert_eq!(reg.get("t1").unwrap().fingerprint, "peer-a");
    // Registering again replaces the entry; cancellation forgets it.
    reg.apply(RegistryAction::Register, "t1", interrupted("peer-c"));
    assert_eq!(reg.get("t1").unwrap().fingerprint, "peer-c");
    reg.settle("t1", interrupted("peer-c"), &Err(TransferError::Cancelled), false);
    assert!(reg.get("t1").is_none());
    // A fresh send without files is never registered.
    reg.settle("t3", interrupted("peer-d"), &Err(TransferError::NoValidFiles), false);
    assert!(reg.get("t3").is_none());
    reg.apply(RegistryAction::Keep, "t4", interrupted("peer-e"));
    assert!(reg.get("t4").is_none());
}

#[test]
fn accessibility_prompt_shows_at_most_once() {
    let mut prompted = false;
    assert_eq!(permission_check(true, &mut prompted), (true, false));
    assert!(!prompted);
    assert_eq!(permission_check(false, &mut prompted), (false, true));
    assert!(prompted);
    assert_eq!(permission_check(false, &mut prompted), (false, false));
    assert_eq!(permission_check(true, &mut prompted), (true, false));
    assert!(prompted);
}
