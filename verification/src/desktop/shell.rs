//! The desktop shell's decisions around the engine: automatic acceptance of
//! trusted devices, offer answers, what a finished send leaves behind,
//! which notifications an event raises, taskbar progress, avatars, and the
//! checks on values the frontend hands in.

use vstd::prelude::*;

use super::dto::{ErrDto, TransferEventDto};
use super::locale::{localize_spec, Lang, Text};
use super::settings::{Settings, AVATAR_FILE};
use crate::format::{is_blank, is_blank_spec, preview_spec};
use crate::identity::is_safe_hash_spec;
use crate::protocol::{opt_view, FileMeta, MAX_AVATAR_SIZE};
use crate::text::{is_ascii_alnum, is_ascii_hex, lines_spec, to_string};
use crate::transfer::ignore_rules::{rules_compile, rules_of, IgnoreRules};
use crate::transfer::paths::{join_spec, path_join};
use crate::transfer::receiver::OfferDecision;
use crate::transfer::{code_of, detail_of, message_of, ConflictPolicy, TransferError, TransferEvent};

verus! {

/// The ignore rules a send applies: blank rule text applies none, other text
/// is compiled, and text that does not compile is refused with the code
/// `ignore_rules_invalid` and the compiler's message as its detail.
pub fn transfer_rules(text: &str) -> (r: Result<Option<IgnoreRules>, ErrDto>)
    ensures
        is_blank_spec(text@) ==> r matches Ok(None),
        !is_blank_spec(text@) && rules_compile(text@) ==> (r matches Ok(Some(rules)) && rules@
            == rules_of(lines_spec(text@))),
        !is_blank_spec(text@) && !rules_compile(text@) ==> (r matches Err(e) && e.code
            == "ignore_rules_invalid" && e.detail is Some),
{
    if is_blank(text) {
        return Ok(None);
    }
    match IgnoreRules::parse(text) {
        Ok(rules) => Ok(Some(rules)),
        Err(msg) => Err(ErrDto::with("ignore_rules_invalid", msg)),
    }
}

/// Avatar cache subdirectory; files are named `<hash>.jpg`.
pub const AVATAR_CACHE_DIR: &'static str = "avatars";

/// The IDs of a manifest, in order.
pub open spec fn ids_of(files: Seq<FileMeta>) -> Seq<u32> {
    files.map_values(|f: FileMeta| f.file_id)
}

/// The IDs of a manifest.
pub fn file_ids(files: &Vec<FileMeta>) -> (r: Vec<u32>)
    ensures
        r@ == ids_of(files@),
{
    let mut v: Vec<u32> = Vec::new();
    let mut i: usize = 0;
    while i < files.len()
        invariant
            i <= files.len(),
            v@ == ids_of(files@.take(i as int)),
        decreases files.len() - i,
    {
        v.push(files[i].file_id);
        i = i + 1;
        assert(v@ =~= ids_of(files@.take(i as int)));
    }
    assert(files@.take(files.len() as int) =~= files@);
    v
}

/// Accepts an offer from a trusted device without asking: every file, into
/// the default directory, with the unattended conflict policy. Offers from
/// other devices get `None` and go to the user.
pub fn auto_accept(settings: &Settings, peer_fp: &str, files: &Vec<FileMeta>) -> (r: Option<
    OfferDecision,
>)
    ensures
        (exists|k: int|
            0 <= k < settings.trusted@.len() && (#[trigger] settings.trusted@[k]).fingerprint@
                == peer_fp@) <==> r is Some,
        r matches Some(OfferDecision::Accept { accepted_files, save_dir, conflict }) ==> accepted_files@
            == ids_of(files@) && save_dir is None && conflict == (if settings.conflict_policy
            == super::settings::ConflictPolicySetting::Overwrite {
            ConflictPolicy::Overwrite
        } else {
            ConflictPolicy::Rename
        }),
        !(r matches Some(OfferDecision::Reject { .. })),
{
    if !settings.is_trusted(peer_fp) {
        return None;
    }
    Some(
        OfferDecision::Accept {
            accepted_files: file_ids(files),
            save_dir: None,
            conflict: settings.conflict_policy.unattended(),
        },
    )
}

/// The answer to an offer that the user decided: accept every file
/// (optionally into another directory, overwriting or renaming on
/// conflicts), or reject it.
pub fn offer_reply(accept: bool, file_ids: Vec<u32>, save_dir: Option<String>, overwrite: bool) -> (r:
    OfferDecision)
    ensures
        accept ==> (r matches OfferDecision::Accept { accepted_files, save_dir: d, conflict }
            && accepted_files@ == file_ids@ && opt_view(d) == opt_view(save_dir) && conflict == (
        if overwrite {
            ConflictPolicy::Overwrite
        } else {
            ConflictPolicy::Rename
        })),
        !accept ==> (r matches OfferDecision::Reject { reason } && opt_view(reason) == Some(
            "rejected by receiver"@,
        )),
{
    if accept {
        OfferDecision::Accept {
            accepted_files: file_ids,
            save_dir,
            conflict: if overwrite {
                ConflictPolicy::Overwrite
            } else {
                ConflictPolicy::Rename
            },
        }
    } else {
        OfferDecision::Reject { reason: Some(to_string("rejected by receiver")) }
    }
}

/// What happens to the registry of interrupted sends.
#[derive(Debug, Clone, Copy, PartialEq, Eq, Structural)]
pub enum RegistryAction {
    /// Drop the task: it finished or was cancelled.
    Forget,
    /// Record the task's parameters so it can be retried or resumed.
    Register,
    /// Leave the registry as it is.
    Keep,
}

/// What settling a send does to the registry of interrupted sends: success
/// and cancellation forget the task; an empty manifest, which nothing could
/// ever send, and a failed resume leave the registry as it is; any other
/// failure of a fresh send registers the task for retry or resume.
pub open spec fn settle_registry_spec(result: Result<(), TransferError>, is_resume: bool) -> RegistryAction {
    match result {
        Ok(()) => RegistryAction::Forget,
        Err(TransferError::Cancelled) => RegistryAction::Forget,
        Err(TransferError::NoValidFiles) => RegistryAction::Keep,
        Err(_) => if is_resume {
            RegistryAction::Keep
        } else {
            RegistryAction::Register
        },
    }
}

/// The registry action of a settled send.
pub fn settle_registry(result: &Result<(), TransferError>, is_resume: bool) -> (r: RegistryAction)
    ensures
        r == settle_registry_spec(*result, is_resume),
{
    match result {
        Ok(()) => RegistryAction::Forget,
        Err(TransferError::Cancelled) => RegistryAction::Forget,
        Err(TransferError::NoValidFiles) => RegistryAction::Keep,
        Err(_) => if is_resume {
            RegistryAction::Keep
        } else {
            RegistryAction::Register
        },
    }
}

/// What the shell does once a send task has ended.
#[derive(Debug)]
pub struct SettlePlan {
    /// The registry of interrupted sends.
    pub registry: RegistryAction,
    /// The notification to raise, if any.
    pub notice: Option<Text<'static>>,
    /// The frontend event to emit, if any.
    pub event: Option<TransferEventDto>,
    /// Whether the task joins the set of failures already notified.
    pub mark_failure: bool,
}

/// Settles a finished send: supplies the frontend events that the engine
/// does not emit (rejections, PIN gates, empty manifests, failures before
/// the data phase) and keeps the registry of interrupted sends.
///
/// Success and cancellation clear the registry. A failed fresh send is
/// registered for retry or resume, except an empty manifest, which nothing
/// could ever send; a failed resume keeps its earlier registration. A
/// failure is notified only by whichever of the engine event and this
/// settlement sees it first (`already_notified`).
pub fn settle_send(
    transfer_id: &str,
    result: &Result<(), TransferError>,
    is_resume: bool,
    already_notified: bool,
) -> (r: SettlePlan)
    ensures
        r.registry == settle_registry_spec(*result, is_resume),
        match *result {
            Ok(()) => r.registry == RegistryAction::Forget && r.notice is None && r.event is None
                && !r.mark_failure,
            Err(e) => match e {
                TransferError::Cancelled => r.registry == RegistryAction::Forget && r.notice
                    is None && r.event is None && !r.mark_failure,
                TransferError::Rejected { reason, reason_code } => (r.notice matches Some(
                    Text::TransferRejected,
                )) && (r.event matches Some(TransferEventDto::Rejected {
                    transfer_id: t,
                    reason: x,
                    pin_required: false,
                    reason_code: c,
                }) && t@ == transfer_id@ && opt_view(x) == opt_view(reason) && opt_view(c)
                    == opt_view(reason_code)) && !r.mark_failure && r.registry == (if is_resume {
                    RegistryAction::Keep
                } else {
                    RegistryAction::Register
                }),
                TransferError::PinRequired => r.notice is None && (r.event matches Some(
                    TransferEventDto::Rejected {
                        transfer_id: t,
                        reason: None,
                        pin_required: true,
                        reason_code: c,
                    },
                ) && t@ == transfer_id@ && opt_view(c) == Some("pin_required"@)) && !r.mark_failure
                    && r.registry == (if is_resume {
                    RegistryAction::Keep
                } else {
                    RegistryAction::Register
                }),
                TransferError::NoValidFiles => (r.notice matches Some(Text::NothingToSend)) && (
                r.event matches Some(TransferEventDto::Ignored { transfer_id: t }) && t@
                    == transfer_id@) && !r.mark_failure && r.registry == RegistryAction::Keep,
                _ => (if already_notified {
                    r.notice is None
                } else {
                    r.notice matches Some(Text::TransferFailed)
                }) && (r.event matches Some(TransferEventDto::Interrupted {
                    transfer_id: t,
                    reason,
                    code,
                    detail,
                }) && t@ == transfer_id@ && reason@ == message_of(e) && code@ == code_of(e)@
                    && opt_view(detail) == detail_of(e)) && r.mark_failure && r.registry == (
                if is_resume {
                    RegistryAction::Keep
                } else {
                    RegistryAction::Register
                }),
            },
        },
{
    let e = match result {
        Ok(()) => {
            return SettlePlan {
                registry: RegistryAction::Forget,
                notice: None,
                event: None,
                mark_failure: false,
            };
        },
        Err(e) => e,
    };
    let keep_or_register = if is_resume {
        RegistryAction::Keep
    } else {
        RegistryAction::Register
    };
    match e {
        TransferError::Cancelled => SettlePlan {
            registry: RegistryAction::Forget,
            notice: None,
            event: None,
            mark_failure: false,
        },
        TransferError::Rejected { reason, reason_code } => SettlePlan {
            registry: keep_or_register,
            notice: Some(Text::TransferRejected),
            event: Some(
                TransferEventDto::Rejected {
                    transfer_id: to_string(transfer_id),
                    reason: crate::protocol::clone_opt(reason),
                    pin_required: false,
                    reason_code: crate::protocol::clone_opt(reason_code),
                },
            ),
            mark_failure: false,
        },
        TransferError::PinRequired => SettlePlan {
            registry: keep_or_register,
            notice: None,
            event: Some(
                TransferEventDto::Rejected {
                    transfer_id: to_string(transfer_id),
                    reason: None,
                    pin_required: true,
                    reason_code: Some(to_string("pin_required")),
                },
            ),
            mark_failure: false,
        },
        TransferError::NoValidFiles => SettlePlan {
            registry: RegistryAction::Keep,
            notice: Some(Text::NothingToSend),
            event: Some(TransferEventDto::Ignored { transfer_id: to_string(transfer_id) }),
            mark_failure: false,
        },
        _ => SettlePlan {
            registry: keep_or_register,
            notice: if already_notified {
                None
            } else {
                Some(Text::TransferFailed)
            },
            event: Some(
                TransferEventDto::Interrupted {
                    transfer_id: to_string(transfer_id),
                    reason: e.message(),
                    code: to_string(e.code()),
                    detail: e.detail(),
                },
            ),
            mark_failure: true,
        },
    }
}

/// What an engine event does to the set of failures already notified.
#[derive(Debug, Clone, Copy, PartialEq, Eq, Structural)]
pub enum FailureMark {
    /// The task finished; a later retry may notify again.
    Clear,
    /// The task failed; mark it notified.
    Mark,
    /// No change.
    Keep,
}

/// The system notification an engine event raises, as title and body, and
/// its effect on the set of failures already notified.
///
/// Completion and cancellation notify and clear; an interruption notifies
/// only if nobody did yet (`already_notified`); received text shows a
/// title that says whether it was copied (`copied`) and a preview.
pub fn event_notice(event: &TransferEvent, lang: Lang, copied: bool, already_notified: bool) -> (r: (
    Option<(String, String)>,
    FailureMark,
))
    ensures
        match *event {
            TransferEvent::Completed { .. } => (r.0 matches Some((t, b)) && t@ == "Deskmate"@ && b@
                == localize_spec(Text::TransferCompleted, lang)) && r.1 == FailureMark::Clear,
            TransferEvent::Cancelled { .. } => (r.0 matches Some((t, b)) && t@ == "Deskmate"@ && b@
                == localize_spec(Text::TransferCancelled, lang)) && r.1 == FailureMark::Clear,
            TransferEvent::Interrupted { .. } => (if already_notified {
                r.0 is None
            } else {
                r.0 matches Some((t, b)) && t@ == "Deskmate"@ && b@ == localize_spec(
                    Text::TransferInterrupted,
                    lang,
                )
            }) && r.1 == FailureMark::Mark,
            TransferEvent::TextReceived { from, text } => (r.0 matches Some((t, b)) && t@
                == super::locale::incoming_title(from.name@, copied, lang)
                && b@ == preview_spec(text@)) && r.1 == FailureMark::Keep,
            _ => r.0 is None && r.1 == FailureMark::Keep,
        },
{
    match event {
        TransferEvent::Completed { .. } => (
            Some((to_string("Deskmate"), Text::TransferCompleted.localize(lang))),
            FailureMark::Clear,
        ),
        TransferEvent::Cancelled { .. } => (
            Some((to_string("Deskmate"), Text::TransferCancelled.localize(lang))),
            FailureMark::Clear,
        ),
        TransferEvent::Interrupted { .. } => {
            if already_notified {
                (None, FailureMark::Mark)
            } else {
                (
                    Some((to_string("Deskmate"), Text::TransferInterrupted.localize(lang))),
                    FailureMark::Mark,
                )
            }
        },
        TransferEvent::TextReceived { from, text } => {
            let title = Text::IncomingMessage { name: from.name.as_str(), copied }.localize(lang);
            (Some((title, crate::format::preview_of(text.as_str()))), FailureMark::Keep)
        },
        _ => (None, FailureMark::Keep),
    }
}

/// Sums of the done and total bytes of the active transfers.
pub open spec fn progress_sums(active: Seq<(u64, u64)>) -> (int, int)
    decreases active.len(),
{
    if active.len() == 0 {
        (0, 0)
    } else {
        let (d, s) = progress_sums(active.drop_last());
        (d + active.last().0, s + active.last().1)
    }
}

/// The taskbar's progress: none without active transfers, else the
/// percentage of done over total bytes (zero for an empty total), at most 100.
pub open spec fn taskbar_spec(active: Seq<(u64, u64)>) -> Option<int> {
    if active.len() == 0 {
        None
    } else {
        let (d, s) = progress_sums(active);
        let pct = if s == 0 { 0 } else { (d * 100) / s };
        Some(if pct > 100 { 100 } else { pct })
    }
}

proof fn lemma_sums_monotone(active: Seq<(u64, u64)>, i: int)
    requires
        0 <= i <= active.len(),
    ensures
        progress_sums(active.take(i)).0 <= progress_sums(active).0,
        progress_sums(active.take(i)).1 <= progress_sums(active).1,
        progress_sums(active.take(i)).0 >= 0,
        progress_sums(active.take(i)).1 >= 0,
    decreases active.len() - i,
{
    if i < active.len() {
        lemma_sums_monotone(active, i + 1);
        assert(active.take(i + 1).drop_last() =~= active.take(i));
    } else {
        assert(active.take(i) =~= active);
    }
    lemma_sums_nonneg(active.take(i));
}

proof fn lemma_sums_nonneg(active: Seq<(u64, u64)>)
    ensures
        progress_sums(active).0 >= 0,
        progress_sums(active).1 >= 0,
    decreases active.len(),
{
    if active.len() > 0 {
        lemma_sums_nonneg(active.drop_last());
    }
}

/// The taskbar's progress over the active transfers' current files; the
/// sums and the percentage product must fit in `u64`.
pub fn taskbar_percent(active: &Vec<(u64, u64)>) -> (r: Option<u64>)
    requires
        progress_sums(active@).0 * 100 <= u64::MAX,
        progress_sums(active@).1 <= u64::MAX,
    ensures
        match r {
            Some(p) => taskbar_spec(active@) == Some(p as int),
            None => taskbar_spec(active@) is None,
        },
{
    if active.len() == 0 {
        return None;
    }
    let mut d: u64 = 0;
    let mut s: u64 = 0;
    let mut i: usize = 0;
    proof {
        lemma_sums_nonneg(active@);
    }
    while i < active.len()
        invariant
            i <= active.len(),
            progress_sums(active@).0 * 100 <= u64::MAX,
            progress_sums(active@).1 <= u64::MAX,
            (d as int, s as int) == progress_sums(active@.take(i as int)),
        decreases active.len() - i,
    {
        proof {
            assert(active@.take(i + 1).drop_last() =~= active@.take(i as int));
            lemma_sums_monotone(active@, i + 1);
        }
        d = d + active[i].0;
        s = s + active[i].1;
        i = i + 1;
    }
    assert(active@.take(active.len() as int) =~= active@);
    let pct = if s == 0 {
        0
    } else {
        (d * 100) / s
    };
    Some(if pct > 100 {
        100
    } else {
        pct
    })
}

/// The hash of an advertised image avatar, `img:<hash>`, when the hash is
/// safe to use in a cache file name.
pub fn advertised_image_hash(avatar: &Option<String>) -> (r: Option<String>)
    ensures
        match *avatar {
            Some(a) => if a@.len() >= 4 && a@.take(4) == "img:"@ && is_safe_hash_spec(a@.skip(4)) {
                r matches Some(h) && h@ == a@.skip(4)
            } else {
                r is None
            },
            None => r is None,
        },
{
    let a = match avatar {
        Some(a) => a,
        None => {
            return None;
        },
    };
    if !crate::text::starts_with(a.as_str(), "img:") {
        proof {
            reveal_strlit("img:");
        }
        return None;
    }
    proof {
        reveal_strlit("img:");
    }
    let n = a.unicode_len();
    let mut h = String::new();
    let mut i: usize = 4;
    while i < n
        invariant
            n == a@.len(),
            4 <= i <= n,
            h@ == a@.subrange(4, i as int),
        decreases n - i,
    {
        crate::text::push_char(&mut h, a.as_str().get_char(i));
        i = i + 1;
        assert(h@ =~= a@.subrange(4, i as int));
    }
    assert(h@ =~= a@.skip(4));
    if crate::identity::is_safe_hash(h.as_str()) {
        Some(h)
    } else {
        None
    }
}

/// Where an avatar image is read from: the local custom avatar, or a cached
/// peer avatar by hash (`None` for a hash that is not safe as a file name).
pub fn avatar_path(data_dir: &str, hash: &Option<String>) -> (r: Option<String>)
    ensures
        match *hash {
            None => r matches Some(p) && p@ == join_spec(data_dir@, AVATAR_FILE@),
            Some(h) => if is_safe_hash_spec(h@) {
                r matches Some(p) && p@ == join_spec(
                    join_spec(data_dir@, AVATAR_CACHE_DIR@),
                    h@ + ".jpg"@,
                )
            } else {
                r is None
            },
        },
{
    match hash {
        None => Some(path_join(data_dir, AVATAR_FILE)),
        Some(h) => {
            if !crate::identity::is_safe_hash(h.as_str()) {
                return None;
            }
            let dir = path_join(data_dir, AVATAR_CACHE_DIR);
            let mut name = h.clone();
            crate::text::push_str(&mut name, ".jpg");
            Some(path_join(dir.as_str(), name.as_str()))
        },
    }
}

/// Checks a custom avatar image before it is stored.
pub fn check_avatar_image(len: usize) -> (r: Result<(), ErrDto>)
    ensures
        len == 0 ==> (r matches Err(e) && e.code == "avatar_empty" && e.detail is None),
        len > 0 && len > MAX_AVATAR_SIZE ==> (r matches Err(e) && e.code == "avatar_too_large"
            && e.detail is None),
        0 < len <= MAX_AVATAR_SIZE ==> r is Ok,
{
    if len == 0 {
        return Err(ErrDto::new("avatar_empty"));
    }
    if len as u64 > MAX_AVATAR_SIZE {
        return Err(ErrDto::new("avatar_too_large"));
    }
    Ok(())
}

/// A screenshot file name the frontend may choose: not empty, no `..`, and
/// only ASCII letters, digits, `.`, `-` and `_`.
pub open spec fn legal_screenshot_name(name: Seq<char>) -> bool {
    &&& name.len() > 0
    &&& forall|i: int| 0 <= i < name.len() - 1 ==> !(#[trigger] name[i] == '.' && name[i + 1] == '.')
    &&& forall|i: int|
        0 <= i < name.len() ==> is_ascii_alnum(#[trigger] name[i]) || name[i] == '.' || name[i]
            == '-' || name[i] == '_'
}

/// Whether a screenshot file name is safe against path traversal.
pub fn is_legal_screenshot_name(name: &str) -> (r: bool)
    ensures
        r == legal_screenshot_name(name@),
{
    let n = name.unicode_len();
    if n == 0 {
        return false;
    }
    let mut i: usize = 0;
    while i < n
        invariant
            n == name@.len(),
            i <= n,
            forall|j: int|
                0 <= j < i ==> is_ascii_alnum(#[trigger] name@[j]) || name@[j] == '.' || name@[j]
                    == '-' || name@[j] == '_',
            forall|j: int| 0 <= j < i && j + 1 < n ==> !(#[trigger] name@[j] == '.' && name@[j + 1] == '.'),
        decreases n - i,
    {
        let c = name.get_char(i);
        let ok = ('0' <= c && c <= '9') || ('a' <= c && c <= 'z') || ('A' <= c && c <= 'Z') || c
            == '.' || c == '-' || c == '_';
        if !ok {
            return false;
        }
        if c == '.' && i + 1 < n && name.get_char(i + 1) == '.' {
            return false;
        }
        i = i + 1;
    }
    true
}

/// Whether a staging ID looks like the UUID it should be: not empty, only
/// hexadecimal digits and `-`.
pub fn is_legal_staged_id(id: &str) -> (r: bool)
    ensures
        r == (id@.len() > 0 && forall|i: int|
            0 <= i < id@.len() ==> is_ascii_hex(#[trigger] id@[i]) || id@[i] == '-'),
{
    let n = id.unicode_len();
    if n == 0 {
        return false;
    }
    let mut i: usize = 0;
    while i < n
        invariant
            n == id@.len(),
            i <= n,
            forall|j: int| 0 <= j < i ==> is_ascii_hex(#[trigger] id@[j]) || id@[j] == '-',
        decreases n - i,
    {
        let c = id.get_char(i);
        let ok = ('0' <= c && c <= '9') || ('a' <= c && c <= 'f') || ('A' <= c && c <= 'F') || c
            == '-';
        if !ok {
            return false;
        }
        i = i + 1;
    }
    true
}

} // verus!
