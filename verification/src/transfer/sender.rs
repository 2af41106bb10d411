//! Sender rules: the manifest, the reading of the receiver's answers, the
//! send plan for new and resumed transfers, and the control commands that
//! travel beside the data stream.
//!
//! Session flow: a control connection carries Hello/HelloAck and the
//! TransferRequest; the receiver's human decision may take minutes; a data
//! connection then carries DataHello and, per file, FileHeader, the raw
//! bytes and FileFooter. The control connection keeps listening for the
//! peer's pause, resume and cancel.

use vstd::prelude::*;

use super::{ControlState, TransferError, TransferEvent};
use crate::identity::{blake3_digest, blake3_hex};
use crate::protocol::{
    check_version, files_view, kind_name, major_spec, opt_view, ControlMessage, FileMeta,
    FileMetaView, PeerInfo, ProtocolError, ResumeFileState, MAX_AVATAR_SIZE,
};
use crate::text::{hex_of, push_str, to_string};

verus! {

/// Transfer result summary.
#[derive(Debug)]
pub struct SendSummary {
    /// Transfer task ID.
    pub transfer_id: String,
    /// Peer device information.
    pub peer: PeerInfo,
    /// Files actually sent after possible partial acceptance.
    pub files_sent: usize,
    /// Bytes actually sent.
    pub bytes_sent: u64,
}

/// A collected source file: its local path, its manifest-relative path and its size.
#[derive(Debug)]
pub struct SourceEntry {
    /// Local absolute path.
    pub abs_path: String,
    /// Relative path using `/`, as it appears in the manifest.
    pub rel_path: String,
    /// Size in bytes.
    pub size: u64,
}

/// One file of the data phase: offset zero for a new send, the receiver's
/// progress for a resume.
#[derive(Debug)]
pub struct SendItem {
    /// File index aligned with the receiver's manifest.
    pub file_id: u32,
    /// Local absolute path.
    pub abs_path: String,
    /// Relative path shown in progress events.
    pub rel_path: String,
    /// Total file size in bytes.
    pub size: u64,
    /// First byte to send.
    pub offset: u64,
}

/// The contents of a [`SendItem`]: ID, local path, relative path, size, offset.
pub open spec fn item_view(i: SendItem) -> (u32, Seq<char>, Seq<char>, u64, u64) {
    (i.file_id, i.abs_path@, i.rel_path@, i.size, i.offset)
}

/// The contents of a list of send items.
pub open spec fn items_view(v: Seq<SendItem>) -> Seq<(u32, Seq<char>, Seq<char>, u64, u64)> {
    v.map_values(|i: SendItem| item_view(i))
}

// ---------------------------------------------------------------------------
// The manifest
// ---------------------------------------------------------------------------

/// The manifest of collected files: numbered in order from zero (saturating
/// at `u32::MAX`), with their relative paths and sizes; `inline_image` marks
/// every entry as a clipboard image the receiver may show inline.
pub open spec fn manifest_spec(entries: Seq<SourceEntry>, inline_image: bool) -> Seq<FileMetaView> {
    Seq::new(
        entries.len(),
        |i: int|
            FileMetaView {
                file_id: if i < u32::MAX { i as u32 } else { u32::MAX },
                rel_path: entries[i].rel_path@,
                size: entries[i].size,
                inline_image: inline_image,
            },
    )
}

/// Numbers collected files in order and turns them into manifest entries,
/// marked as inline clipboard images when `inline_image` is set (a regular
/// send leaves them unmarked).
pub fn build_manifest(entries: &Vec<SourceEntry>, inline_image: bool) -> (r: Vec<FileMeta>)
    ensures
        files_view(r@) == manifest_spec(entries@, inline_image),
{
    let mut out: Vec<FileMeta> = Vec::new();
    let mut i: usize = 0;
    while i < entries.len()
        invariant
            i <= entries.len(),
            out@.len() == i,
            forall|j: int| 0 <= j < i ==> #[trigger] out@[j]@ == manifest_spec(entries@, inline_image)[j],
        decreases entries.len() - i,
    {
        let id: u32 = if i < 4294967295usize {
            i as u32
        } else {
            4294967295u32
        };
        out.push(
            FileMeta {
                file_id: id,
                rel_path: entries[i].rel_path.clone(),
                size: entries[i].size,
                inline_image,
            },
        );
        i = i + 1;
    }
    assert(files_view(out@) =~= manifest_spec(entries@, inline_image));
    out
}

/// The total size of a manifest.
pub open spec fn total_size_spec(files: Seq<FileMetaView>) -> int
    decreases files.len(),
{
    if files.len() == 0 {
        0
    } else {
        total_size_spec(files.drop_last()) + files.last().size
    }
}

proof fn lemma_total_monotone(files: Seq<FileMetaView>, i: int)
    requires
        0 <= i <= files.len(),
    ensures
        total_size_spec(files.take(i)) <= total_size_spec(files),
    decreases files.len() - i,
{
    if i < files.len() {
        lemma_total_monotone(files, i + 1);
        assert(files.take(i + 1).drop_last() =~= files.take(i));
    } else {
        assert(files.take(i) =~= files);
    }
}

/// The total size in bytes of a manifest; the sizes must add up within `u64`.
pub fn total_size(files: &Vec<FileMeta>) -> (r: u64)
    requires
        total_size_spec(files_view(files@)) <= u64::MAX,
    ensures
        r == total_size_spec(files_view(files@)),
{
    let ghost fv = files_view(files@);
    let mut sum: u64 = 0;
    let mut i: usize = 0;
    while i < files.len()
        invariant
            i <= files.len(),
            fv == files_view(files@),
            total_size_spec(fv) <= u64::MAX,
            sum == total_size_spec(fv.take(i as int)),
        decreases files.len() - i,
    {
        proof {
            assert(fv.take(i + 1).drop_last() =~= fv.take(i as int));
            lemma_total_monotone(fv, i + 1);
        }
        sum = sum + files[i].size;
        i = i + 1;
    }
    assert(fv.take(files.len() as int) =~= fv);
    sum
}

// ---------------------------------------------------------------------------
// Answers from the receiver
// ---------------------------------------------------------------------------

/// The protocol error for a message that is not the one awaited.
pub open spec fn is_unexpected(e: TransferError, expected: Seq<char>, m: ControlMessage) -> bool {
    e matches TransferError::Protocol(ProtocolError::Unexpected { expected: x, got })
        && x@ == expected && got@ == kind_name(m)@
}

/// Builds an unexpected-message protocol error.
fn unexpected(expected: &str, got: &ControlMessage) -> (r: TransferError)
    ensures
        is_unexpected(r, expected@, *got),
{
    TransferError::Protocol(
        ProtocolError::Unexpected { expected: to_string(expected), got: to_string(got.kind()) },
    )
}

/// Reads the handshake answer: it must be a `HelloAck` with a compatible
/// version, declaring the fingerprint of the TLS certificate (`tls_fp`).
pub fn check_hello_ack(ack: ControlMessage, tls_fp: &Option<String>) -> (r: Result<
    PeerInfo,
    TransferError,
>)
    ensures
        match ack {
            ControlMessage::HelloAck { version, info } => if major_spec(version@) != major_spec(
                crate::PROTOCOL_VERSION@,
            ) {
                r matches Err(TransferError::Protocol(ProtocolError::VersionMismatch { peer, .. }))
                    && peer@ == version@
            } else if opt_view(*tls_fp) != Some(info@.fingerprint) {
                r matches Err(e) && e is PeerMismatch
            } else {
                r matches Ok(i) && i@ == info@
            },
            _ => r matches Err(e) && is_unexpected(e, "hello_ack"@, ack),
        },
{
    match ack {
        ControlMessage::HelloAck { version, info } => {
            match check_version(version.as_str()) {
                Ok(()) => {},
                Err(e) => {
                    return Err(TransferError::Protocol(e));
                },
            }
            let same = match tls_fp {
                Some(fp) => *fp == info.fingerprint,
                None => false,
            };
            if !same {
                return Err(TransferError::PeerMismatch);
            }
            Ok(info)
        },
        _ => Err(unexpected("hello_ack", &ack)),
    }
}

/// Reads the answer to a transfer request: the accepted file IDs.
///
/// A required PIN and a full rejection have errors of their own.
pub fn read_offer_response(resp: ControlMessage) -> (r: Result<Vec<u32>, TransferError>)
    ensures
        match resp {
            ControlMessage::TransferResponse {
                accepted_files,
                reason,
                pin_required,
                reason_code,
                ..
            } => if pin_required {
                r matches Err(e) && e is PinRequired
            } else if accepted_files@.len() == 0 {
                r matches Err(TransferError::Rejected { reason: x, reason_code: y }) && opt_view(x)
                    == opt_view(reason) && opt_view(y) == opt_view(reason_code)
            } else {
                r matches Ok(v) && v@ == accepted_files@
            },
            _ => r matches Err(e) && is_unexpected(e, "transfer_response"@, resp),
        },
{
    match resp {
        ControlMessage::TransferResponse {
            accepted_files,
            reason,
            pin_required,
            reason_code,
            ..
        } => {
            if pin_required {
                return Err(TransferError::PinRequired);
            }
            if accepted_files.len() == 0 {
                return Err(TransferError::Rejected { reason, reason_code });
            }
            Ok(accepted_files)
        },
        _ => Err(unexpected("transfer_response", &resp)),
    }
}

/// Reads the answer to a text: `TextAck`, or a rejection for a missing PIN.
pub fn read_text_reply(resp: &ControlMessage) -> (r: Result<(), TransferError>)
    ensures
        match *resp {
            ControlMessage::TextAck => r is Ok,
            ControlMessage::TextRejected { pin_required: true } => r matches Err(e)
                && e is PinRequired,
            _ => r matches Err(e) && is_unexpected(e, "text_ack"@, *resp),
        },
{
    match resp {
        ControlMessage::TextAck => Ok(()),
        ControlMessage::TextRejected { pin_required: true } => Err(TransferError::PinRequired),
        _ => Err(unexpected("text_ack", resp)),
    }
}

/// Reads the header of an avatar answer: `None` for an unset avatar, else the
/// declared hash and byte count, which must not exceed [`MAX_AVATAR_SIZE`].
pub fn read_avatar_header(resp: ControlMessage) -> (r: Result<Option<(String, u64)>, TransferError>)
    ensures
        match resp {
            ControlMessage::AvatarResponse { hash, size } => if size == 0 {
                r matches Ok(None)
            } else if size > MAX_AVATAR_SIZE {
                r matches Err(TransferError::AvatarTooLarge { size: s }) && s == size
            } else {
                r matches Ok(Some((h, s))) && h@ == hash@ && s == size
            },
            _ => r matches Err(e) && is_unexpected(e, "avatar_response"@, resp),
        },
{
    match resp {
        ControlMessage::AvatarResponse { hash, size } => {
            if size == 0 {
                Ok(None)
            } else if size > MAX_AVATAR_SIZE {
                Err(TransferError::AvatarTooLarge { size })
            } else {
                Ok(Some((hash, size)))
            }
        },
        _ => Err(unexpected("avatar_response", &resp)),
    }
}

/// Accepts avatar bytes only when they hash to the declared value; anything
/// else is treated as poisoned and discarded.
pub fn check_avatar(hash: &str, data: &[u8]) -> (r: Result<(), TransferError>)
    ensures
        r is Ok <==> hex_of(blake3_digest(data@)) == hash@,
        r matches Err(e) ==> (e matches TransferError::HashMismatch { rel_path } && rel_path@
            == "avatar"@),
{
    let got = blake3_hex(data);
    if crate::text::str_eq(got.as_str(), hash) {
        Ok(())
    } else {
        Err(TransferError::HashMismatch { rel_path: to_string("avatar") })
    }
}

/// The reason given when the receiver has nothing to resume.
pub open spec fn no_resume_data() -> Seq<char> {
    "peer has no resume data for this "@ + "task; it may be complete or metadata may be missing"@
}

/// Reads the answer to a resume query: the receiver's per-file progress.
///
/// An empty list means the receiver has nothing to resume.
pub fn read_resume_info(resp: ControlMessage) -> (r: Result<Vec<ResumeFileState>, TransferError>)
    ensures
        match resp {
            ControlMessage::ResumeInfo { files, .. } => if files@.len() == 0 {
                r matches Err(TransferError::ResumeUnavailable(why)) && why@ == no_resume_data()
            } else {
                r matches Ok(v) && v@ == files@
            },
            _ => r matches Err(e) && is_unexpected(e, "resume_info"@, resp),
        },
{
    match resp {
        ControlMessage::ResumeInfo { files, .. } => {
            if files.len() == 0 {
                let mut why = to_string("peer has no resume data for this ");
                push_str(&mut why, "task; it may be complete or metadata may be missing");
                Err(TransferError::ResumeUnavailable(why))
            } else {
                Ok(files)
            }
        },
        _ => Err(unexpected("resume_info", &resp)),
    }
}

// ---------------------------------------------------------------------------
// Send plans
// ---------------------------------------------------------------------------

/// The plan of a new transfer: the accepted files in manifest order, each
/// from offset zero, with the local path of the entry its ID numbers.
pub open spec fn new_plan_spec(
    entries: Seq<SourceEntry>,
    files: Seq<FileMetaView>,
    accepted: Seq<u32>,
) -> Seq<(u32, Seq<char>, Seq<char>, u64, u64)>
    decreases files.len(),
{
    if files.len() == 0 {
        Seq::empty()
    } else {
        let rest = new_plan_spec(entries, files.drop_last(), accepted);
        let f = files.last();
        if accepted.contains(f.file_id) {
            rest.push((f.file_id, entries[f.file_id as int].abs_path@, f.rel_path, f.size, 0u64))
        } else {
            rest
        }
    }
}

/// Builds the plan of a new transfer from the collected entries, their
/// manifest and the accepted IDs.
pub fn new_send_plan(entries: &Vec<SourceEntry>, files: &Vec<FileMeta>, accepted: &Vec<u32>) -> (r:
    Vec<SendItem>)
    requires
        forall|k: int|
            0 <= k < files@.len() ==> (#[trigger] files@[k]).file_id < entries@.len(),
    ensures
        items_view(r@) == new_plan_spec(entries@, files_view(files@), accepted@),
{
    let ghost fv = files_view(files@);
    let mut out: Vec<SendItem> = Vec::new();
    let mut i: usize = 0;
    while i < files.len()
        invariant
            i <= files.len(),
            fv == files_view(files@),
            forall|k: int| 0 <= k < files@.len() ==> (#[trigger] files@[k]).file_id < entries@.len(),
            items_view(out@) == new_plan_spec(entries@, fv.take(i as int), accepted@),
        decreases files.len() - i,
    {
        let f = &files[i];
        proof {
            assert(fv.take(i + 1).drop_last() =~= fv.take(i as int));
            assert(fv.take(i + 1).last() == f@);
        }
        if crate::transfer::receiver::contains_id(accepted, f.file_id) {
            let e = &entries[f.file_id as usize];
            let item = SendItem {
                file_id: f.file_id,
                abs_path: e.abs_path.clone(),
                rel_path: f.rel_path.clone(),
                size: f.size,
                offset: 0,
            };
            let ghost before = out@;
            out.push(item);
            proof {
                assert(items_view(out@) =~= items_view(before).push(item_view(out@.last())));
            }
        }
        i = i + 1;
    }
    assert(fv.take(files.len() as int) =~= fv);
    out
}

/// The index of the last collected entry with relative path `rel`, or -1;
/// with duplicate paths the later entry wins, as in a map built in order.
pub open spec fn entry_index(entries: Seq<SourceEntry>, rel: Seq<char>) -> int
    decreases entries.len(),
{
    if entries.len() == 0 {
        -1
    } else if entries.last().rel_path@ == rel {
        entries.len() - 1
    } else {
        entry_index(entries.drop_last(), rel)
    }
}

proof fn lemma_entry_index(entries: Seq<SourceEntry>, rel: Seq<char>)
    ensures
        -1 <= entry_index(entries, rel) < entries.len(),
        entry_index(entries, rel) >= 0 ==> entries[entry_index(entries, rel)].rel_path@ == rel,
        entry_index(entries, rel) == -1 ==> forall|j: int|
            0 <= j < entries.len() ==> (#[trigger] entries[j]).rel_path@ != rel,
    decreases entries.len(),
{
    if entries.len() > 0 {
        lemma_entry_index(entries.drop_last(), rel);
        assert forall|j: int| 0 <= j < entries.len() - 1 implies entries[j] == entries.drop_last()[j] by {}
    }
}

/// The plan of a resumed transfer, or the reason it cannot resume: every
/// file the receiver still expects must exist locally under the same
/// relative path with the same size (else the whole-file hash could not
/// continue); sending starts at the receiver's progress, capped at the size.
pub open spec fn resume_plan_spec(
    entries: Seq<SourceEntry>,
    states: Seq<ResumeFileState>,
) -> Result<Seq<(u32, Seq<char>, Seq<char>, u64, u64)>, Seq<char>>
    decreases states.len(),
{
    if states.len() == 0 {
        Ok(Seq::empty())
    } else {
        match resume_plan_spec(entries, states.drop_last()) {
            Err(why) => Err(why),
            Ok(rest) => {
                let s = states.last();
                let k = entry_index(entries, s.rel_path@);
                if k < 0 {
                    Err("local file is missing: "@ + s.rel_path@)
                } else if entries[k].size != s.size {
                    Err("source file changed: "@ + s.rel_path@)
                } else {
                    Ok(
                        rest.push(
                            (
                                s.file_id,
                                entries[k].abs_path@,
                                s.rel_path@,
                                s.size,
                                if s.received < s.size {
                                    s.received
                                } else {
                                    s.size
                                },
                            ),
                        ),
                    )
                }
            },
        }
    }
}

/// Finds the last collected entry with relative path `rel`.
fn find_entry(entries: &Vec<SourceEntry>, rel: &str) -> (r: Option<usize>)
    ensures
        match r {
            Some(k) => k as int == entry_index(entries@, rel@) && k < entries@.len(),
            None => entry_index(entries@, rel@) == -1,
        },
{
    proof {
        lemma_entry_index(entries@, rel@);
    }
    let mut i: usize = entries.len();
    proof {
        assert(entries@.take(entries.len() as int) =~= entries@);
    }
    while i > 0
        invariant
            i <= entries.len(),
            entry_index(entries@, rel@) == entry_index(entries@.take(i as int), rel@),
        decreases i,
    {
        proof {
            assert(entries@.take(i as int).drop_last() =~= entries@.take(i - 1));
            assert(entries@.take(i as int).last() == entries@[i - 1]);
        }
        if crate::text::str_eq(entries[i - 1].rel_path.as_str(), rel) {
            return Some(i - 1);
        }
        i = i - 1;
    }
    None
}

/// Builds the plan of a resumed transfer from the local entries and the
/// receiver's progress; refuses with `ResumeUnavailable` as
/// [`resume_plan_spec`] says.
pub fn resume_plan(entries: &Vec<SourceEntry>, states: &Vec<ResumeFileState>) -> (r: Result<
    Vec<SendItem>,
    TransferError,
>)
    ensures
        match resume_plan_spec(entries@, states@) {
            Ok(p) => r matches Ok(v) && items_view(v@) == p,
            Err(why) => r matches Err(TransferError::ResumeUnavailable(w)) && w@ == why,
        },
{
    let mut out: Vec<SendItem> = Vec::new();
    let mut i: usize = 0;
    while i < states.len()
        invariant
            i <= states.len(),
            resume_plan_spec(entries@, states@.take(i as int)) matches Ok(p) && items_view(out@)
                == p,
        decreases states.len() - i,
    {
        let s = &states[i];
        proof {
            assert(states@.take(i + 1).drop_last() =~= states@.take(i as int));
            assert(states@.take(i + 1).last() == s);
        }
        let k = match find_entry(entries, s.rel_path.as_str()) {
            Some(k) => k,
            None => {
                let mut why = to_string("local file is missing: ");
                push_str(&mut why, s.rel_path.as_str());
                proof {
                    lemma_resume_plan_err(entries@, states@, i + 1);
                }
                return Err(TransferError::ResumeUnavailable(why));
            },
        };
        if entries[k].size != s.size {
            let mut why = to_string("source file changed: ");
            push_str(&mut why, s.rel_path.as_str());
            proof {
                lemma_resume_plan_err(entries@, states@, i + 1);
            }
            return Err(TransferError::ResumeUnavailable(why));
        }
        let item = SendItem {
            file_id: s.file_id,
            abs_path: entries[k].abs_path.clone(),
            rel_path: s.rel_path.clone(),
            size: s.size,
            offset: if s.received < s.size {
                s.received
            } else {
                s.size
            },
        };
        let ghost before = out@;
        out.push(item);
        proof {
            assert(items_view(out@) =~= items_view(before).push(item_view(out@.last())));
        }
        i = i + 1;
    }
    assert(states@.take(states.len() as int) =~= states@);
    Ok(out)
}

/// Once a prefix of the states fails, the whole list fails with the same reason.
proof fn lemma_resume_plan_err(entries: Seq<SourceEntry>, states: Seq<ResumeFileState>, i: int)
    requires
        0 <= i <= states.len(),
        resume_plan_spec(entries, states.take(i)) is Err,
    ensures
        resume_plan_spec(entries, states) == resume_plan_spec(entries, states.take(i)),
    decreases states.len() - i,
{
    if i < states.len() {
        assert(states.take(i + 1).drop_last() =~= states.take(i));
        lemma_resume_plan_err(entries, states, i + 1);
    } else {
        assert(states.take(i) =~= states);
    }
}

/// A resumed transfer continues each file where the receiver stopped: the
/// plan has one item per file the receiver reported, in its order, with the
/// same ID, relative path and size, read from a local file of that relative
/// path and size, starting at the bytes the receiver holds (never past the
/// end of the file).
pub proof fn resume_continues_where_receiver_stopped(
    entries: Seq<SourceEntry>,
    states: Seq<ResumeFileState>,
)
    ensures
        resume_plan_spec(entries, states) matches Ok(p) ==> {
            &&& p.len() == states.len()
            &&& forall|i: int|
                0 <= i < states.len() ==> {
                    let s = states[i];
                    let x = #[trigger] p[i];
                    &&& x.0 == s.file_id
                    &&& x.2 == s.rel_path@
                    &&& x.3 == s.size
                    &&& x.4 as int == vstd::math::min(s.received as int, s.size as int)
                    &&& exists|k: int|
                        0 <= k < entries.len() && entries[k].rel_path@ == s.rel_path@
                            && entries[k].size == s.size && x.1 == entries[k].abs_path@
                }
        },
    decreases states.len(),
{
    if states.len() > 0 {
        let d = states.drop_last();
        resume_continues_where_receiver_stopped(entries, d);
        if let Ok(p) = resume_plan_spec(entries, states) {
            let s = states.last();
            lemma_entry_index(entries, s.rel_path@);
            let k = entry_index(entries, s.rel_path@);
            let rest = resume_plan_spec(entries, d)->Ok_0;
            assert(resume_plan_spec(entries, d) is Ok);
            assert(p.drop_last() =~= rest);
            assert forall|i: int| 0 <= i < states.len() implies {
                let s = states[i];
                let x = #[trigger] p[i];
                &&& x.0 == s.file_id
                &&& x.2 == s.rel_path@
                &&& x.3 == s.size
                &&& x.4 as int == vstd::math::min(s.received as int, s.size as int)
                &&& exists|k: int|
                    0 <= k < entries.len() && entries[k].rel_path@ == s.rel_path@
                        && entries[k].size == s.size && x.1 == entries[k].abs_path@
            } by {
                if i < d.len() {
                    assert(p[i] == rest[i]);
                    assert(states[i] == d[i]);
                } else {
                    assert(states[i] == s);
                    assert(entries[k].rel_path@ == s.rel_path@);
                }
            }
        }
    }
}

/// The bytes a plan sends: for each file, its size less its offset.
pub open spec fn plan_bytes_spec(plan: Seq<(u32, Seq<char>, Seq<char>, u64, u64)>) -> int
    decreases plan.len(),
{
    if plan.len() == 0 {
        0
    } else {
        let x = plan.last();
        plan_bytes_spec(plan.drop_last()) + (if x.4 < x.3 {
            x.3 - x.4
        } else {
            0
        })
    }
}

/// The summary of a data phase that sent every file of its plan.
pub fn plan_summary(
    transfer_id: String,
    peer: PeerInfo,
    plan: &Vec<SendItem>,
) -> (r: SendSummary)
    requires
        plan_bytes_spec(items_view(plan@)) <= u64::MAX,
    ensures
        r.transfer_id@ == transfer_id@,
        r.peer@ == peer@,
        r.files_sent == plan@.len(),
        r.bytes_sent == plan_bytes_spec(items_view(plan@)),
{
    let ghost pv = items_view(plan@);
    let mut bytes: u64 = 0;
    let mut i: usize = 0;
    while i < plan.len()
        invariant
            i <= plan.len(),
            pv == items_view(plan@),
            plan_bytes_spec(pv) <= u64::MAX,
            bytes == plan_bytes_spec(pv.take(i as int)),
        decreases plan.len() - i,
    {
        proof {
            assert(pv.take(i + 1).drop_last() =~= pv.take(i as int));
            lemma_plan_bytes_monotone(pv, i + 1);
        }
        let it = &plan[i];
        let add: u64 = if it.offset < it.size {
            it.size - it.offset
        } else {
            0
        };
        bytes = bytes + add;
        i = i + 1;
    }
    assert(pv.take(plan.len() as int) =~= pv);
    SendSummary { transfer_id, peer, files_sent: plan.len(), bytes_sent: bytes }
}

proof fn lemma_plan_bytes_monotone(plan: Seq<(u32, Seq<char>, Seq<char>, u64, u64)>, i: int)
    requires
        0 <= i <= plan.len(),
    ensures
        plan_bytes_spec(plan.take(i)) <= plan_bytes_spec(plan),
    decreases plan.len() - i,
{
    if i < plan.len() {
        lemma_plan_bytes_monotone(plan, i + 1);
        assert(plan.take(i + 1).drop_last() =~= plan.take(i));
    } else {
        assert(plan.take(i) =~= plan);
    }
}

// ---------------------------------------------------------------------------
// Control commands beside the data stream
// ---------------------------------------------------------------------------

/// What the sender does with a frame from the receiver's control session.
#[derive(Debug)]
pub enum RemoteCommand {
    /// Set the remote control state and report the event.
    Apply(ControlState, TransferEvent),
    /// The receiver cancelled: set the remote state to `Cancelled` and stop listening.
    Cancel,
    /// The session ended: stop listening.
    Stop,
    /// Not for the running transfer, or not a command.
    Ignore,
}

/// Reads a frame from the receiver while the data phase of `transfer_id` runs.
///
/// A cancellation raises no event of its own: the data phase reports the
/// unified `Cancelled` result.
pub fn on_remote_frame(msg: &ControlMessage, transfer_id: &str) -> (r: RemoteCommand)
    ensures
        match *msg {
            ControlMessage::Pause { transfer_id: id } => if id@ == transfer_id@ {
                r matches RemoteCommand::Apply(ControlState::Paused, TransferEvent::Paused { transfer_id: t })
                    && t@ == transfer_id@
            } else {
                r is Ignore
            },
            ControlMessage::Resume { transfer_id: id } => if id@ == transfer_id@ {
                r matches RemoteCommand::Apply(ControlState::Running, TransferEvent::Resumed { transfer_id: t })
                    && t@ == transfer_id@
            } else {
                r is Ignore
            },
            ControlMessage::Cancel { transfer_id: id } => if id@ == transfer_id@ {
                r is Cancel
            } else {
                r is Ignore
            },
            ControlMessage::Bye => r is Stop,
            _ => r is Ignore,
        },
{
    match msg {
        ControlMessage::Pause { transfer_id: id } => {
            if crate::text::str_eq(id.as_str(), transfer_id) {
                RemoteCommand::Apply(
                    ControlState::Paused,
                    TransferEvent::Paused { transfer_id: to_string(transfer_id) },
                )
            } else {
                RemoteCommand::Ignore
            }
        },
        ControlMessage::Resume { transfer_id: id } => {
            if crate::text::str_eq(id.as_str(), transfer_id) {
                RemoteCommand::Apply(
                    ControlState::Running,
                    TransferEvent::Resumed { transfer_id: to_string(transfer_id) },
                )
            } else {
                RemoteCommand::Ignore
            }
        },
        ControlMessage::Cancel { transfer_id: id } => {
            if crate::text::str_eq(id.as_str(), transfer_id) {
                RemoteCommand::Cancel
            } else {
                RemoteCommand::Ignore
            }
        },
        ControlMessage::Bye => RemoteCommand::Stop,
        _ => RemoteCommand::Ignore,
    }
}

/// The command frame that tells the receiver about a local state.
pub fn command_for(state: ControlState, transfer_id: &str) -> (r: ControlMessage)
    ensures
        match state {
            ControlState::Paused => r matches ControlMessage::Pause { transfer_id: t } && t@
                == transfer_id@,
            ControlState::Running => r matches ControlMessage::Resume { transfer_id: t } && t@
                == transfer_id@,
            ControlState::Cancelled => r matches ControlMessage::Cancel { transfer_id: t } && t@
                == transfer_id@,
        },
{
    let t = to_string(transfer_id);
    match state {
        ControlState::Paused => ControlMessage::Pause { transfer_id: t },
        ControlState::Running => ControlMessage::Resume { transfer_id: t },
        ControlState::Cancelled => ControlMessage::Cancel { transfer_id: t },
    }
}

/// The frame that brings the receiver in line with the local state, if it
/// differs from the last state sent (`synced`; the receiver starts at `Running`).
pub fn sync_command(synced: ControlState, local: ControlState, transfer_id: &str) -> (r: Option<
    ControlMessage,
>)
    ensures
        local == synced ==> r is None,
        local != synced ==> (r matches Some(m) && (match local {
            ControlState::Paused => m matches ControlMessage::Pause { transfer_id: t } && t@
                == transfer_id@,
            ControlState::Running => m matches ControlMessage::Resume { transfer_id: t } && t@
                == transfer_id@,
            ControlState::Cancelled => m matches ControlMessage::Cancel { transfer_id: t } && t@
                == transfer_id@,
        })),
{
    if local == synced {
        None
    } else {
        Some(command_for(local, transfer_id))
    }
}

/// The frames that close the control session when the data phase stops: a
/// cancellation that was not sent yet (so the receiver does not take it for
/// a resumable disconnect), then `Bye`.
pub fn farewell(synced: ControlState, last: ControlState, transfer_id: &str) -> (r: Vec<
    ControlMessage,
>)
    ensures
        last == ControlState::Cancelled && synced != last ==> r@.len() == 2 && (r@[0] matches ControlMessage::Cancel {
            transfer_id: t,
        } && t@ == transfer_id@) && r@[1] is Bye,
        !(last == ControlState::Cancelled && synced != last) ==> r@.len() == 1 && r@[0] is Bye,
{
    let mut v: Vec<ControlMessage> = Vec::new();
    if last == ControlState::Cancelled && synced != last {
        v.push(ControlMessage::Cancel { transfer_id: to_string(transfer_id) });
    }
    v.push(ControlMessage::Bye);
    v
}

/// The event that ends a send: completion, cancellation or interruption.
pub fn send_result_event(transfer_id: String, result: &Result<(), TransferError>) -> (r:
    TransferEvent)
    ensures
        match *result {
            Ok(()) => r matches TransferEvent::Completed { transfer_id: t } && t@ == transfer_id@,
            Err(e) => (e is Cancelled ==> (r matches TransferEvent::Cancelled { transfer_id: t }
                && t@ == transfer_id@)) && (!(e is Cancelled) ==> (r matches TransferEvent::Interrupted {
                transfer_id: t,
                reason,
                code,
                detail,
            } && t@ == transfer_id@ && reason@ == super::message_of(e) && code == super::code_of(e)
                && opt_view(detail) == super::detail_of(e))),
        },
{
    match result {
        Ok(()) => TransferEvent::Completed { transfer_id },
        Err(e) => super::ended_event(transfer_id, e),
    }
}

} // verus!
