//! Transfer layer: the data model and rules of the file transfer engine.
//!
//! Data channels carry a `FileHeader`, the raw bytes, then a `FileFooter`
//! with the whole-file BLAKE3 digest. Pause, resume and cancel merge a local
//! and a remote control state. Explicit cancellation deletes `.part` files,
//! while an unexpected disconnect keeps them for resume.

use vstd::prelude::*;

use crate::protocol::{protocol_message, PeerInfo, ProtocolError};
use crate::text::{dec_digits, push_decimal, push_str, to_string};
use crate::tls::TlsError;

pub mod paths;
pub mod ignore_rules;
pub mod pending;
pub mod pin;
pub mod receiver;
pub mod sender;

verus! {

/// Temporary suffix for incomplete files.
pub const PART_SUFFIX: &'static str = ".deskmate.part";

/// Transfer layer errors.
#[derive(Debug)]
pub enum TransferError {
    /// Underlying I/O failure; holds the error text.
    Io(String),
    /// Protocol frame error.
    Protocol(ProtocolError),
    /// TLS configuration or handshake error.
    Tls(TlsError),
    /// Peer identity does not match its TLS certificate fingerprint.
    PeerMismatch,
    /// Relative path is unsafe because it is absolute, drive-qualified, or traverses upward.
    InvalidPath {
        /// Original path string.
        path: String,
    },
    /// Source file does not exist or cannot be read; holds the path.
    SourceNotFound(String),
    /// Peer rejected the transfer request.
    Rejected {
        /// Rejection text supplied by the peer.
        reason: Option<String>,
        /// Structured rejection code (protocol 1.4) for local UI rendering.
        reason_code: Option<String>,
    },
    /// File integrity verification failed.
    HashMismatch {
        /// Relative path.
        rel_path: String,
    },
    /// Transfer was explicitly cancelled.
    Cancelled,
    /// Timed out waiting for a handshake response or receiver decision; names the wait.
    Timeout(String),
    /// Data channel referenced an unknown or unaccepted file index.
    BadFileId(u32),
    /// Data channel referenced a transfer task that does not exist.
    UnknownTransfer(String),
    /// The same task already has an active data session.
    DuplicateDataSession(String),
    /// Resume is unavailable because peer metadata is missing or the source changed.
    ResumeUnavailable(String),
    /// Declared resume offset differs from the receiver's `.part` file length.
    ResumeOffsetMismatch {
        /// Offset declared by the sender.
        offset: u64,
        /// Current receiver `.part` file length.
        part_len: u64,
    },
    /// Peer avatar exceeds the protocol limit.
    AvatarTooLarge {
        /// Byte count declared by the peer.
        size: u64,
    },
    /// Peer requires a pairing PIN and the request omitted it or supplied the wrong value.
    PinRequired,
    /// Collection found no sendable files because sources were empty or ignored.
    NoValidFiles,
}

/// The stable code of an error, used by localized user interfaces.
pub open spec fn code_of(e: TransferError) -> &'static str {
    match e {
        TransferError::Io(_) => "io",
        TransferError::Protocol(_) => "protocol",
        TransferError::Tls(_) => "tls",
        TransferError::PeerMismatch => "peer_mismatch",
        TransferError::InvalidPath { .. } => "invalid_path",
        TransferError::SourceNotFound(_) => "source_not_found",
        TransferError::Rejected { .. } => "rejected",
        TransferError::HashMismatch { .. } => "hash_mismatch",
        TransferError::Cancelled => "cancelled",
        TransferError::Timeout(_) => "timeout",
        TransferError::BadFileId(_) => "bad_file_id",
        TransferError::UnknownTransfer(_) => "unknown_transfer",
        TransferError::DuplicateDataSession(_) => "duplicate_data_session",
        TransferError::ResumeUnavailable(_) => "resume_unavailable",
        TransferError::ResumeOffsetMismatch { .. } => "resume_offset_mismatch",
        TransferError::AvatarTooLarge { .. } => "avatar_too_large",
        TransferError::PinRequired => "pin_required",
        TransferError::NoValidFiles => "no_valid_files",
    }
}

/// The position of an error's variant in the declaration, counting from 0.
pub open spec fn error_variant_number(e: TransferError) -> int {
    match e {
        TransferError::Io(_) => 0,
        TransferError::Protocol(_) => 1,
        TransferError::Tls(_) => 2,
        TransferError::PeerMismatch => 3,
        TransferError::InvalidPath { .. } => 4,
        TransferError::SourceNotFound(_) => 5,
        TransferError::Rejected { .. } => 6,
        TransferError::HashMismatch { .. } => 7,
        TransferError::Cancelled => 8,
        TransferError::Timeout(_) => 9,
        TransferError::BadFileId(_) => 10,
        TransferError::UnknownTransfer(_) => 11,
        TransferError::DuplicateDataSession(_) => 12,
        TransferError::ResumeUnavailable(_) => 13,
        TransferError::ResumeOffsetMismatch { .. } => 14,
        TransferError::AvatarTooLarge { .. } => 15,
        TransferError::PinRequired => 16,
        TransferError::NoValidFiles => 17,
    }
}

/// Each kind of error has a code of its own: the code depends on the
/// variant alone, and two errors share a code exactly when they are of the
/// same variant.
pub proof fn error_codes_are_distinct(a: TransferError, b: TransferError)
    ensures
        code_of(a)@ == code_of(b)@ <==> error_variant_number(a) == error_variant_number(b),
{
    reveal_strlit("io");
    reveal_strlit("protocol");
    reveal_strlit("tls");
    reveal_strlit("peer_mismatch");
    reveal_strlit("invalid_path");
    reveal_strlit("source_not_found");
    reveal_strlit("rejected");
    reveal_strlit("hash_mismatch");
    reveal_strlit("cancelled");
    reveal_strlit("timeout");
    reveal_strlit("bad_file_id");
    reveal_strlit("unknown_transfer");
    reveal_strlit("duplicate_data_session");
    reveal_strlit("resume_unavailable");
    reveal_strlit("resume_offset_mismatch");
    reveal_strlit("avatar_too_large");
    reveal_strlit("pin_required");
    reveal_strlit("no_valid_files");
    let (x, y) = (code_of(a)@, code_of(b)@);
    if x == y {
        assert(x.len() == y.len());
        assert(x[0] == y[0]);
    }
}

/// The text of a TLS error.
pub open spec fn tls_message(e: TlsError) -> Seq<char> {
    match e {
        TlsError::Config(t) => "failed to build TLS configuration: "@ + t@,
    }
}

/// The untranslated detail appended to the localized message of an error.
pub open spec fn detail_of(e: TransferError) -> Option<Seq<char>> {
    match e {
        TransferError::Io(t) => Some("I/O error: "@ + t@),
        TransferError::Protocol(p) => Some(protocol_message(p)),
        TransferError::Tls(t) => Some(tls_message(t)),
        TransferError::InvalidPath { path } => Some(path@),
        TransferError::SourceNotFound(p) => Some(p@),
        TransferError::Rejected { reason, .. } => match reason {
            Some(r) => Some(r@),
            None => None,
        },
        TransferError::HashMismatch { rel_path } => Some(rel_path@),
        TransferError::Timeout(scene) => Some(scene@),
        TransferError::BadFileId(id) => Some(dec_digits(id as nat)),
        TransferError::UnknownTransfer(id) => Some(id@),
        TransferError::DuplicateDataSession(id) => Some(id@),
        TransferError::ResumeUnavailable(why) => Some(why@),
        TransferError::ResumeOffsetMismatch { offset, part_len } => Some(
            dec_digits(offset as nat) + " != "@ + dec_digits(part_len as nat),
        ),
        TransferError::AvatarTooLarge { size } => Some(dec_digits(size as nat)),
        _ => None,
    }
}

/// The text of an error as shown in logs and on the command line.
pub open spec fn message_of(e: TransferError) -> Seq<char> {
    match e {
        TransferError::Io(t) => "I/O error: "@ + t@,
        TransferError::Protocol(p) => protocol_message(p),
        TransferError::Tls(t) => tls_message(t),
        TransferError::PeerMismatch => "peer identity does not match its certificate fingerprint"@,
        TransferError::InvalidPath { path } => "unsafe file path: "@ + path@,
        TransferError::SourceNotFound(p) => "source file unavailable: "@ + p@,
        TransferError::Rejected { reason, .. } => "peer rejected transfer: "@ + match reason {
            Some(r) => r@,
            None => "no reason provided"@,
        },
        TransferError::HashMismatch { rel_path } => "file integrity check failed: "@ + rel_path@,
        TransferError::Cancelled => "transfer cancelled"@,
        TransferError::Timeout(scene) => "wait timed out: "@ + scene@,
        TransferError::BadFileId(id) => "invalid file index: "@ + dec_digits(id as nat),
        TransferError::UnknownTransfer(id) => "unknown transfer task: "@ + id@,
        TransferError::DuplicateDataSession(id) =>
            "transfer task already has an active data session: "@ + id@,
        TransferError::ResumeUnavailable(why) => "cannot resume transfer: "@ + why@,
        TransferError::ResumeOffsetMismatch { offset, part_len } =>
            "resume offset mismatch: declared "@ + dec_digits(offset as nat) + ", .part length "@
                + dec_digits(part_len as nat) + " bytes"@,
        TransferError::AvatarTooLarge { size } => "avatar exceeds size limit: "@ + dec_digits(
            size as nat,
        ) + " bytes"@,
        TransferError::PinRequired => "peer requires a pairing PIN"@,
        TransferError::NoValidFiles => "no files available to send"@,
    }
}

/// A string of the decimal rendering of `n`, prefixed by `head`.
fn with_number(head: &str, n: u64) -> (r: String)
    ensures
        r@ == head@ + dec_digits(n as nat),
{
    let mut s = to_string(head);
    push_decimal(&mut s, n);
    s
}

/// A string `head` followed by `tail`.
fn joined(head: &str, tail: &str) -> (r: String)
    ensures
        r@ == head@ + tail@,
{
    let mut s = to_string(head);
    push_str(&mut s, tail);
    s
}

impl TransferError {
    /// Stable error code used by localized UIs; [`TransferError::message`] serves logs.
    pub fn code(&self) -> (r: &'static str)
        ensures
            r == code_of(*self),
    {
        match self {
            TransferError::Io(_) => "io",
            TransferError::Protocol(_) => "protocol",
            TransferError::Tls(_) => "tls",
            TransferError::PeerMismatch => "peer_mismatch",
            TransferError::InvalidPath { .. } => "invalid_path",
            TransferError::SourceNotFound(_) => "source_not_found",
            TransferError::Rejected { .. } => "rejected",
            TransferError::HashMismatch { .. } => "hash_mismatch",
            TransferError::Cancelled => "cancelled",
            TransferError::Timeout(_) => "timeout",
            TransferError::BadFileId(_) => "bad_file_id",
            TransferError::UnknownTransfer(_) => "unknown_transfer",
            TransferError::DuplicateDataSession(_) => "duplicate_data_session",
            TransferError::ResumeUnavailable(_) => "resume_unavailable",
            TransferError::ResumeOffsetMismatch { .. } => "resume_offset_mismatch",
            TransferError::AvatarTooLarge { .. } => "avatar_too_large",
            TransferError::PinRequired => "pin_required",
            TransferError::NoValidFiles => "no_valid_files",
        }
    }

    /// Returns the optional detail appended to the localized primary message.
    ///
    /// Details are not translated: I/O and protocol errors keep their source
    /// language, while paths and numbers are language-neutral.
    pub fn detail(&self) -> (r: Option<String>)
        ensures
            crate::protocol::opt_view(r) == detail_of(*self),
    {
        match self {
            TransferError::Io(t) => Some(joined("I/O error: ", t.as_str())),
            TransferError::Protocol(p) => Some(p.message()),
            TransferError::Tls(t) => Some(t.message()),
            TransferError::InvalidPath { path } => Some(path.clone()),
            TransferError::SourceNotFound(p) => Some(p.clone()),
            TransferError::Rejected { reason, .. } => crate::protocol::clone_opt(reason),
            TransferError::HashMismatch { rel_path } => Some(rel_path.clone()),
            TransferError::Timeout(scene) => Some(scene.clone()),
            TransferError::BadFileId(id) => Some(crate::text::decimal(*id as u64)),
            TransferError::UnknownTransfer(id) => Some(id.clone()),
            TransferError::DuplicateDataSession(id) => Some(id.clone()),
            TransferError::ResumeUnavailable(why) => Some(why.clone()),
            TransferError::ResumeOffsetMismatch { offset, part_len } => {
                let mut s = crate::text::decimal(*offset);
                push_str(&mut s, " != ");
                push_decimal(&mut s, *part_len);
                Some(s)
            },
            TransferError::AvatarTooLarge { size } => Some(crate::text::decimal(*size)),
            _ => None,
        }
    }

    /// The text shown for this error in logs and on the command line.
    pub fn message(&self) -> (r: String)
        ensures
            r@ == message_of(*self),
    {
        match self {
            TransferError::Io(t) => joined("I/O error: ", t.as_str()),
            TransferError::Protocol(p) => p.message(),
            TransferError::Tls(t) => t.message(),
            TransferError::PeerMismatch => to_string(
                "peer identity does not match its certificate fingerprint",
            ),
            TransferError::InvalidPath { path } => joined("unsafe file path: ", path.as_str()),
            TransferError::SourceNotFound(p) => joined("source file unavailable: ", p.as_str()),
            TransferError::Rejected { reason, .. } => match reason {
                Some(r) => joined("peer rejected transfer: ", r.as_str()),
                None => joined("peer rejected transfer: ", "no reason provided"),
            },
            TransferError::HashMismatch { rel_path } => joined(
                "file integrity check failed: ",
                rel_path.as_str(),
            ),
            TransferError::Cancelled => to_string("transfer cancelled"),
            TransferError::Timeout(scene) => joined("wait timed out: ", scene.as_str()),
            TransferError::BadFileId(id) => with_number("invalid file index: ", *id as u64),
            TransferError::UnknownTransfer(id) => joined("unknown transfer task: ", id.as_str()),
            TransferError::DuplicateDataSession(id) => joined(
                "transfer task already has an active data session: ",
                id.as_str(),
            ),
            TransferError::ResumeUnavailable(why) => joined(
                "cannot resume transfer: ",
                why.as_str(),
            ),
            TransferError::ResumeOffsetMismatch { offset, part_len } => {
                let mut s = with_number("resume offset mismatch: declared ", *offset);
                push_str(&mut s, ", .part length ");
                push_decimal(&mut s, *part_len);
                push_str(&mut s, " bytes");
                s
            },
            TransferError::AvatarTooLarge { size } => {
                let mut s = with_number("avatar exceeds size limit: ", *size);
                push_str(&mut s, " bytes");
                s
            },
            TransferError::PinRequired => to_string("peer requires a pairing PIN"),
            TransferError::NoValidFiles => to_string("no files available to send"),
        }
    }
}

/// Filename conflict policy applied when the receiver finalizes a file.
///
/// "Ask every time" is a UI concept: the UI resolves the user's choice into
/// this enum before dispatch.
#[derive(Debug, Clone, Copy, PartialEq, Eq, Structural)]
pub enum ConflictPolicy {
    /// Renames automatically, for example `file.txt` to `file (1).txt`.
    Rename,
    /// Overwrites an existing file with the same name.
    Overwrite,
}

impl Default for ConflictPolicy {
    fn default() -> (r: ConflictPolicy)
        ensures
            r == ConflictPolicy::Rename,
    {
        ConflictPolicy::Rename
    }
}

/// Transfer control state, ordered by merge priority between local and remote state.
#[derive(Debug, Clone, Copy, PartialEq, Eq, Structural)]
pub enum ControlState {
    /// Normal transfer.
    Running,
    /// Paused and resumable.
    Paused,
    /// Terminal cancellation; the receiver deletes `.part` files.
    Cancelled,
}

/// The merge priority of a control state.
pub open spec fn rank(s: ControlState) -> int {
    match s {
        ControlState::Running => 0,
        ControlState::Paused => 1,
        ControlState::Cancelled => 2,
    }
}

/// The state of higher priority.
pub open spec fn merge_spec(a: ControlState, b: ControlState) -> ControlState {
    if rank(a) >= rank(b) { a } else { b }
}

impl ControlState {
    /// Merges a local and a remote state by taking the one of higher priority.
    pub fn merge(self, other: ControlState) -> (r: ControlState)
        ensures
            r == merge_spec(self, other),
    {
        match (self, other) {
            (ControlState::Cancelled, _) | (_, ControlState::Cancelled) => {
                ControlState::Cancelled
            },
            (ControlState::Paused, _) | (_, ControlState::Paused) => ControlState::Paused,
            _ => ControlState::Running,
        }
    }
}

/// Merging is commutative, associative and idempotent, `Running` changes
/// nothing, and `Cancelled` wins over everything: a cancellation on either
/// side can never be undone by the other side's state.
pub proof fn merge_is_a_join(a: ControlState, b: ControlState, c: ControlState)
    ensures
        merge_spec(a, b) == merge_spec(b, a),
        merge_spec(merge_spec(a, b), c) == merge_spec(a, merge_spec(b, c)),
        merge_spec(a, a) == a,
        merge_spec(a, ControlState::Running) == a,
        merge_spec(a, ControlState::Cancelled) == ControlState::Cancelled,
{
}

/// What a chunk loop does before its next chunk, given both control states.
///
/// `None` means paused: wait for either state to change and ask again.
/// `Some(Ok(()))` means go on; `Some(Err(Cancelled))` ends the transfer.
pub fn wait_outcome(local: ControlState, remote: ControlState) -> (r: Option<
    Result<(), TransferError>,
>)
    ensures
        merge_spec(local, remote) == ControlState::Running <==> r == Some(
            Ok::<(), TransferError>(()),
        ),
        merge_spec(local, remote) == ControlState::Paused <==> r is None,
        merge_spec(local, remote) == ControlState::Cancelled <==> (r matches Some(Err(e)) && e
            is Cancelled),
{
    match local.merge(remote) {
        ControlState::Running => Some(Ok(())),
        ControlState::Paused => None,
        ControlState::Cancelled => Some(Err(TransferError::Cancelled)),
    }
}

/// Whether a partial write may go on: within a chunk only cancellation stops it,
/// because the data already entered the hasher.
pub fn write_may_continue(local: ControlState, remote: ControlState) -> (r: bool)
    ensures
        r == (merge_spec(local, remote) != ControlState::Cancelled),
{
    local.merge(remote) != ControlState::Cancelled
}

/// Transfer event emitted from the engine to the UI or command line.
#[derive(Debug)]
pub enum TransferEvent {
    /// Per-file progress update that may be dropped because later updates supersede it.
    Progress {
        /// Transfer task ID.
        transfer_id: String,
        /// File index.
        file_id: u32,
        /// Relative path.
        rel_path: String,
        /// Completed bytes.
        done: u64,
        /// Total file size in bytes.
        size: u64,
    },
    /// One file completed; the path is the final destination on receive and the source on send.
    FileCompleted {
        /// Transfer task ID.
        transfer_id: String,
        /// File index.
        file_id: u32,
        /// File path.
        path: String,
        /// Peer-declared clipboard-image marker, meaningful only on the receive side.
        inline_image: bool,
    },
    /// Entire transfer task completed.
    Completed {
        /// Transfer task ID.
        transfer_id: String,
    },
    /// Transfer was explicitly cancelled and temporary files were deleted.
    Cancelled {
        /// Transfer task ID.
        transfer_id: String,
    },
    /// Unexpected interruption retaining `.part` files for resume.
    Interrupted {
        /// Transfer task ID.
        transfer_id: String,
        /// Formatted interruption reason for logs and the command line.
        reason: String,
        /// Stable code used by the UI for localization.
        code: &'static str,
        /// Untranslated error detail appended for display.
        detail: Option<String>,
    },
    /// Peer paused the transfer.
    Paused {
        /// Transfer task ID.
        transfer_id: String,
    },
    /// Peer resumed the transfer.
    Resumed {
        /// Transfer task ID.
        transfer_id: String,
    },
    /// Text received from a peer.
    TextReceived {
        /// Sender information.
        from: PeerInfo,
        /// Byte-exact text content.
        text: String,
    },
}

/// The event that reports a transfer ended by `err`: a cancellation is
/// reported as such, anything else as an interruption that keeps `.part` files.
pub fn ended_event(transfer_id: String, err: &TransferError) -> (r: TransferEvent)
    ensures
        err is Cancelled ==> (r matches TransferEvent::Cancelled { transfer_id: t } && t@
            == transfer_id@),
        !(err is Cancelled) ==> (r matches TransferEvent::Interrupted {
            transfer_id: t,
            reason,
            code,
            detail,
        } && t@ == transfer_id@ && reason@ == message_of(*err) && code == code_of(*err)
            && crate::protocol::opt_view(detail) == detail_of(*err)),
{
    match err {
        TransferError::Cancelled => TransferEvent::Cancelled { transfer_id },
        _ => TransferEvent::Interrupted {
            transfer_id,
            reason: err.message(),
            code: err.code(),
            detail: err.detail(),
        },
    }
}

} // verus!
