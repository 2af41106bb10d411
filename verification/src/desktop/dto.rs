//! Values the desktop shell hands to its frontend: command errors and the
//! event and offer payloads, with the rules that build them from engine values.
//!
//! The program serializes copies of these types; the copies and their
//! conversions live with it.

use vstd::prelude::*;

use crate::discovery::addrs::{addr_text, addr_text_spec};
use crate::discovery::Peer;
use crate::protocol::{clone_opt, opt_view, FileMeta, PeerInfo};
use crate::text::to_string;
use crate::transfer::{code_of, detail_of, TransferError, TransferEvent};

verus! {

/// Structured command error, localized by the frontend from its `code`.
///
/// `detail` carries untranslated raw context such as I/O messages or paths.
#[derive(Debug)]
pub struct ErrDto {
    /// Stable error code matching the frontend's error table.
    pub code: &'static str,
    /// Detail parameter.
    pub detail: Option<String>,
}

impl ErrDto {
    /// Creates an error without details.
    pub fn new(code: &'static str) -> (r: ErrDto)
        ensures
            r.code == code,
            r.detail is None,
    {
        ErrDto { code, detail: None }
    }

    /// Creates an error with details.
    pub fn with(code: &'static str, detail: String) -> (r: ErrDto)
        ensures
            r.code == code,
            opt_view(r.detail) == Some(detail@),
    {
        ErrDto { code, detail: Some(detail) }
    }

    /// The error of a failed transfer: its stable code and its detail.
    pub fn of_transfer(e: &TransferError) -> (r: ErrDto)
        ensures
            r.code == code_of(*e),
            opt_view(r.detail) == detail_of(*e),
    {
        ErrDto { code: e.code(), detail: e.detail() }
    }

    /// The text of the error: the code, and the detail in parentheses.
    pub fn message(&self) -> (r: String)
        ensures
            r@ == match self.detail {
                Some(d) => self.code@ + " ("@ + d@ + ")"@,
                None => self.code@,
            },
    {
        let mut s = to_string(self.code);
        if let Some(d) = &self.detail {
            crate::text::push_str(&mut s, " (");
            crate::text::push_str(&mut s, d.as_str());
            crate::text::push_str(&mut s, ")");
        }
        s
    }
}

/// Peer information shown by the frontend.
#[derive(Debug)]
pub struct PeerDto {
    /// Device ID.
    pub device_id: String,
    /// Display name.
    pub name: String,
    /// Hexadecimal certificate fingerprint, also the frontend's peer key.
    pub fingerprint: String,
    /// Platform: macos, windows, or linux.
    pub platform: String,
    /// Candidate addresses for display.
    pub addrs: Vec<String>,
    /// TCP port.
    pub port: u16,
    /// Built-in emoji avatar; `None` uses the frontend's initial style.
    pub avatar: Option<String>,
    /// Operating-system version, or `None` for older peers.
    pub os_version: Option<String>,
}

impl PeerDto {
    /// The frontend's form of a discovered peer, its addresses as text.
    pub fn from_peer(p: &Peer) -> (r: PeerDto)
        ensures
            r.device_id@ == p.info.device_id@,
            r.name@ == p.info.name@,
            r.fingerprint@ == p.info.fingerprint@,
            r.platform@ == p.info.platform@,
            r.port == p.port,
            opt_view(r.avatar) == opt_view(p.info.avatar),
            opt_view(r.os_version) == opt_view(p.info.os_version),
            r.addrs@.len() == p.addrs@.len(),
            forall|k: int| 0 <= k < p.addrs@.len() ==> (#[trigger] r.addrs@[k])@ == addr_text_spec(p.addrs@[k]),
    {
        let mut addrs: Vec<String> = Vec::new();
        let mut i: usize = 0;
        while i < p.addrs.len()
            invariant
                i <= p.addrs.len(),
                addrs@.len() == i,
                forall|k: int| 0 <= k < i ==> (#[trigger] addrs@[k])@ == addr_text_spec(p.addrs@[k]),
            decreases p.addrs.len() - i,
        {
            addrs.push(addr_text(&p.addrs[i]));
            i = i + 1;
        }
        PeerDto {
            device_id: p.info.device_id.clone(),
            name: p.info.name.clone(),
            fingerprint: p.info.fingerprint.clone(),
            platform: p.info.platform.clone(),
            addrs,
            port: p.port,
            avatar: clone_opt(&p.info.avatar),
            os_version: clone_opt(&p.info.os_version),
        }
    }
}

/// Manifest file entry shown by the frontend.
#[derive(Debug)]
pub struct FileMetaDto {
    /// File ID.
    pub file_id: u32,
    /// Relative path.
    pub rel_path: String,
    /// Size in bytes.
    pub size: u64,
}

impl FileMetaDto {
    /// The frontend's form of a manifest entry.
    pub fn from_meta(f: &FileMeta) -> (r: FileMetaDto)
        ensures
            r.file_id == f.file_id,
            r.rel_path@ == f.rel_path@,
            r.size == f.size,
    {
        FileMetaDto { file_id: f.file_id, rel_path: f.rel_path.clone(), size: f.size }
    }
}

/// Transfer offer awaiting a frontend decision.
#[derive(Debug)]
pub struct OfferDto {
    /// Decision response ID used to answer the offer.
    pub offer_id: String,
    /// Transfer task ID.
    pub transfer_id: String,
    /// Sender name.
    pub peer_name: String,
    /// Sender fingerprint.
    pub peer_fingerprint: String,
    /// Sender platform.
    pub peer_platform: String,
    /// Sender emoji avatar.
    pub peer_avatar: Option<String>,
    /// File manifest.
    pub files: Vec<FileMetaDto>,
    /// Total bytes.
    pub total_size: u64,
}

impl OfferDto {
    /// The frontend's form of an incoming offer.
    pub fn new(
        offer_id: String,
        transfer_id: String,
        peer: &PeerInfo,
        files: &Vec<FileMeta>,
        total_size: u64,
    ) -> (r: OfferDto)
        ensures
            r.offer_id@ == offer_id@,
            r.transfer_id@ == transfer_id@,
            r.peer_name@ == peer.name@,
            r.peer_fingerprint@ == peer.fingerprint@,
            r.peer_platform@ == peer.platform@,
            opt_view(r.peer_avatar) == opt_view(peer.avatar),
            r.files@.len() == files@.len(),
            forall|k: int|
                0 <= k < files@.len() ==> (#[trigger] r.files@[k]).file_id == files@[k].file_id
                    && r.files@[k].rel_path@ == files@[k].rel_path@ && r.files@[k].size
                    == files@[k].size,
            r.total_size == total_size,
    {
        let mut v: Vec<FileMetaDto> = Vec::new();
        let mut i: usize = 0;
        while i < files.len()
            invariant
                i <= files.len(),
                v@.len() == i,
                forall|k: int|
                    0 <= k < i ==> (#[trigger] v@[k]).file_id == files@[k].file_id
                        && v@[k].rel_path@ == files@[k].rel_path@ && v@[k].size == files@[k].size,
            decreases files.len() - i,
        {
            v.push(FileMetaDto::from_meta(&files[i]));
            i = i + 1;
        }
        OfferDto {
            offer_id,
            transfer_id,
            peer_name: peer.name.clone(),
            peer_fingerprint: peer.fingerprint.clone(),
            peer_platform: peer.platform.clone(),
            peer_avatar: clone_opt(&peer.avatar),
            files: v,
            total_size,
        }
    }
}

/// Transfer lifecycle event for the frontend, told apart by its kind.
#[derive(Debug)]
#[allow(inconsistent_fields)]
pub enum TransferEventDto {
    /// Progress of one file.
    Progress { transfer_id: String, file_id: u32, rel_path: String, done: u64, size: u64 },
    /// One file completed; `inline_image` marks a received clipboard image.
    FileCompleted { transfer_id: String, file_id: u32, path: String, inline_image: bool },
    /// Transfer completed.
    Completed { transfer_id: String },
    /// Transfer cancelled and temporary files removed.
    Cancelled { transfer_id: String },
    /// Unexpected interruption keeping `.part` data.
    Interrupted { transfer_id: String, reason: String, code: String, detail: Option<String> },
    /// The peer paused the transfer.
    Paused { transfer_id: String },
    /// The peer resumed the transfer.
    Resumed { transfer_id: String },
    /// The send manifest was empty; no connection was attempted.
    Ignored { transfer_id: String },
    /// The peer rejected a send; `pin_required` marks a missing or wrong PIN.
    Rejected {
        transfer_id: String,
        reason: Option<String>,
        pin_required: bool,
        reason_code: Option<String>,
    },
    /// Text received.
    TextReceived { from_name: String, from_fingerprint: String, text: String },
}

impl TransferEventDto {
    /// The frontend's form of an engine event.
    pub fn from_event(ev: TransferEvent) -> (r: TransferEventDto)
        ensures
            match ev {
                TransferEvent::Progress { transfer_id, file_id, rel_path, done, size } => r matches TransferEventDto::Progress {
                    transfer_id: t,
                    file_id: f,
                    rel_path: p,
                    done: d,
                    size: s,
                } && t@ == transfer_id@ && f == file_id && p@ == rel_path@ && d == done && s == size,
                TransferEvent::FileCompleted { transfer_id, file_id, path, inline_image } => r matches TransferEventDto::FileCompleted {
                    transfer_id: t,
                    file_id: f,
                    path: p,
                    inline_image: i,
                } && t@ == transfer_id@ && f == file_id && p@ == path@ && i == inline_image,
                TransferEvent::Completed { transfer_id } => r matches TransferEventDto::Completed {
                    transfer_id: t,
                } && t@ == transfer_id@,
                TransferEvent::Cancelled { transfer_id } => r matches TransferEventDto::Cancelled {
                    transfer_id: t,
                } && t@ == transfer_id@,
                TransferEvent::Interrupted { transfer_id, reason, code, detail } => r matches TransferEventDto::Interrupted {
                    transfer_id: t,
                    reason: x,
                    code: c,
                    detail: d,
                } && t@ == transfer_id@ && x@ == reason@ && c@ == code@ && opt_view(d) == opt_view(
                    detail,
                ),
                TransferEvent::Paused { transfer_id } => r matches TransferEventDto::Paused {
                    transfer_id: t,
                } && t@ == transfer_id@,
                TransferEvent::Resumed { transfer_id } => r matches TransferEventDto::Resumed {
                    transfer_id: t,
                } && t@ == transfer_id@,
                TransferEvent::TextReceived { from, text } => r matches TransferEventDto::TextReceived {
                    from_name: n,
                    from_fingerprint: f,
                    text: x,
                } && n@ == from@.name && f@ == from@.fingerprint && x@ == text@,
            },
    {
        match ev {
            TransferEvent::Progress { transfer_id, file_id, rel_path, done, size } => {
                TransferEventDto::Progress { transfer_id, file_id, rel_path, done, size }
            },
            TransferEvent::FileCompleted { transfer_id, file_id, path, inline_image } => {
                TransferEventDto::FileCompleted { transfer_id, file_id, path, inline_image }
            },
            TransferEvent::Completed { transfer_id } => TransferEventDto::Completed { transfer_id },
            TransferEvent::Cancelled { transfer_id } => TransferEventDto::Cancelled { transfer_id },
            TransferEvent::Interrupted { transfer_id, reason, code, detail } => {
                TransferEventDto::Interrupted { transfer_id, reason, code: to_string(code), detail }
            },
            TransferEvent::Paused { transfer_id } => TransferEventDto::Paused { transfer_id },
            TransferEvent::Resumed { transfer_id } => TransferEventDto::Resumed { transfer_id },
            TransferEvent::TextReceived { from, text } => TransferEventDto::TextReceived {
                from_name: from.name,
                from_fingerprint: from.fingerprint,
                text,
            },
        }
    }
}

/// Local-device information shown by the frontend.
#[derive(Debug)]
pub struct SelfInfoDto {
    /// Display name.
    pub name: String,
    /// Device ID.
    pub device_id: String,
    /// Certificate fingerprint.
    pub fingerprint: String,
    /// Platform.
    pub platform: String,
    /// Actual listening port.
    pub port: u16,
    /// Current download directory.
    pub download_dir: String,
    /// Built-in emoji avatar.
    pub avatar: Option<String>,
}

/// Text-send result: whether the peer requires a pairing PIN.
#[derive(Debug)]
pub struct SendTextOutcome {
    /// Whether the send was rejected for a missing or incorrect PIN.
    pub pin_required: bool,
}

/// The outcome of a text send as the frontend sees it: a PIN rejection is
/// data, any other failure an error.
pub fn text_send_outcome(result: &Result<(), TransferError>) -> (r: Result<SendTextOutcome, ErrDto>)
    ensures
        match *result {
            Ok(()) => r matches Ok(o) && !o.pin_required,
            Err(e) => if e is PinRequired {
                r matches Ok(o) && o.pin_required
            } else {
                r matches Err(d) && d.code == code_of(e) && opt_view(d.detail) == detail_of(e)
            },
        },
{
    match result {
        Ok(()) => Ok(SendTextOutcome { pin_required: false }),
        Err(TransferError::PinRequired) => Ok(SendTextOutcome { pin_required: true }),
        Err(e) => Err(ErrDto::of_transfer(e)),
    }
}

/// Receive preflight result.
#[derive(Debug)]
pub struct PrecheckDto {
    /// Available bytes on the target disk; `None` skips the frontend's space check.
    pub free_bytes: Option<u64>,
    /// Relative paths that conflict with existing files in the target directory.
    pub conflicts: Vec<String>,
}

/// Interrupted send task with the parameters needed to resume it.
#[derive(Debug)]
pub struct InterruptedSend {
    /// Target peer fingerprint.
    pub fingerprint: String,
    /// Original source paths.
    pub paths: Vec<String>,
    /// Ignore-rule snapshot taken when sending, reused so that rule changes
    /// meanwhile cannot change the manifest.
    pub ignore_rules: String,
    /// Clipboard-image marker, kept so PIN retries still display inline.
    pub inline_image: bool,
}

} // verus!
