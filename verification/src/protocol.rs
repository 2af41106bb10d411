//! Session layer: the framed control-channel protocol.
//!
//! Frames are a four-byte big-endian length followed by a JSON body. Control
//! and data channels share one TCP port and are told apart by the first frame:
//! `Hello` starts a control session and `DataHello` starts a data stream.
//!
//! Transfer state machine:
//! ```text
//! Idle → Requested → Accepted | Rejected
//! Accepted → Transferring ⇄ Paused
//! Transferring → Completed
//!              | Cancelled   (explicit cancellation deletes temporary .part files)
//!              | Interrupted (unexpected disconnect retains .part files for resume)
//! ```
//!
//! The JSON body itself is produced and read by the program that owns the
//! sockets; this module frames bodies, checks their length, and holds the
//! message model and the version rule.

use vstd::prelude::*;

use crate::text::{dec_digits, push_decimal, push_str, to_string};
use crate::transfer::paths::first_dot;

verus! {

/// Maximum frame length of one MiB, so a malicious frame cannot exhaust memory.
pub const MAX_FRAME_LEN: u32 = 1048576;

/// Maximum avatar size of 256 KiB; a 128 by 128 JPEG is normally under 20 KiB.
pub const MAX_AVATAR_SIZE: u64 = 262144;

/// Protocol layer errors.
#[derive(Debug)]
pub enum ProtocolError {
    /// Underlying I/O failure, including peer disconnects; holds the error text.
    Io(String),
    /// Frame length exceeds [`MAX_FRAME_LEN`].
    FrameTooLarge(u32),
    /// JSON message encoding or decoding failed; holds the error text.
    Codec(String),
    /// Protocol major versions differ, so communication is rejected.
    VersionMismatch {
        /// Peer version.
        peer: String,
        /// Local version.
        local: String,
    },
    /// A message is invalid for the current session state.
    Unexpected {
        /// Expected message type.
        expected: String,
        /// Description of the received message.
        got: String,
    },
}

/// The display text of a protocol error.
pub open spec fn protocol_message(e: ProtocolError) -> Seq<char> {
    match e {
        ProtocolError::Io(t) => "I/O error: "@ + t@,
        ProtocolError::FrameTooLarge(n) => "frame length "@ + dec_digits(n as nat)
            + " bytes exceeds the 1048576-byte limit"@,
        ProtocolError::Codec(t) => "message codec error: "@ + t@,
        ProtocolError::VersionMismatch { peer, local } => "incompatible protocol versions: peer "@
            + peer@ + ", local "@ + local@,
        ProtocolError::Unexpected { expected, got } => "unexpected message: expected "@
            + expected@ + ", received "@ + got@,
    }
}

impl ProtocolError {
    /// The text shown for this error in logs and the command line.
    pub fn message(&self) -> (r: String)
        ensures
            r@ == protocol_message(*self),
    {
        let mut s = String::new();
        match self {
            ProtocolError::Io(t) => {
                push_str(&mut s, "I/O error: ");
                push_str(&mut s, t.as_str());
            },
            ProtocolError::FrameTooLarge(n) => {
                push_str(&mut s, "frame length ");
                push_decimal(&mut s, *n as u64);
                push_str(&mut s, " bytes exceeds the 1048576-byte limit");
            },
            ProtocolError::Codec(t) => {
                push_str(&mut s, "message codec error: ");
                push_str(&mut s, t.as_str());
            },
            ProtocolError::VersionMismatch { peer, local } => {
                push_str(&mut s, "incompatible protocol versions: peer ");
                push_str(&mut s, peer.as_str());
                push_str(&mut s, ", local ");
                push_str(&mut s, local.as_str());
            },
            ProtocolError::Unexpected { expected, got } => {
                push_str(&mut s, "unexpected message: expected ");
                push_str(&mut s, expected.as_str());
                push_str(&mut s, ", received ");
                push_str(&mut s, got.as_str());
            },
        }
        assert(s@ =~= protocol_message(*self));
        s
    }
}

/// Device information exchanged during the handshake.
#[derive(Debug)]
pub struct PeerInfo {
    /// Unique device ID (UUID).
    pub device_id: String,
    /// Display name.
    pub name: String,
    /// Hexadecimal BLAKE3 certificate fingerprint.
    pub fingerprint: String,
    /// Platform identifier: macos, windows, or linux.
    pub platform: String,
    /// Built-in emoji avatar or `img:<hash>`; absent for older peers.
    pub avatar: Option<String>,
    /// Operating-system version, for example `"macOS 15.3.1"`; added in protocol 1.3.
    pub os_version: Option<String>,
}

/// The contents of a [`PeerInfo`].
pub struct PeerInfoView {
    pub device_id: Seq<char>,
    pub name: Seq<char>,
    pub fingerprint: Seq<char>,
    pub platform: Seq<char>,
    pub avatar: Option<Seq<char>>,
    pub os_version: Option<Seq<char>>,
}

/// The characters of an optional string.
pub open spec fn opt_view(o: Option<String>) -> Option<Seq<char>> {
    match o {
        Some(s) => Some(s@),
        None => None,
    }
}

impl View for PeerInfo {
    type V = PeerInfoView;

    open spec fn view(&self) -> PeerInfoView {
        PeerInfoView {
            device_id: self.device_id@,
            name: self.name@,
            fingerprint: self.fingerprint@,
            platform: self.platform@,
            avatar: opt_view(self.avatar),
            os_version: opt_view(self.os_version),
        }
    }
}

/// A copy of an optional string.
pub fn clone_opt(o: &Option<String>) -> (r: Option<String>)
    ensures
        opt_view(r) == opt_view(*o),
{
    match o {
        Some(s) => Some(s.clone()),
        None => None,
    }
}

/// Two optional strings hold the same characters.
pub fn opt_eq(a: &Option<String>, b: &Option<String>) -> (r: bool)
    ensures
        r == (opt_view(*a) == opt_view(*b)),
{
    match (a, b) {
        (Some(x), Some(y)) => *x == *y,
        (None, None) => true,
        _ => false,
    }
}

impl PeerInfo {
    /// A copy of this information.
    pub fn duplicate(&self) -> (r: PeerInfo)
        ensures
            r@ == self@,
    {
        PeerInfo {
            device_id: self.device_id.clone(),
            name: self.name.clone(),
            fingerprint: self.fingerprint.clone(),
            platform: self.platform.clone(),
            avatar: clone_opt(&self.avatar),
            os_version: clone_opt(&self.os_version),
        }
    }

    /// Both hold the same information.
    pub fn same_as(&self, other: &PeerInfo) -> (r: bool)
        ensures
            r == (self@ == other@),
    {
        self.device_id == other.device_id && self.name == other.name && self.fingerprint
            == other.fingerprint && self.platform == other.platform && opt_eq(
            &self.avatar,
            &other.avatar,
        ) && opt_eq(&self.os_version, &other.os_version)
    }
}

/// File metadata in a `TransferRequest` manifest.
#[derive(Debug)]
pub struct FileMeta {
    /// File index within the transfer, used by the data channel.
    pub file_id: u32,
    /// Relative path using `/` separators; the receiver sanitizes it before joining.
    pub rel_path: String,
    /// File size in bytes.
    pub size: u64,
    /// Marks a clipboard screenshot that the receiver may show inline (protocol 1.5).
    pub inline_image: bool,
}

/// The contents of a [`FileMeta`].
pub struct FileMetaView {
    pub file_id: u32,
    pub rel_path: Seq<char>,
    pub size: u64,
    pub inline_image: bool,
}

impl View for FileMeta {
    type V = FileMetaView;

    open spec fn view(&self) -> FileMetaView {
        FileMetaView {
            file_id: self.file_id,
            rel_path: self.rel_path@,
            size: self.size,
            inline_image: self.inline_image,
        }
    }
}

/// The contents of a list of manifest entries.
pub open spec fn files_view(v: Seq<FileMeta>) -> Seq<FileMetaView> {
    v.map_values(|f: FileMeta| f@)
}

/// A copy of a manifest.
pub fn duplicate_files(v: &Vec<FileMeta>) -> (r: Vec<FileMeta>)
    ensures
        files_view(r@) == files_view(v@),
{
    let mut r: Vec<FileMeta> = Vec::new();
    let mut i: usize = 0;
    while i < v.len()
        invariant
            i <= v.len(),
            r@.len() == i,
            files_view(r@) == files_view(v@.take(i as int)),
        decreases v.len() - i,
    {
        let ghost before = r@;
        let d = v[i].duplicate();
        r.push(d);
        proof {
            assert forall|j: int| 0 <= j < i implies #[trigger] r@[j]@ == v@[j]@ by {
                assert(r@[j] == before[j]);
                assert(files_view(before)[j] == files_view(v@.take(i as int))[j]);
            }
        }
        i = i + 1;
        assert(files_view(r@) =~= files_view(v@.take(i as int)));
    }
    assert(v@.take(v.len() as int) =~= v@);
    r
}

impl FileMeta {
    /// A copy of this entry.
    pub fn duplicate(&self) -> (r: FileMeta)
        ensures
            r@ == self@,
            r.file_id == self.file_id,
            r.rel_path@ == self.rel_path@,
            r.size == self.size,
            r.inline_image == self.inline_image,
    {
        FileMeta {
            file_id: self.file_id,
            rel_path: self.rel_path.clone(),
            size: self.size,
            inline_image: self.inline_image,
        }
    }
}

/// Per-file resume state in a `ResumeInfo` manifest.
#[derive(Debug)]
pub struct ResumeFileState {
    /// File index retained from the original `TransferRequest`.
    pub file_id: u32,
    /// Relative path.
    pub rel_path: String,
    /// Total file size in bytes.
    pub size: u64,
    /// Bytes persisted by the receiver; resume starts at this offset.
    pub received: u64,
}

/// The contents of a [`ResumeFileState`].
pub struct ResumeFileStateView {
    pub file_id: u32,
    pub rel_path: Seq<char>,
    pub size: u64,
    pub received: u64,
}

impl View for ResumeFileState {
    type V = ResumeFileStateView;

    open spec fn view(&self) -> ResumeFileStateView {
        ResumeFileStateView {
            file_id: self.file_id,
            rel_path: self.rel_path@,
            size: self.size,
            received: self.received,
        }
    }
}

/// Control and data channel messages.
#[derive(Debug)]
#[allow(inconsistent_fields)]
pub enum ControlMessage {
    /// Control-session handshake from initiator to receiver.
    Hello { version: String, info: PeerInfo },
    /// Handshake response with receiver device information.
    HelloAck { version: String, info: PeerInfo },
    /// Transfer request containing only metadata while awaiting a decision.
    TransferRequest {
        transfer_id: String,
        files: Vec<FileMeta>,
        total_size: u64,
        pin: Option<String>,
    },
    /// Transfer response; an empty `accepted_files` list means rejection.
    TransferResponse {
        transfer_id: String,
        accepted_files: Vec<u32>,
        reason: Option<String>,
        pin_required: bool,
        reason_code: Option<String>,
    },
    /// Text delivered byte for byte without trimming or escaping.
    Text { text: String, pin: Option<String> },
    /// Text receipt acknowledgment.
    TextAck,
    /// Text rejection, currently used only for PIN failures.
    TextRejected { pin_required: bool },
    /// Pauses a transfer; either endpoint may initiate it.
    Pause { transfer_id: String },
    /// Resumes a transfer.
    Resume { transfer_id: String },
    /// Cancels a transfer; the receiver deletes temporary `.part` files.
    Cancel { transfer_id: String },
    /// First data-channel frame naming the transfer the connection carries.
    DataHello { transfer_id: String },
    /// Data-channel file header followed by `size - offset` raw bytes.
    FileHeader { file_id: u32, offset: u64 },
    /// Data-channel file footer with the whole-file BLAKE3 digest.
    FileFooter { file_id: u32, hash: String },
    /// Resume negotiation after an unexpected disconnect.
    ResumeQuery { transfer_id: String },
    /// Resume response listing received bytes for incomplete files.
    ResumeInfo { transfer_id: String, files: Vec<ResumeFileState> },
    /// Requests the peer's avatar.
    AvatarRequest,
    /// Avatar response followed by `size` raw bytes.
    AvatarResponse { hash: String, size: u64 },
    /// All data-channel files have been sent.
    DataDone,
    /// Gracefully closes the session.
    Bye,
}

/// The short type name of a message, as used in logs and errors.
pub open spec fn kind_name(m: ControlMessage) -> &'static str {
    match m {
        ControlMessage::Hello { .. } => "hello",
        ControlMessage::HelloAck { .. } => "hello_ack",
        ControlMessage::TransferRequest { .. } => "transfer_request",
        ControlMessage::TransferResponse { .. } => "transfer_response",
        ControlMessage::Text { .. } => "text",
        ControlMessage::TextAck => "text_ack",
        ControlMessage::TextRejected { .. } => "text_rejected",
        ControlMessage::Pause { .. } => "pause",
        ControlMessage::Resume { .. } => "resume",
        ControlMessage::Cancel { .. } => "cancel",
        ControlMessage::DataHello { .. } => "data_hello",
        ControlMessage::FileHeader { .. } => "file_header",
        ControlMessage::FileFooter { .. } => "file_footer",
        ControlMessage::ResumeQuery { .. } => "resume_query",
        ControlMessage::ResumeInfo { .. } => "resume_info",
        ControlMessage::AvatarRequest => "avatar_request",
        ControlMessage::AvatarResponse { .. } => "avatar_response",
        ControlMessage::DataDone => "data_done",
        ControlMessage::Bye => "bye",
    }
}

/// The position of a message's variant in the declaration, counting from 0.
pub open spec fn variant_number(m: ControlMessage) -> int {
    match m {
        ControlMessage::Hello { .. } => 0,
        ControlMessage::HelloAck { .. } => 1,
        ControlMessage::TransferRequest { .. } => 2,
        ControlMessage::TransferResponse { .. } => 3,
        ControlMessage::Text { .. } => 4,
        ControlMessage::TextAck => 5,
        ControlMessage::TextRejected { .. } => 6,
        ControlMessage::Pause { .. } => 7,
        ControlMessage::Resume { .. } => 8,
        ControlMessage::Cancel { .. } => 9,
        ControlMessage::DataHello { .. } => 10,
        ControlMessage::FileHeader { .. } => 11,
        ControlMessage::FileFooter { .. } => 12,
        ControlMessage::ResumeQuery { .. } => 13,
        ControlMessage::ResumeInfo { .. } => 14,
        ControlMessage::AvatarRequest => 15,
        ControlMessage::AvatarResponse { .. } => 16,
        ControlMessage::DataDone => 17,
        ControlMessage::Bye => 18,
    }
}

/// Each kind of control message has a name of its own: two messages share
/// a kind name exactly when they are of the same variant.
pub proof fn kind_names_are_distinct(a: ControlMessage, b: ControlMessage)
    ensures
        kind_name(a)@ == kind_name(b)@ <==> variant_number(a) == variant_number(b),
{
    reveal_strlit("hello");
    reveal_strlit("hello_ack");
    reveal_strlit("transfer_request");
    reveal_strlit("transfer_response");
    reveal_strlit("text");
    reveal_strlit("text_ack");
    reveal_strlit("text_rejected");
    reveal_strlit("pause");
    reveal_strlit("resume");
    reveal_strlit("cancel");
    reveal_strlit("data_hello");
    reveal_strlit("file_header");
    reveal_strlit("file_footer");
    reveal_strlit("resume_query");
    reveal_strlit("resume_info");
    reveal_strlit("avatar_request");
    reveal_strlit("avatar_response");
    reveal_strlit("data_done");
    reveal_strlit("bye");
    let (x, y) = (kind_name(a)@, kind_name(b)@);
    if x == y {
        assert(x.len() == y.len());
        assert(x[0] == y[0]);
        if x.len() == 11 {
            assert(x[5] == y[5]);
        }
    }
}

impl ControlMessage {
    /// Returns the short message type used in logs and errors.
    pub fn kind(&self) -> (r: &'static str)
        ensures
            r == kind_name(*self),
    {
        match self {
            ControlMessage::Hello { .. } => "hello",
            ControlMessage::HelloAck { .. } => "hello_ack",
            ControlMessage::TransferRequest { .. } => "transfer_request",
            ControlMessage::TransferResponse { .. } => "transfer_response",
            ControlMessage::Text { .. } => "text",
            ControlMessage::TextAck => "text_ack",
            ControlMessage::TextRejected { .. } => "text_rejected",
            ControlMessage::Pause { .. } => "pause",
            ControlMessage::Resume { .. } => "resume",
            ControlMessage::Cancel { .. } => "cancel",
            ControlMessage::DataHello { .. } => "data_hello",
            ControlMessage::FileHeader { .. } => "file_header",
            ControlMessage::FileFooter { .. } => "file_footer",
            ControlMessage::ResumeQuery { .. } => "resume_query",
            ControlMessage::ResumeInfo { .. } => "resume_info",
            ControlMessage::AvatarRequest => "avatar_request",
            ControlMessage::AvatarResponse { .. } => "avatar_response",
            ControlMessage::DataDone => "data_done",
            ControlMessage::Bye => "bye",
        }
    }
}

// ---------------------------------------------------------------------------
// Versions
// ---------------------------------------------------------------------------

/// The major component of a version string: everything before the first `.`.
pub open spec fn major_spec(v: Seq<char>) -> Seq<char> {
    v.take(first_dot(v) as int)
}

/// Returns the major component of a version string.
pub fn major_of(version: &str) -> (r: String)
    ensures
        r@ == major_spec(version@),
{
    let n = version.unicode_len();
    let mut out = String::new();
    let mut i: usize = 0;
    while i < n && version.get_char(i) != '.'
        invariant
            n == version@.len(),
            i <= n,
            out@ == version@.take(i as int),
            forall|j: int| 0 <= j < i ==> version@[j] != '.',
        decreases n - i,
    {
        crate::text::push_char(&mut out, version.get_char(i));
        i = i + 1;
        assert(out@ =~= version@.take(i as int));
    }
    proof {
        crate::transfer::paths::lemma_first_dot(version@);
        let f = first_dot(version@);
        if f < i {
            assert(version@[f as int] == '.');
        }
        if i < f {
            assert(version@[i as int] != '.');
        }
    }
    out
}

/// Accepts a peer protocol version when its major version matches the local one.
pub fn check_version(peer_version: &str) -> (r: Result<(), ProtocolError>)
    ensures
        r is Ok <==> major_spec(peer_version@) == major_spec(crate::PROTOCOL_VERSION@),
        r matches Err(e) ==> e matches ProtocolError::VersionMismatch { peer, local }
            && peer@ == peer_version@ && local@ == crate::PROTOCOL_VERSION@,
{
    let peer_major = major_of(peer_version);
    let local_major = major_of(crate::PROTOCOL_VERSION);
    if peer_major == local_major {
        Ok(())
    } else {
        Err(
            ProtocolError::VersionMismatch {
                peer: to_string(peer_version),
                local: to_string(crate::PROTOCOL_VERSION),
            },
        )
    }
}

// ---------------------------------------------------------------------------
// Frames
// ---------------------------------------------------------------------------

/// The big-endian bytes of a 32-bit length.
pub open spec fn be32(n: u32) -> Seq<u8> {
    seq![
        (n / 0x1000000) as u8,
        ((n / 0x10000) % 0x100) as u8,
        ((n / 0x100) % 0x100) as u8,
        (n % 0x100) as u8,
    ]
}

/// The 32-bit number whose big-endian bytes are `b`.
pub open spec fn from_be32(b: Seq<u8>) -> int {
    b[0] * 0x1000000 + b[1] * 0x10000 + b[2] * 0x100 + b[3]
}

/// The frame carrying `body`: its length in four big-endian bytes, then the body.
pub open spec fn frame_of(body: Seq<u8>) -> Seq<u8> {
    be32(body.len() as u32) + body
}

proof fn lemma_be32_roundtrip(n: u32)
    ensures
        from_be32(be32(n)) == n,
{
    let a = n / 0x1000000;
    let b = (n / 0x10000) % 0x100;
    let c = (n / 0x100) % 0x100;
    let d = n % 0x100;
    let nn = n as int;
    assert(a * 0x1000000 + b * 0x10000 + c * 0x100 + d == nn) by (nonlinear_arith)
        requires
            0 <= nn < 0x100000000,
            a == nn / 0x1000000,
            b == (nn / 0x10000) % 0x100,
            c == (nn / 0x100) % 0x100,
            d == nn % 0x100,
    ;
    assert(a < 0x100) by (nonlinear_arith)
        requires
            0 <= nn < 0x100000000,
            a == nn / 0x1000000,
    ;
}

/// Builds the frame for a message body, refusing bodies above [`MAX_FRAME_LEN`].
///
/// A body too long for a 32-bit length is reported as `FrameTooLarge(u32::MAX)`.
pub fn encode_frame(body: &[u8]) -> (r: Result<Vec<u8>, ProtocolError>)
    ensures
        body@.len() <= MAX_FRAME_LEN ==> (r matches Ok(v) && v@ == frame_of(body@)),
        body@.len() > MAX_FRAME_LEN ==> (r matches Err(ProtocolError::FrameTooLarge(n)) && n == (
        if body@.len() > u32::MAX {
            u32::MAX as int
        } else {
            body@.len() as int
        })),
{
    if body.len() > 4294967295usize {
        return Err(ProtocolError::FrameTooLarge(4294967295u32));
    }
    let len = body.len() as u32;
    if len > MAX_FRAME_LEN {
        return Err(ProtocolError::FrameTooLarge(len));
    }
    let mut v: Vec<u8> = Vec::new();
    v.push((len / 0x1000000) as u8);
    v.push(((len / 0x10000) % 0x100) as u8);
    v.push(((len / 0x100) % 0x100) as u8);
    v.push((len % 0x100) as u8);
    let mut i: usize = 0;
    while i < body.len()
        invariant
            i <= body@.len(),
            v@ == be32(len) + body@.take(i as int),
        decreases body.len() - i,
    {
        v.push(body[i]);
        i = i + 1;
        assert(v@ =~= be32(len) + body@.take(i as int));
    }
    assert(body@.take(body.len() as int) =~= body@);
    Ok(v)
}

/// Reads the body length from a frame header, refusing lengths above [`MAX_FRAME_LEN`]
/// before any of the body is read.
pub fn frame_len(header: &[u8; 4]) -> (r: Result<u32, ProtocolError>)
    ensures
        from_be32(header@) <= MAX_FRAME_LEN ==> (r matches Ok(n) && n == from_be32(header@)),
        from_be32(header@) > MAX_FRAME_LEN ==> (r matches Err(ProtocolError::FrameTooLarge(n))
            && n == from_be32(header@)),
{
    let n: u32 = (header[0] as u32) * 0x1000000 + (header[1] as u32) * 0x10000 + (header[2] as u32)
        * 0x100 + (header[3] as u32);
    if n > MAX_FRAME_LEN {
        Err(ProtocolError::FrameTooLarge(n))
    } else {
        Ok(n)
    }
}

/// Takes one frame from the front of `buf`.
///
/// Returns `Ok(None)` while the buffer does not yet hold a whole frame, and
/// `Ok(Some((body, used)))` with the number of bytes the frame occupied.
pub fn decode_frame(buf: &[u8]) -> (r: Result<Option<(Vec<u8>, usize)>, ProtocolError>)
    ensures
        buf@.len() < 4 ==> r matches Ok(None),
        buf@.len() >= 4 && from_be32(buf@.take(4)) > MAX_FRAME_LEN ==> (r matches Err(
            ProtocolError::FrameTooLarge(n),
        ) && n == from_be32(buf@.take(4))),
        buf@.len() >= 4 && from_be32(buf@.take(4)) <= MAX_FRAME_LEN ==> {
            let n = from_be32(buf@.take(4));
            if buf@.len() < 4 + n {
                r matches Ok(None)
            } else {
                r matches Ok(Some((body, used))) && used == 4 + n && body@ == buf@.subrange(
                    4,
                    4 + n,
                )
            }
        },
{
    if buf.len() < 4 {
        return Ok(None);
    }
    let header: [u8; 4] = [buf[0], buf[1], buf[2], buf[3]];
    assert(header@ =~= buf@.take(4));
    let n = frame_len(&header)?;
    let total = 4 + n as usize;
    if buf.len() < total {
        return Ok(None);
    }
    let mut body: Vec<u8> = Vec::new();
    let mut i: usize = 4;
    while i < total
        invariant
            4 <= i <= total,
            total <= buf@.len(),
            body@ == buf@.subrange(4, i as int),
        decreases total - i,
    {
        body.push(buf[i]);
        i = i + 1;
        assert(body@ =~= buf@.subrange(4, i as int));
    }
    Ok(Some((body, total)))
}

/// Frame round trip: a body within the size limit, framed and followed by
/// anything else, is decoded back to exactly that body, and the decoder
/// reports the frame's own length as consumed.
pub proof fn frame_roundtrip(body: Seq<u8>, rest: Seq<u8>)
    requires
        body.len() <= MAX_FRAME_LEN,
    ensures
        ({
            let buf = frame_of(body) + rest;
            &&& buf.len() >= 4
            &&& from_be32(buf.take(4)) == body.len()
            &&& buf.subrange(4, 4 + body.len() as int) == body
        }),
{
    let buf = frame_of(body) + rest;
    lemma_be32_roundtrip(body.len() as u32);
    assert(buf.take(4) =~= be32(body.len() as u32));
    assert(buf.subrange(4, 4 + body.len() as int) =~= body);
}

} // verus!
