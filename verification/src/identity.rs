//! Device identity: who this device is and how it proves it.
//!
//! The network identity is the lowercase hexadecimal BLAKE3 digest of the
//! device's self-signed certificate; MAC addresses are not used. The display
//! name defaults to the hostname. Creating and storing the certificate is the
//! job of the program that owns the data directory; this module derives
//! everything else from the stored material.

use vstd::prelude::*;

use crate::protocol::PeerInfo;
use crate::text::{hex_lower, hex_of, is_ascii_hex, strings_view, to_string};

verus! {

/// The 32-byte BLAKE3 digest of `data`.
pub uninterp spec fn blake3_digest(data: Seq<u8>) -> Seq<u8>;

/// Computes the BLAKE3 digest of `data`.
///
/// Trusted: calls `blake3::hash` and returns the 32 bytes of the `Hash`;
/// the digest is a function of `data` alone.
#[verifier::external_body]
fn blake3_hash(data: &[u8]) -> (d: [u8; 32])
    ensures
        d@ == blake3_digest(data@),
{
    *blake3::hash(data).as_bytes()
}

/// The lowercase hexadecimal BLAKE3 digest of `data`, as in `blake3::Hash::to_hex`.
pub open spec fn blake3_hex_spec(data: Seq<u8>) -> Seq<char> {
    hex_of(blake3_digest(data))
}

/// Returns the lowercase hexadecimal BLAKE3 digest of `data` (64 characters).
pub fn blake3_hex(data: &[u8]) -> (r: String)
    ensures
        r@ == blake3_hex_spec(data@),
        r@.len() == 64,
        is_safe_hash_spec(r@),
{
    let d = blake3_hash(data);
    proof {
        lemma_hex_of_is_hex(d@);
    }
    hex_lower(&d)
}

#[verifier::external_type_specification]
#[verifier::external_body]
pub struct ExHasher(blake3::Hasher);

/// The bytes a BLAKE3 hasher has been fed, in order.
pub uninterp spec fn hasher_input(h: blake3::Hasher) -> Seq<u8>;

/// A hasher that has been fed nothing.
///
/// Trusted: `blake3::Hasher::new`.
#[verifier::external_body]
fn hasher_new() -> (h: blake3::Hasher)
    ensures
        hasher_input(h) == Seq::<u8>::empty(),
{
    blake3::Hasher::new()
}

/// Feeds `data` to the hasher.
///
/// Trusted: `blake3::Hasher::update`, which appends to the input.
#[verifier::external_body]
fn hasher_update(h: &mut blake3::Hasher, data: &[u8])
    ensures
        hasher_input(*final(h)) == hasher_input(*old(h)) + data@,
{
    h.update(data);
}

/// The digest of everything fed so far.
///
/// Trusted: `blake3::Hasher::finalize`, whose documentation shows that the
/// digest of input fed in pieces equals `blake3::hash` of the whole input.
#[verifier::external_body]
fn hasher_finalize(h: &blake3::Hasher) -> (d: [u8; 32])
    ensures
        d@ == blake3_digest(hasher_input(*h)),
{
    *h.finalize().as_bytes()
}

/// A BLAKE3 hash computed over a stream, piece by piece: the whole-file
/// hash of a transfer, including a resumed prefix replayed from disk.
pub struct StreamHash {
    hasher: blake3::Hasher,
}

impl View for StreamHash {
    type V = Seq<u8>;

    /// The bytes hashed so far.
    closed spec fn view(&self) -> Seq<u8> {
        hasher_input(self.hasher)
    }
}

impl StreamHash {
    /// A hash of nothing yet.
    pub fn new() -> (r: StreamHash)
        ensures
            r@ == Seq::<u8>::empty(),
    {
        StreamHash { hasher: hasher_new() }
    }

    /// Appends `data` to the hashed bytes.
    pub fn update(&mut self, data: &[u8])
        ensures
            final(self)@ == old(self)@ + data@,
    {
        hasher_update(&mut self.hasher, data);
    }

    /// The lowercase hexadecimal digest of all bytes hashed so far: the same
    /// text as [`blake3_hex`] of those bytes at once.
    pub fn hex(&self) -> (r: String)
        ensures
            r@ == blake3_hex_spec(self@),
            r@.len() == 64,
    {
        let d = hasher_finalize(&self.hasher);
        proof {
            lemma_hex_of_is_hex(d@);
        }
        hex_lower(&d)
    }
}

/// Calculates the certificate fingerprint, the lowercase hexadecimal
/// `BLAKE3(cert_der)` of the DER-encoded certificate.
///
/// Every fingerprint is a safe hash: 64 hexadecimal digits.
pub fn fingerprint_of(cert_der: &[u8]) -> (r: String)
    ensures
        r@ == blake3_hex_spec(cert_der@),
        r@.len() == 64,
        is_safe_hash_spec(r@),
{
    blake3_hex(cert_der)
}

/// A hash that is safe to use in a file name: 1 to 64 ASCII hexadecimal digits.
pub open spec fn is_safe_hash_spec(h: Seq<char>) -> bool {
    h.len() > 0 && h.len() <= 64 && forall|i: int| 0 <= i < h.len() ==> is_ascii_hex(#[trigger] h[i])
}

/// Validates an avatar hash before it is used in a cache file name.
pub fn is_safe_hash(hash: &str) -> (r: bool)
    ensures
        r == is_safe_hash_spec(hash@),
{
    let n = hash.unicode_len();
    if n == 0 || n > 64 {
        return false;
    }
    let mut i: usize = 0;
    while i < n
        invariant
            n == hash@.len(),
            i <= n,
            forall|j: int| 0 <= j < i ==> is_ascii_hex(#[trigger] hash@[j]),
        decreases n - i,
    {
        let c = hash.get_char(i);
        if !(('0' <= c && c <= '9') || ('a' <= c && c <= 'f') || ('A' <= c && c <= 'F')) {
            return false;
        }
        i = i + 1;
    }
    true
}

proof fn lemma_hex_of_is_hex(bytes: Seq<u8>)
    ensures
        forall|i: int| 0 <= i < hex_of(bytes).len() ==> is_ascii_hex(#[trigger] hex_of(bytes)[i]),
        hex_of(bytes).len() == 2 * bytes.len(),
    decreases bytes.len(),
{
    if bytes.len() > 0 {
        lemma_hex_of_is_hex(bytes.drop_last());
        let prev = hex_of(bytes.drop_last());
        let b = bytes.last();
        assert forall|i: int| 0 <= i < hex_of(bytes).len() implies is_ascii_hex(
            #[trigger] hex_of(bytes)[i],
        ) by {
            if i < prev.len() {
                assert(hex_of(bytes)[i] == prev[i]);
            }
        }
    }
}


/// Device identity: unique identifiers and TLS certificate material.
pub struct DeviceIdentity {
    /// Unique device ID generated as a UUID v4 on first launch.
    pub device_id: String,
    /// Public display name, user-editable and defaulting to the hostname.
    pub display_name: String,
    /// Built-in emoji avatar or `img:<hash>`, injected by the application at runtime.
    pub avatar: Option<String>,
    /// Lowercase hexadecimal BLAKE3 certificate fingerprint used as the network identity.
    pub fingerprint: String,
    /// DER-encoded self-signed certificate presented during the TLS handshake.
    pub cert_der: Vec<u8>,
    /// Local platform identifier: `macos`, `windows`, or `linux`.
    pub platform: String,
    /// Local operating-system version, for example `"macOS 15.3.1"`.
    pub os_version: String,
    /// DER-encoded PKCS#8 private key; TLS configuration takes a copy from [`Self::key_der`].
    pub key_der: Vec<u8>,
}

impl DeviceIdentity {
    /// Builds an identity from stored material; the fingerprint is derived here.
    pub fn from_parts(
        device_id: String,
        display_name: String,
        cert_der: Vec<u8>,
        key_der: Vec<u8>,
        platform: String,
        os_version: String,
    ) -> (r: DeviceIdentity)
        ensures
            r.device_id@ == device_id@,
            r.display_name@ == display_name@,
            r.avatar is None,
            r.fingerprint@ == blake3_hex_spec(cert_der@),
            r.cert_der@ == cert_der@,
            r.key_der@ == key_der@,
            r.platform@ == platform@,
            r.os_version@ == os_version@,
    {
        let fingerprint = fingerprint_of(&cert_der);
        DeviceIdentity {
            device_id,
            display_name,
            avatar: None,
            fingerprint,
            cert_der,
            platform,
            os_version,
            key_der,
        }
    }

    /// Returns a copy of the private key, because TLS configuration takes ownership.
    pub fn key_der(&self) -> (r: Vec<u8>)
        ensures
            r@ == self.key_der@,
    {
        self.key_der.clone()
    }

    /// Builds the device information exchanged during handshakes and discovery.
    pub fn peer_info(&self) -> (r: PeerInfo)
        ensures
            r.device_id@ == self.device_id@,
            r.name@ == self.display_name@,
            r.fingerprint@ == self.fingerprint@,
            r.platform@ == self.platform@,
            crate::protocol::opt_view(r.avatar) == crate::protocol::opt_view(self.avatar),
            r.os_version matches Some(v) && v@ == self.os_version@,
    {
        PeerInfo {
            device_id: self.device_id.clone(),
            name: self.display_name.clone(),
            fingerprint: self.fingerprint.clone(),
            platform: self.platform.clone(),
            avatar: crate::protocol::clone_opt(&self.avatar),
            os_version: Some(self.os_version.clone()),
        }
    }
}

/// The display name used when none is configured: the hostname when it is
/// known and valid Unicode, else `"deskmate"`.
pub fn display_name_from(hostname: Option<String>) -> (r: String)
    ensures
        hostname matches Some(h) ==> r@ == h@,
        hostname is None ==> r@ == "deskmate"@,
{
    match hostname {
        Some(h) => h,
        None => to_string("deskmate"),
    }
}

/// The machine's host name, when it is valid Unicode.
///
/// Trusted: `hostname::get`, converted with `OsString::into_string`; the
/// value depends on the machine and is not stated.
#[verifier::external_body]
fn host_name() -> (r: Option<String>) {
    hostname::get().ok().and_then(|h| h.into_string().ok())
}

/// `name` is the display name that host name `h` gives: the host name
/// itself, or `"deskmate"` without one.
pub open spec fn display_name_for(name: Seq<char>, h: Option<String>) -> bool {
    match h {
        Some(n) => name == n@,
        None => name == "deskmate"@,
    }
}

/// The display name used when none is configured: the host name, else
/// `"deskmate"`. The host name is the machine's; whatever it is, the name is
/// that host name or, without one, `"deskmate"`.
pub fn default_display_name() -> (r: String)
    ensures
        exists|h: Option<String>| #[trigger] display_name_for(r@, h),
{
    let h = host_name();
    let ghost hv = h;
    let r = display_name_from(h);
    assert(display_name_for(r@, hv));
    r
}

/// Whether `s` has the form of a hyphenated lowercase UUID: 36 characters,
/// `-` at positions 8, 13, 18 and 23, lowercase hexadecimal digits elsewhere.
pub open spec fn is_uuid_text(s: Seq<char>) -> bool {
    &&& s.len() == 36
    &&& forall|i: int|
        0 <= i < 36 ==> if i == 8 || i == 13 || i == 18 || i == 23 {
            #[trigger] s[i] == '-'
        } else {
            ('0' <= s[i] && s[i] <= '9') || ('a' <= s[i] && s[i] <= 'f')
        }
}

/// A fresh random (version 4) UUID in its hyphenated lowercase form.
///
/// Trusted: `uuid::Uuid::new_v4` formatted with `Display`, which the crate
/// writes as the hyphenated lowercase form; the value itself is random.
#[verifier::external_body]
fn new_uuid() -> (r: String)
    ensures
        is_uuid_text(r@),
{
    uuid::Uuid::new_v4().to_string()
}

/// UUID text is a safe transfer ID: short, and only letters, digits and `-`.
pub proof fn uuid_is_safe_transfer_id(s: Seq<char>)
    requires
        is_uuid_text(s),
    ensures
        crate::transfer::receiver::is_safe_transfer_id_spec(s),
{
    assert forall|i: int| 0 <= i < s.len() implies crate::transfer::receiver::id_char(
        #[trigger] s[i],
    ) by {
        if i == 8 || i == 13 || i == 18 || i == 23 {
        } else {
        }
    }
}

/// A fresh random ID for a transfer task: a hyphenated lowercase UUID,
/// which the receiver accepts as a task ID and may use in file names.
pub fn new_transfer_id() -> (r: String)
    ensures
        is_uuid_text(r@),
        crate::transfer::receiver::is_safe_transfer_id_spec(r@),
{
    let id = new_uuid();
    proof {
        uuid_is_safe_transfer_id(id@);
    }
    id
}

/// Identity layer errors.
#[derive(Debug)]
pub enum IdentityError {
    /// Reading or writing identity files failed; holds the error text.
    Io(String),
    /// Generating the certificate failed; holds the error text.
    CertGen(String),
    /// Parsing identity metadata failed; holds the error text.
    Meta(String),
}

impl IdentityError {
    /// The text shown for this error.
    pub fn message(&self) -> (r: String)
        ensures
            r@ == match *self {
                IdentityError::Io(t) => "failed to read or write identity files: "@ + t@,
                IdentityError::CertGen(t) => "failed to generate certificate: "@ + t@,
                IdentityError::Meta(t) => "failed to parse identity metadata: "@ + t@,
            },
    {
        let (head, t) = match self {
            IdentityError::Io(t) => ("failed to read or write identity files: ", t),
            IdentityError::CertGen(t) => ("failed to generate certificate: ", t),
            IdentityError::Meta(t) => ("failed to parse identity metadata: ", t),
        };
        let mut s = to_string(head);
        crate::text::push_str(&mut s, t.as_str());
        s
    }
}

#[verifier::external_type_specification]
#[verifier::external_body]
pub struct ExKeyPair(rcgen::KeyPair);

#[verifier::external_type_specification]
#[verifier::external_body]
pub struct ExRcgenError(rcgen::Error);

#[verifier::external_type_specification]
#[verifier::external_body]
pub struct ExOsInfo(os_info::Info);

/// Generates a key pair with the default algorithm.
///
/// Trusted: `rcgen::KeyPair::generate`; the key is random, and whether
/// generation can fail is not stated.
#[verifier::external_body]
fn generate_key_pair() -> (r: Result<rcgen::KeyPair, rcgen::Error>) {
    rcgen::KeyPair::generate()
}

/// The subject alternative name of every certificate this library makes.
pub const CERT_NAME: &'static str = "deskmate";

/// The certificate `cert` (DER) carries the public half of the private key
/// `key` (PKCS#8 DER) and is signed with it.
pub uninterp spec fn cert_matches_key(cert: Seq<u8>, key: Seq<u8>) -> bool;

/// The certificate `cert` (DER) was made from parameters whose subject
/// alternative names are `names`, in order.
pub uninterp spec fn cert_for_names(cert: Seq<u8>, names: Seq<Seq<char>>) -> bool;

/// The DER encoding of a certificate for the subject alternative names
/// `names`, self-signed with the private key whose PKCS#8 DER is `key_der`.
///
/// Trusted: `rcgen::CertificateParams::new` on `names`, `rcgen::KeyPair`'s
/// `TryFrom<&[u8]>` on `key_der`, `CertificateParams::self_signed` with that
/// key, and the certificate's DER bytes. What is claimed: on success the
/// certificate was made from `names` and carries and is signed by that key.
/// Signatures may be randomized, so the bytes themselves are not stated, nor
/// when a name or a key is refused.
#[verifier::external_body]
fn self_signed_der(names: Vec<String>, key_der: &[u8]) -> (r: Result<Vec<u8>, rcgen::Error>)
    ensures
        r matches Ok(c) ==> cert_matches_key(c@, key_der@) && cert_for_names(
            c@,
            strings_view(names@),
        ),
{
    let params = rcgen::CertificateParams::new(names)?;
    let key = rcgen::KeyPair::try_from(key_der)?;
    params.self_signed(&key).map(|c| c.der().to_vec())
}

/// The PKCS#8 DER encoding of a key pair.
///
/// Trusted: `rcgen::KeyPair::serialize_der`; nothing is stated of the bytes.
#[verifier::external_body]
fn key_pair_der(key: &rcgen::KeyPair) -> (r: Vec<u8>) {
    key.serialize_der()
}

/// The text of a certificate generation error.
///
/// Trusted: `rcgen::Error`'s `Display`; the text is not stated.
#[verifier::external_body]
fn rcgen_error_text(e: &rcgen::Error) -> (r: String) {
    e.to_string()
}

/// Information about the running operating system.
///
/// Trusted: `os_info::get`; it depends on the machine and is not stated.
#[verifier::external_body]
fn os_info_get() -> (r: os_info::Info) {
    os_info::get()
}

/// Whether the operating system is macOS.
///
/// Trusted: `os_info::Info::os_type` compared with `os_info::Type::Macos`.
#[verifier::external_body]
fn os_is_macos(info: &os_info::Info) -> (r: bool) {
    matches!(info.os_type(), os_info::Type::Macos)
}

/// The operating system's type name.
///
/// Trusted: `os_info::Info::os_type` formatted with `Display`; not stated.
#[verifier::external_body]
fn os_os_name(info: &os_info::Info) -> (r: String) {
    info.os_type().to_string()
}

/// The operating system's version text.
///
/// Trusted: `os_info::Info::version` formatted with `Display`; not stated.
#[verifier::external_body]
fn os_version_text(info: &os_info::Info) -> (r: String) {
    info.version().to_string()
}

/// An operating-system label: its name, a space, and its version, with
/// macOS spelled the way Apple spells it.
pub fn os_label(is_macos: bool, os_name: &str, version: &str) -> (r: String)
    ensures
        r@ == (if is_macos {
            "macOS"@
        } else {
            os_name@
        }) + seq![' '] + version@,
{
    let mut s = if is_macos {
        to_string("macOS")
    } else {
        to_string(os_name)
    };
    crate::text::push_char(&mut s, ' ');
    crate::text::push_str(&mut s, version);
    s
}

/// The local operating-system version, for example `"macOS 15.3.1"`: the
/// system's name and version, separated by a space, so never empty.
pub fn os_version() -> (r: String)
    ensures
        r@.len() > 0,
{
    let info = os_info_get();
    let name = os_os_name(&info);
    let version = os_version_text(&info);
    os_label(os_is_macos(&info), name.as_str(), version.as_str())
}

impl DeviceIdentity {
    /// Creates a new identity: a fresh UUID device ID, a self-signed
    /// certificate for [`CERT_NAME`] with its private key, and the default
    /// display name. The program stores the device ID, certificate and key.
    pub fn create(platform: String) -> (r: Result<DeviceIdentity, IdentityError>)
        ensures
            r matches Ok(id) ==> is_uuid_text(id.device_id@) && id.fingerprint@
                == blake3_hex_spec(id.cert_der@) && id.platform@ == platform@ && id.avatar
                is None,
            r matches Ok(id) ==> cert_matches_key(id.cert_der@, id.key_der@) && cert_for_names(
                id.cert_der@,
                seq![CERT_NAME@],
            ),
            r matches Ok(id) ==> exists|h: Option<String>|
                #[trigger] display_name_for(id.display_name@, h),
            r matches Err(e) ==> e is CertGen,
    {
        let key = match generate_key_pair() {
            Ok(k) => k,
            Err(e) => {
                return Err(IdentityError::CertGen(rcgen_error_text(&e)));
            },
        };
        let key_der = key_pair_der(&key);
        let names = vec![to_string(CERT_NAME)];
        assert(strings_view(names@) =~= seq![CERT_NAME@]);
        let cert_der = match self_signed_der(names, key_der.as_slice()) {
            Ok(d) => d,
            Err(e) => {
                return Err(IdentityError::CertGen(rcgen_error_text(&e)));
            },
        };
        let device_id = new_uuid();
        let name = default_display_name();
        Ok(
            DeviceIdentity::from_parts(
                device_id,
                name,
                cert_der,
                key_der,
                platform,
                os_version(),
            ),
        )
    }

    /// Rebuilds a stored identity; a stored display name of `None` follows
    /// the host name.
    pub fn load(
        device_id: String,
        display_name: Option<String>,
        cert_der: Vec<u8>,
        key_der: Vec<u8>,
        platform: String,
    ) -> (r: DeviceIdentity)
        ensures
            r.device_id@ == device_id@,
            display_name matches Some(n) ==> r.display_name@ == n@,
            r.fingerprint@ == blake3_hex_spec(cert_der@),
            r.cert_der@ == cert_der@,
            r.key_der@ == key_der@,
            r.platform@ == platform@,
            r.avatar is None,
    {
        let name = match display_name {
            Some(n) => n,
            None => default_display_name(),
        };
        DeviceIdentity::from_parts(device_id, name, cert_der, key_der, platform, os_version())
    }
}

} // verus!
