//! Device identity: fingerprints, identifiers and certificate material.

use deskmate::identity::{
    blake3_hex, display_name_from, fingerprint_of, is_safe_hash, new_transfer_id, os_label, os_version, DeviceIdentity,
    IdentityError, StreamHash,
};

fn create() -> DeviceIdentity {
    DeviceIdentity::create("linux".into()).unwrap()
}

fn reload(a: &DeviceIdentity) -> DeviceIdentity {
    DeviceIdentity::load(
        a.device_id.clone(),
        Some(a.display_name.clone()),
        a.cert_der.clone(),
        a.key_der(),
        a.platform.clone(),
    )
}

#[test]
fn create_then_load_is_stable() {
    let a = create();
    let b = reload(&a);
    assert_eq!(a.device_id, b.device_id);
    assert_eq!(a.fingerprint, b.fingerprint);
    assert_eq!(a.display_name, b.display_name);
}

#[test]
fn fingerprint_is_hex64() {
    let id = create();
    assert_eq!(id.fingerprint.len(), 64);
    assert!(id.fingerprint.chars().all(|c| c.is_ascii_hexdigit() && !c.is_ascii_uppercase()));
    assert_eq!(id.fingerprint, blake3_hex(&id.cert_der));
}

#[test]
fn identities_are_unique() {
    let a = create();
    let b = create();
    assert_ne!(a.fingerprint, b.fingerprint);
    assert_ne!(a.device_id, b.device_id);
}

#[test]
fn os_version_is_detected() {
    let v = os_version();
    println!("detected os version: {v}");
    assert!(!v.trim().is_empty());
}

#[test]
fn created_identity_is_complete() {
    let id = create();
    assert!(!id.cert_der.is_empty());
    assert!(!id.key_der.is_empty());
    assert_eq!(id.platform, "linux");
    assert!(id.avatar.is_none());
    assert!(!id.display_name.is_empty());
    let info = id.peer_info();
    assert_eq!(info.device_id, id.device_id);
    assert_eq!(info.fingerprint, id.fingerprint);
    assert_eq!(info.os_version.as_deref(), Some(id.os_version.as_str()));
}

#[test]
fn blake3_known_digests() {
    assert_eq!(blake3_hex(b""), "af1349b9f5f9a1a6a0404dea36dcc9499bcb25c9adc112b7cc9a93cae41f3262");
    assert_eq!(fingerprint_of(b"abc"), "6437b3ac38465133ffb63b75273a8db548c558465d79db03fd359c6cd5bd9d85");
    assert_ne!(blake3_hex(b"a"), blake3_hex(b"b"));
}

#[test]
fn uuids_have_the_hyphenated_form() {
    let u = new_transfer_id();
    assert_eq!(u.len(), 36);
    for (i, c) in u.chars().enumerate() {
        if [8, 13, 18, 23].contains(&i) {
            assert_eq!(c, '-');
        } else {
            assert!(c.is_ascii_hexdigit() && !c.is_ascii_uppercase());
        }
    }
    assert_ne!(u, new_transfer_id());
    assert!(deskmate::transfer::receiver::is_safe_transfer_id(&u));
}

#[test]
fn hashes_safe_for_file_names() {
    assert!(is_safe_hash("0aF9"));
    assert!(is_safe_hash(&"f".repeat(64)));
    assert!(!is_safe_hash(&"f".repeat(65)));
    assert!(!is_safe_hash(""));
    assert!(!is_safe_hash("../etc"));
}

#[test]
fn names_labels_and_errors() {
    assert_eq!(display_name_from(Some("box".into())), "box");
    assert_eq!(display_name_from(None), "deskmate");
    assert_eq!(os_label(true, "Mac OS", "15.3.1"), "macOS 15.3.1");
    assert_eq!(os_label(false, "Ubuntu", "24.04"), "Ubuntu 24.04");
    assert_eq!(IdentityError::CertGen("x".into()).message(), "failed to generate certificate: x");
    assert_eq!(IdentityError::Io("y".into()).message(), "failed to read or write identity files: y");
}

#[test]
fn streamed_hash_equals_hash_of_the_whole() {
    let mut h = StreamHash::new();
    assert_eq!(h.hex(), blake3_hex(b""));
    h.update(b"foo");
    h.update(b"");
    h.update(b"barbaz");
    assert_eq!(h.hex(), blake3_hex(b"foobarbaz"));
    let big: Vec<u8> = (0..200_000u32).map(|i| (i % 251) as u8).collect();
    let mut h = StreamHash::new();
    for chunk in big.chunks(65_536) {
        h.update(chunk);
    }
    assert_eq!(h.hex(), blake3_hex(&big));
}

#[test]
fn created_certificate_carries_its_key_and_name() {
    let id = create();
    let key = rcgen::KeyPair::try_from(id.key_der().as_slice()).unwrap();
    let public = rcgen::PublicKeyData::der_bytes(&key).to_vec();
    assert!(!public.is_empty());
    assert!(id.cert_der.windows(public.len()).any(|w| w == public.as_slice()));
    assert!(id.cert_der.windows(8).any(|w| w == b"deskmate"));
    let other = create();
    assert!(!other.cert_der.windows(public.len()).any(|w| w == public.as_slice()));
}
