use base64::Engine as _;
use codex_plus_core::crypto::{content_hash, decrypt_content, derive_key, encrypt_content, hex_encode, new_device_id};
use codex_plus_core::error::SyncError;

#[test]
fn encrypt_round_trip_and_hash() {
    let payload = b"secret";
    let encrypted = encrypt_content("pass", payload).unwrap();
    assert_eq!(decrypt_content("pass", &encrypted).unwrap(), payload);
    assert_ne!(encrypted, base64::engine::general_purpose::STANDARD.encode(payload));
    assert_eq!(content_hash(payload).len(), 64);
}

#[test]
fn hex_encoding_is_lower_case_two_digits_per_byte() {
    assert_eq!(hex_encode(&[0xbe, 0xef, 0x00, 0x0a]), "beef000a");
    assert_eq!(hex_encode(&[]), "");
}

#[test]
fn content_hash_is_sha256_hex() {
    assert_eq!(content_hash(b""), "e3b0c44298fc1c149afbf4c8996fb92427ae41e4649b934ca495991b7852b855");
    assert_eq!(content_hash(b"abc"), "ba7816bf8f01cfea414140de5dae2223b00361a396177a9cb410ff61f20015ad");
}

#[test]
fn derived_key_depends_on_the_secret_only() {
    assert_eq!(derive_key("pass"), derive_key("pass"));
    assert_ne!(derive_key("pass"), derive_key("other"));
    assert_eq!(derive_key("pass").len(), 32);
}

#[test]
fn wrong_secret_fails_authentication() {
    let encrypted = encrypt_content("pass", b"payload").unwrap();
    assert_eq!(decrypt_content("wrong", &encrypted), Err(SyncError::DecryptionFailed));
}

#[test]
fn malformed_payloads_are_refused() {
    assert_eq!(decrypt_content("pass", "not base64!"), Err(SyncError::InvalidEncryptedPayload));
    assert_eq!(decrypt_content("pass", "AAAA"), Err(SyncError::EncryptedPayloadTooShort));
}

#[test]
fn encryption_is_randomized_but_both_decrypt() {
    let a = encrypt_content("pass", b"same").unwrap();
    let b = encrypt_content("pass", b"same").unwrap();
    assert_ne!(a, b);
    assert_eq!(decrypt_content("pass", &a).unwrap(), b"same");
    assert_eq!(decrypt_content("pass", &b).unwrap(), b"same");
}

#[test]
fn device_ids_are_hyphenated_uuids() {
    let id = new_device_id();
    assert_eq!(id.len(), 36);
    assert_ne!(id, new_device_id());
}
