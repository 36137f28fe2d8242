//! Digests, hex, the key derivation and the authenticated encryption of
//! synchronized file contents.

use vstd::prelude::*;
use vstd::string::StringSliceAdditionalSpecFns;
use vstd::utf8::encode_utf8;
use crate::error::SyncError;
use crate::text::{ascii_chars, ascii_string};
use aes_gcm::aead::{Aead, OsRng};
use aes_gcm::{AeadCore, Aes256Gcm, KeyInit};
use base64::Engine as _;
use sha2::Digest;

verus! {

// ---------------------------------------------------------------- hex

/// Lower-case hex digit of a nibble, as an ASCII byte.
pub open spec fn hex_digit(n: u8) -> u8 {
    if n < 10 { (n + 48) as u8 } else { (n + 87) as u8 }
}

/// Two lower-case hex digits per byte, high nibble first.
pub open spec fn hex_bytes(bytes: Seq<u8>) -> Seq<u8>
    decreases bytes.len(),
{
    if bytes.len() == 0 {
        Seq::empty()
    } else {
        hex_bytes(bytes.drop_last()) + seq![hex_digit(bytes.last() / 16), hex_digit(bytes.last() % 16)]
    }
}

proof fn lemma_hex_bytes_shape(bytes: Seq<u8>)
    ensures
        hex_bytes(bytes).len() == 2 * bytes.len(),
        forall|i: int| 0 <= i < hex_bytes(bytes).len() ==> #[trigger] hex_bytes(bytes)[i] < 128,
    decreases bytes.len(),
{
    if bytes.len() > 0 {
        lemma_hex_bytes_shape(bytes.drop_last());
    }
}

/// The lower-case hex text of `bytes`.
pub open spec fn hex_text(bytes: Seq<u8>) -> Seq<char> {
    ascii_chars(hex_bytes(bytes))
}

/// Lower-case hex encoding, two digits per byte.
pub fn hex_encode(bytes: &[u8]) -> (s: String)
    ensures
        s@ == hex_text(bytes@),
        s@.len() == 2 * bytes@.len(),
{
    let mut out: Vec<u8> = Vec::new();
    let mut i: usize = 0;
    while i < bytes.len()
        invariant
            i <= bytes@.len(),
            out@ == hex_bytes(bytes@.subrange(0, i as int)),
        decreases bytes@.len() - i,
    {
        let b = bytes[i];
        let hi: u8 = b / 16;
        let lo: u8 = b % 16;
        let dh: u8 = if hi < 10 { hi + 48 } else { hi + 87 };
        let dl: u8 = if lo < 10 { lo + 48 } else { lo + 87 };
        out.push(dh);
        out.push(dl);
        proof {
            let next = bytes@.subrange(0, i + 1);
            assert(next.drop_last() =~= bytes@.subrange(0, i as int));
            assert(next.last() == b);
        }
        i = i + 1;
    }
    proof {
        assert(bytes@.subrange(0, bytes@.len() as int) =~= bytes@);
        lemma_hex_bytes_shape(bytes@);
    }
    ascii_string(out.as_slice())
}

// ---------------------------------------------------------------- SHA-256

/// The SHA-256 digest of `data`.
pub uninterp spec fn sha256_spec(data: Seq<u8>) -> Seq<u8>;

/// `sha2::Sha256::digest`: the 32-byte SHA-256 digest of `data`, taken as the
/// named function of the input.
#[verifier::external_body]
pub(crate) fn sha256(data: &[u8]) -> (d: [u8; 32])
    ensures
        d@ == sha256_spec(data@),
{
    sha2::Sha256::digest(data).into()
}

/// The content hash of a file: the lower-case hex of its SHA-256 digest.
pub open spec fn content_hash_spec(content: Seq<u8>) -> Seq<char> {
    hex_text(sha256_spec(content))
}

/// Lower-case hex SHA-256 of `content`, 64 characters long.
pub fn content_hash(content: &[u8]) -> (h: String)
    ensures
        h@ == content_hash_spec(content@),
        h@.len() == 64,
{
    let digest = sha256(content);
    hex_encode(digest.as_slice())
}

// ---------------------------------------------------------------- key derivation

/// The domain-separation prefix of the key derivation.
pub open spec fn key_prefix() -> Seq<u8> {
    encode_utf8("codex-plus-config-sync-v1:"@)
}

/// The AES-256 key derived from a shared secret: SHA-256 of the prefix
/// followed by the UTF-8 bytes of the secret.
pub open spec fn derive_key_spec(secret: Seq<char>) -> Seq<u8> {
    sha256_spec(key_prefix() + encode_utf8(secret))
}

/// Derives the 32-byte encryption key from a shared secret.
pub fn derive_key(secret: &str) -> (key: [u8; 32])
    ensures
        key@ == derive_key_spec(secret@),
{
    let mut input: Vec<u8> = Vec::new();
    let prefix = "codex-plus-config-sync-v1:";
    let mut p = vstd::slice::slice_to_vec(prefix.as_bytes());
    input.append(&mut p);
    let mut s = vstd::slice::slice_to_vec(secret.as_bytes());
    input.append(&mut s);
    assert(input@ =~= key_prefix() + encode_utf8(secret@));
    sha256(input.as_slice())
}

// ---------------------------------------------------------------- Base64

/// The standard (padded) Base64 text of `data`.
pub uninterp spec fn base64_encode_spec(data: Seq<u8>) -> Seq<char>;

/// The bytes that standard Base64 text stands for, or `None` where the text
/// is not canonical standard Base64.
pub uninterp spec fn base64_decode_spec(text: Seq<char>) -> Option<Seq<u8>>;

/// `base64::engine::general_purpose::STANDARD.encode`. The result is the named
/// encoding of the input, and the same engine decodes it back to the input.
#[verifier::external_body]
pub(crate) fn base64_encode(data: &[u8]) -> (s: String)
    ensures
        s@ == base64_encode_spec(data@),
        base64_decode_spec(s@) == Some(data@),
{
    base64::engine::general_purpose::STANDARD.encode(data)
}

/// `base64::engine::general_purpose::STANDARD.decode` on the bytes of `text`;
/// `None` where it reports a decode error.
#[verifier::external_body]
pub(crate) fn base64_decode(text: &str) -> (r: Option<Vec<u8>>)
    ensures
        r matches Some(v) ==> base64_decode_spec(text@) == Some(v@),
        r is None ==> base64_decode_spec(text@) is None,
{
    base64::engine::general_purpose::STANDARD.decode(text).ok()
}

// ---------------------------------------------------------------- AES-256-GCM

/// The largest plaintext that AES-GCM accepts, in bytes.
pub open spec fn aes_gcm_max_plaintext() -> int {
    0x10_0000_0000
}

/// AES-256-GCM ciphertext (with its 16-byte tag appended) of `plaintext`
/// under `key` and the 12-byte `nonce`, with no associated data.
pub uninterp spec fn aes_gcm_seal_spec(key: Seq<u8>, nonce: Seq<u8>, plaintext: Seq<u8>) -> Seq<u8>;

/// AES-256-GCM decryption of `ciphertext` (tag appended) under `key` and
/// `nonce`; `None` where authentication fails.
pub uninterp spec fn aes_gcm_open_spec(key: Seq<u8>, nonce: Seq<u8>, ciphertext: Seq<u8>) -> Option<Seq<u8>>;

/// `Aead::encrypt` of `aes_gcm::Aes256Gcm`. It fails exactly when the plaintext
/// is longer than `P_MAX` (2^36 bytes); otherwise it returns the named
/// ciphertext, 16 bytes longer than the plaintext, which `decrypt` with the
/// same key and nonce opens to the plaintext.
#[verifier::external_body]
fn aes_gcm_seal(key: &[u8; 32], nonce: &[u8], plaintext: &[u8]) -> (r: Option<Vec<u8>>)
    requires
        nonce@.len() == 12,
    ensures
        r is Some <==> plaintext@.len() <= aes_gcm_max_plaintext(),
        r matches Some(c) ==> c@ == aes_gcm_seal_spec(key@, nonce@, plaintext@),
        r matches Some(c) ==> c@.len() == plaintext@.len() + 16,
        r matches Some(c) ==> aes_gcm_open_spec(key@, nonce@, c@) == Some(plaintext@),
{
    let cipher = Aes256Gcm::new(key.into());
    cipher.encrypt(aes_gcm::Nonce::from_slice(nonce), plaintext).ok()
}

/// `Aead::decrypt` of `aes_gcm::Aes256Gcm`: the named plaintext, `None` where
/// decryption reports an error.
#[verifier::external_body]
fn aes_gcm_open(key: &[u8; 32], nonce: &[u8], ciphertext: &[u8]) -> (r: Option<Vec<u8>>)
    requires
        nonce@.len() == 12,
    ensures
        r matches Some(p) ==> aes_gcm_open_spec(key@, nonce@, ciphertext@) == Some(p@),
        r is None ==> aes_gcm_open_spec(key@, nonce@, ciphertext@) is None,
{
    let cipher = Aes256Gcm::new(key.into());
    cipher.decrypt(aes_gcm::Nonce::from_slice(nonce), ciphertext).ok()
}

/// `Aes256Gcm::generate_nonce(&mut OsRng)`: 12 random bytes from the
/// operating system. Nothing is known of them but their number.
#[verifier::external_body]
fn random_nonce() -> (n: Vec<u8>)
    ensures
        n@.len() == 12,
{
    Aes256Gcm::generate_nonce(&mut OsRng).to_vec()
}

/// `encoded` is the Base64 of a 12-byte nonce followed by the AES-256-GCM
/// ciphertext of `plaintext` under the key derived from `secret`.
pub open spec fn sealed_with(secret: Seq<char>, plaintext: Seq<u8>, encoded: Seq<char>) -> bool {
    exists|nonce: Seq<u8>|
        nonce.len() == 12 && encoded == base64_encode_spec(
            nonce + aes_gcm_seal_spec(derive_key_spec(secret), nonce, plaintext),
        )
}

/// What decryption of `encoded` with `secret` gives.
pub open spec fn decrypt_spec(secret: Seq<char>, encoded: Seq<char>) -> Result<Seq<u8>, SyncError> {
    match base64_decode_spec(encoded) {
        None => Err(SyncError::InvalidEncryptedPayload),
        Some(payload) => if payload.len() < 12 {
            Err(SyncError::EncryptedPayloadTooShort)
        } else {
            match aes_gcm_open_spec(derive_key_spec(secret), payload.take(12), payload.skip(12)) {
                Some(plaintext) => Ok(plaintext),
                None => Err(SyncError::DecryptionFailed),
            }
        },
    }
}

/// Encrypts `plaintext` under the key derived from `secret` with a fresh
/// random nonce and returns the Base64 of nonce followed by ciphertext.
/// Decryption with the same secret gives the plaintext back.
pub fn encrypt_content(secret: &str, plaintext: &[u8]) -> (r: Result<String, SyncError>)
    ensures
        r is Ok <==> plaintext@.len() <= aes_gcm_max_plaintext(),
        r matches Err(e) ==> e == SyncError::EncryptionFailed,
        r matches Ok(e) ==> sealed_with(secret@, plaintext@, e@),
        r matches Ok(e) ==> decrypt_spec(secret@, e@) == Ok::<Seq<u8>, SyncError>(plaintext@),
        r matches Ok(e) ==> base64_decode_spec(e@) matches Some(payload)
            && payload.len() == 12 + plaintext@.len() + 16,
{
    let key = derive_key(secret);
    let nonce = random_nonce();
    let sealed = aes_gcm_seal(&key, nonce.as_slice(), plaintext);
    match sealed {
        None => Err(SyncError::EncryptionFailed),
        Some(ciphertext) => {
            let mut payload = nonce.clone();
            let mut c = ciphertext;
            let ghost c0 = c@;
            payload.append(&mut c);
            let encoded = base64_encode(payload.as_slice());
            proof {
                assert(payload@.take(12) =~= nonce@);
                assert(payload@.skip(12) =~= c0);
                assert(sealed_with(secret@, plaintext@, encoded@));
            }
            Ok(encoded)
        },
    }
}

/// Decrypts what [`encrypt_content`] produced.
pub fn decrypt_content(secret: &str, encoded: &str) -> (r: Result<Vec<u8>, SyncError>)
    ensures
        r matches Ok(p) ==> decrypt_spec(secret@, encoded@) == Ok::<Seq<u8>, SyncError>(p@),
        r matches Err(e) ==> decrypt_spec(secret@, encoded@) == Err::<Seq<u8>, SyncError>(e),
{
    let payload = match base64_decode(encoded) {
        None => return Err(SyncError::InvalidEncryptedPayload),
        Some(p) => p,
    };
    if payload.len() < 12 {
        return Err(SyncError::EncryptedPayloadTooShort);
    }
    let nonce = vstd::slice::slice_subrange(payload.as_slice(), 0, 12);
    let ciphertext = vstd::slice::slice_subrange(payload.as_slice(), 12, payload.len());
    let key = derive_key(secret);
    assert(nonce@ =~= payload@.take(12));
    assert(ciphertext@ =~= payload@.skip(12));
    match aes_gcm_open(&key, nonce, ciphertext) {
        Some(p) => Ok(p),
        None => Err(SyncError::DecryptionFailed),
    }
}

// ---------------------------------------------------------------- identifiers

/// `uuid::Uuid::new_v4().to_string()`: a random version-4 UUID in its
/// hyphenated form, which is 36 characters long.
#[verifier::external_body]
pub fn new_device_id() -> (id: String)
    ensures
        id@.len() == 36,
{
    uuid::Uuid::new_v4().to_string()
}

} // verus!
