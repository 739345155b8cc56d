//! Encryption of file attachments.
//!
//! A file is sealed with ChaCha20-Poly1305 under its own random key and a random nonce.
//! The nonce travels in the attachment's metadata as base64 text that is itself base64-encoded
//! once more; reading it back undoes both layers.
use vstd::prelude::*;

use crate::bytes::exact_array;
use crate::primitives::{
    aead_decrypt, aead_encrypt, aead_len_ok, b64_decode, b64_encode, base64_decode, base64_encode,
    chacha_open, chacha_seal, random_bytes_12, random_bytes_32, string_from_utf8,
};
use vstd::utf8::{decode_utf8, encode_utf8, valid_utf8};

verus! {

broadcast use vstd::utf8::encode_utf8_decode_utf8, vstd::utf8::encode_utf8_valid_utf8;

/// Why a file could not be encrypted or decrypted.
#[derive(Clone, Copy, PartialEq, Eq, Structural, Debug)]
pub enum FileCryptoError {
    /// The file is too long for the cipher.
    EncryptionFailed,
    /// The nonce text is not base64.
    NonceNotBase64,
    /// The once-decoded nonce is not UTF-8 text.
    NonceNotText,
    /// The once-decoded nonce text is not base64.
    NonceInnerNotBase64,
    /// The file did not authenticate under the key and nonce.
    DecryptionFailed,
}

/// Thirty-two fresh random bytes, used as a file's secret key.
pub fn generate_random_32_bytes() -> (key: [u8; 32]) {
    random_bytes_32()
}

/// Seals a file's bytes under `file_secret_key` and `nonce`, and gives the nonce as base64 text.
pub fn seal_file_bytes(raw_file_bytes: &[u8], file_secret_key: &[u8; 32], nonce: &[u8; 12]) -> (r: Result<(Vec<u8>, String), FileCryptoError>)
    ensures
        aead_len_ok(raw_file_bytes@.len()) ==> (r matches Ok((c, n)) && c@ == chacha_seal(file_secret_key@, nonce@, raw_file_bytes@)
            && n@ == b64_encode(nonce@)),
        !aead_len_ok(raw_file_bytes@.len()) ==> r == Err::<(Vec<u8>, String), FileCryptoError>(FileCryptoError::EncryptionFailed),
{
    match aead_encrypt(file_secret_key, nonce, raw_file_bytes) {
        Some(c) => Ok((c, base64_encode(nonce.as_slice()))),
        None => Err(FileCryptoError::EncryptionFailed),
    }
}

/// Seals a file's bytes under `file_secret_key` with a fresh random nonce; gives the sealed bytes
/// and the nonce as base64 text.
pub fn encrypt_raw_file_bytes(raw_file_bytes: &[u8], file_secret_key: &[u8; 32]) -> (r: Result<(Vec<u8>, String), FileCryptoError>)
    ensures
        aead_len_ok(raw_file_bytes@.len()) ==> exists|nonce: Seq<u8>| nonce.len() == 12 && (r matches Ok((c, n))
            && c@ == chacha_seal(file_secret_key@, nonce, raw_file_bytes@) && n@ == b64_encode(nonce)),
        !aead_len_ok(raw_file_bytes@.len()) ==> r == Err::<(Vec<u8>, String), FileCryptoError>(FileCryptoError::EncryptionFailed),
{
    let nonce = random_bytes_12();
    let r = seal_file_bytes(raw_file_bytes, file_secret_key, &nonce);
    assert(aead_len_ok(raw_file_bytes@.len()) ==> nonce@.len() == 12 && (r matches Ok((c, n))
        && c@ == chacha_seal(file_secret_key@, nonce@, raw_file_bytes@) && n@ == b64_encode(nonce@)));
    r
}

/// The nonce field that the metadata of an attachment carries: the base64 of the text `nonce_base`.
pub fn attachment_nonce_field(nonce_base: &str) -> (r: String)
    ensures
        r@ == b64_encode(encode_utf8(nonce_base@)),
{
    base64_encode(nonce_base.as_bytes())
}

/// The nonce that the metadata field `nonce_base64` carries, undoing both base64 layers
/// (`None` when a layer does not decode).
pub open spec fn decoded_file_nonce(nonce_base64: Seq<char>) -> Option<Seq<u8>> {
    match b64_decode(nonce_base64) {
        None => None,
        Some(first) => if !valid_utf8(first) {
            None
        } else {
            b64_decode(decode_utf8(first))
        },
    }
}

/// What decrypting a file gives, step by step.
pub open spec fn decrypt_file_spec(encrypted: Seq<u8>, nonce_base64: Seq<char>, key: Seq<u8>) -> Result<Seq<u8>, FileCryptoError> {
    match b64_decode(nonce_base64) {
        None => Err(FileCryptoError::NonceNotBase64),
        Some(first) => if !valid_utf8(first) {
            Err(FileCryptoError::NonceNotText)
        } else {
            match b64_decode(decode_utf8(first)) {
                None => Err(FileCryptoError::NonceInnerNotBase64),
                Some(nonce) => match chacha_open(key, nonce, encrypted) {
                    None => Err(FileCryptoError::DecryptionFailed),
                    Some(p) => Ok(p),
                },
            }
        },
    }
}

/// The metadata nonce field yields a nonce of a length other than twelve bytes, which the
/// decryption procedure cannot handle.
pub open spec fn file_nonce_unusable(nonce_base64: Seq<char>) -> bool {
    decoded_file_nonce(nonce_base64) matches Some(n) && n.len() != 12
}

/// Decrypts an attachment's bytes with its key and its (twice base64-encoded) nonce field.
/// The result is `decrypt_file_spec`; and bytes sealed under the key and a nonce decrypt back,
/// given the metadata field that `attachment_nonce_field` makes from that nonce's base64 text.
pub fn decrypt_raw_file_bytes(encrypted_bytes: &[u8], nonce_base64: &str, file_secret_key: &[u8; 32]) -> (r: Result<Vec<u8>, FileCryptoError>)
    requires
        !file_nonce_unusable(nonce_base64@),
    ensures
        match decrypt_file_spec(encrypted_bytes@, nonce_base64@, file_secret_key@) {
            Ok(p) => r matches Ok(v) && v@ == p,
            Err(e) => r == Err::<Vec<u8>, FileCryptoError>(e),
        },
        forall|raw: Seq<u8>, nonce: Seq<u8>|
            nonce.len() == 12 && aead_len_ok(raw.len()) && encrypted_bytes@ == #[trigger] chacha_seal(file_secret_key@, nonce, raw)
                && nonce_base64@ == b64_encode(encode_utf8(b64_encode(nonce))) ==> (r matches Ok(v) && v@ == raw),
{
    let ghost key = file_secret_key@;
    let first = base64_decode(nonce_base64);
    if first.is_none() {
        return Err(FileCryptoError::NonceNotBase64);
    }
    let first = first.unwrap();
    let ghost first_v = first@;
    let text = string_from_utf8(first);
    if text.is_none() {
        return Err(FileCryptoError::NonceNotText);
    }
    let text = text.unwrap();
    let nonce = base64_decode(text.as_str());
    if nonce.is_none() {
        assert forall|raw: Seq<u8>, n: Seq<u8>|
            n.len() == 12 && aead_len_ok(raw.len()) && encrypted_bytes@ == #[trigger] chacha_seal(key, n, raw)
                && nonce_base64@ == b64_encode(encode_utf8(b64_encode(n))) implies false by {
            assert(first_v == encode_utf8(b64_encode(n)));
            assert(text@ == b64_encode(n));
        }
        return Err(FileCryptoError::NonceInnerNotBase64);
    }
    let nonce = nonce.unwrap();
    let nonce_arr: [u8; 12] = exact_array::<12>(nonce.as_slice());
    let plain = aead_decrypt(file_secret_key, &nonce_arr, encrypted_bytes);
    assert forall|raw: Seq<u8>, n: Seq<u8>|
        n.len() == 12 && aead_len_ok(raw.len()) && encrypted_bytes@ == #[trigger] chacha_seal(key, n, raw)
            && nonce_base64@ == b64_encode(encode_utf8(b64_encode(n))) implies (plain matches Some(v) && v@ == raw) by {
        assert(first_v == encode_utf8(b64_encode(n)));
        assert(text@ == b64_encode(n));
        assert(nonce@ == n);
        assert(nonce_arr@ == n);
    }
    match plain {
        Some(p) => Ok(p),
        None => Err(FileCryptoError::DecryptionFailed),
    }
}

/// Whether an attachment's nonce field is one that `decrypt_raw_file_bytes` can handle.
pub fn file_nonce_usable(nonce_base64: &str) -> (b: bool)
    ensures
        b == !file_nonce_unusable(nonce_base64@),
{
    let first = base64_decode(nonce_base64);
    if first.is_none() {
        return true;
    }
    let text = string_from_utf8(first.unwrap());
    if text.is_none() {
        return true;
    }
    let text = text.unwrap();
    match base64_decode(text.as_str()) {
        None => true,
        Some(n) => n.len() == 12,
    }
}

/// Decrypts an attachment like `decrypt_raw_file_bytes`, but returns `None` where that function's
/// input condition fails (the nonce field yields a nonce that is not twelve bytes long).
pub fn try_decrypt_raw_file_bytes(encrypted_bytes: &[u8], nonce_base64: &str, file_secret_key: &[u8; 32]) -> (r: Option<Result<Vec<u8>, FileCryptoError>>)
    ensures
        file_nonce_unusable(nonce_base64@) ==> r is None,
        !file_nonce_unusable(nonce_base64@) ==> match decrypt_file_spec(encrypted_bytes@, nonce_base64@, file_secret_key@) {
            Ok(p) => r matches Some(Ok(v)) && v@ == p,
            Err(e) => r == Some(Err::<Vec<u8>, FileCryptoError>(e)),
        },
{
    if !file_nonce_usable(nonce_base64) {
        return None;
    }
    Some(decrypt_raw_file_bytes(encrypted_bytes, nonce_base64, file_secret_key))
}

} // verus!
