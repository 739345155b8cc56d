//! The calls into outside cryptography, encoding and randomness crates.
//!
//! Every function here is trusted: Verus believes its contract without reading
//! its body. Each contract names what the outside function computes and states
//! only the short facts that its documentation or source shows.
use vstd::prelude::*;

use base64::Engine as _;
use chacha20poly1305::aead::{Aead, KeyInit};
use ml_kem::{Decapsulate, KeyExport, Kem};
use rand::Rng as _;
use rand::RngCore as _;
use rand::SeedableRng as _;
use sha2::Digest as _;
use argon2::{PasswordHasher as _, PasswordVerifier as _};

verus! {

/// ChaCha20-Poly1305 refuses plaintexts of this many 64-byte blocks or more.
pub open spec fn aead_len_ok(len: nat) -> bool {
    len / 64 < 0xFFFF_FFFFnat
}

/// The ChaCha20-Poly1305 ciphertext (with its 16-byte tag appended) of a plaintext.
pub uninterp spec fn chacha_seal(key: Seq<u8>, nonce: Seq<u8>, plaintext: Seq<u8>) -> Seq<u8>;

/// The plaintext that ChaCha20-Poly1305 recovers from a ciphertext, or `None` when it is rejected.
pub uninterp spec fn chacha_open(key: Seq<u8>, nonce: Seq<u8>, ciphertext: Seq<u8>) -> Option<Seq<u8>>;

/// The SHA-256 digest of a byte string.
pub uninterp spec fn sha256(data: Seq<u8>) -> [u8; 32];

/// The X25519 public key of a 32-byte secret.
pub uninterp spec fn x25519_public(secret: Seq<u8>) -> [u8; 32];

/// The X25519 shared secret of a secret key and a peer's public key.
pub uninterp spec fn x25519_shared(secret: Seq<u8>, public: Seq<u8>) -> [u8; 32];

/// Whether ML-KEM-768 accepts the bytes as an encapsulation key.
pub uninterp spec fn mlkem_accepts(encapsulation_key: Seq<u8>) -> bool;

/// The ML-KEM-768 ciphertext and shared key that encapsulation under a key with the given randomness yields.
pub uninterp spec fn mlkem_encapsulate(encapsulation_key: Seq<u8>, randomness: Seq<u8>) -> ([u8; 1088], [u8; 32]);

/// The ML-KEM-768 shared key that the decapsulation key made from a 64-byte seed recovers from a ciphertext.
pub uninterp spec fn mlkem_decapsulate(seed: Seq<u8>, ciphertext: Seq<u8>) -> [u8; 32];

/// The ML-KEM-768 encapsulation key that belongs to the decapsulation key made from a 64-byte seed.
pub uninterp spec fn mlkem_public_of_seed(seed: Seq<u8>) -> [u8; 1184];

/// The ML-KEM-768 key pair (decapsulation seed, encapsulation key) drawn from a ChaCha20 generator with the given seed.
pub uninterp spec fn mlkem_keypair_from_rng_seed(rng_seed: Seq<u8>) -> ([u8; 64], [u8; 1184]);

/// The X25519 secret drawn from the standard generator seeded with the given seed.
pub uninterp spec fn x25519_secret_from_rng_seed(rng_seed: Seq<u8>) -> [u8; 32];

/// The character of a six-bit value in the standard base64 alphabet: `A`-`Z`, `a`-`z`, `0`-`9`,
/// `+`, `/`.
pub open spec fn b64_digit(v: int) -> char {
    if v < 26 {
        ('A' as int + v) as char
    } else if v < 52 {
        ('a' as int + (v - 26)) as char
    } else if v < 62 {
        ('0' as int + (v - 52)) as char
    } else if v == 62 {
        '+'
    } else {
        '/'
    }
}

/// Standard base64 (with padding) of a byte string: each group of three bytes becomes four
/// characters, six bits each, high bits first; a last group of one or two bytes is padded with `=`.
pub open spec fn b64_encode(bytes: Seq<u8>) -> Seq<char>
    decreases bytes.len(),
{
    if bytes.len() == 0 {
        Seq::empty()
    } else if bytes.len() == 1 {
        let b0 = bytes[0] as int;
        seq![b64_digit(b0 / 4), b64_digit((b0 % 4) * 16), '=', '=']
    } else if bytes.len() == 2 {
        let b0 = bytes[0] as int;
        let b1 = bytes[1] as int;
        seq![b64_digit(b0 / 4), b64_digit((b0 % 4) * 16 + b1 / 16), b64_digit((b1 % 16) * 4), '=']
    } else {
        let b0 = bytes[0] as int;
        let b1 = bytes[1] as int;
        let b2 = bytes[2] as int;
        seq![b64_digit(b0 / 4), b64_digit((b0 % 4) * 16 + b1 / 16), b64_digit((b1 % 16) * 4 + b2 / 64), b64_digit(b2 % 64)]
            + b64_encode(bytes.skip(3))
    }
}

/// The bytes that standard base64 decoding recovers from a text, or `None` when it is not valid base64.
pub uninterp spec fn b64_decode(text: Seq<char>) -> Option<Seq<u8>>;

/// Seals a plaintext under ChaCha20-Poly1305 (`ChaCha20Poly1305::encrypt`, no associated data).
/// Claims: the call fails exactly when the plaintext is too long for the cipher's block counter,
/// and otherwise returns the ciphertext named by `chacha_seal`: the plaintext's length plus the
/// 16-byte tag that is appended to it.
#[verifier::external_body]
pub(crate) fn aead_encrypt(key: &[u8; 32], nonce: &[u8; 12], plaintext: &[u8]) -> (r: Option<Vec<u8>>)
    ensures
        aead_len_ok(plaintext@.len()) <==> r is Some,
        r matches Some(c) ==> c@ == chacha_seal(key@, nonce@, plaintext@),
        r matches Some(c) ==> c@.len() == plaintext@.len() + 16,
{
    let cipher = chacha20poly1305::ChaCha20Poly1305::new(chacha20poly1305::Key::from_slice(key));
    cipher.encrypt(chacha20poly1305::Nonce::from_slice(nonce), plaintext).ok()
}

/// Opens a ChaCha20-Poly1305 ciphertext (`ChaCha20Poly1305::decrypt`, no associated data).
/// Claims: the result is the one named by `chacha_open`, and a ciphertext that sealing produced
/// opens to its plaintext under the same key and nonce (the cipher's correctness).
#[verifier::external_body]
pub(crate) fn aead_decrypt(key: &[u8; 32], nonce: &[u8; 12], ciphertext: &[u8]) -> (r: Option<Vec<u8>>)
    ensures
        r matches Some(p) ==> chacha_open(key@, nonce@, ciphertext@) == Some(p@),
        r is None ==> chacha_open(key@, nonce@, ciphertext@) is None,
        forall|p: Seq<u8>|
            #[trigger] chacha_seal(key@, nonce@, p) == ciphertext@ && aead_len_ok(p.len())
                ==> r is Some && r->0@ == p,
{
    let cipher = chacha20poly1305::ChaCha20Poly1305::new(chacha20poly1305::Key::from_slice(key));
    cipher.decrypt(chacha20poly1305::Nonce::from_slice(nonce), ciphertext).ok()
}

/// SHA-256 digest (`sha2::Sha256::digest`). Claims: the result is the one named by `sha256`.
#[verifier::external_body]
pub(crate) fn sha256_digest(data: &[u8]) -> (r: [u8; 32])
    ensures
        r == sha256(data@),
{
    sha2::Sha256::digest(data).into()
}

/// X25519 public key of a secret (`PublicKey::from(&StaticSecret::from(..))`).
/// Claims: the result is the one named by `x25519_public`.
#[verifier::external_body]
pub(crate) fn x25519_public_key(secret: &[u8; 32]) -> (r: [u8; 32])
    ensures
        r == x25519_public(secret@),
{
    let s = x25519_dalek::StaticSecret::from(*secret);
    x25519_dalek::PublicKey::from(&s).to_bytes()
}

/// X25519 key agreement (`StaticSecret::diffie_hellman`). Claims: the result is the one named by
/// `x25519_shared`, and, as Diffie-Hellman promises, both sides of an exchange agree: when the peer's
/// public key belongs to a secret `b`, the result is also what `b` computes with our public key.
#[verifier::external_body]
pub(crate) fn x25519_agree(secret: &[u8; 32], public: &[u8; 32]) -> (r: [u8; 32])
    ensures
        r == x25519_shared(secret@, public@),
        forall|b: Seq<u8>|
            b.len() == 32 && public@ == (#[trigger] x25519_public(b))@
                ==> r == x25519_shared(b, x25519_public(secret@)@),
{
    let s = x25519_dalek::StaticSecret::from(*secret);
    s.diffie_hellman(&x25519_dalek::PublicKey::from(*public)).to_bytes()
}

/// ML-KEM-768 deterministic encapsulation (`EncapsulationKey::new`, then
/// `encapsulate_deterministic`). Claims: the key is refused exactly when `mlkem_accepts` says so,
/// and otherwise the ciphertext and shared key are those named by `mlkem_encapsulate`.
#[verifier::external_body]
pub(crate) fn mlkem_encapsulate_with(encapsulation_key: &[u8; 1184], randomness: &[u8; 32]) -> (r: Option<([u8; 1088], [u8; 32])>)
    ensures
        r is Some <==> mlkem_accepts(encapsulation_key@),
        r matches Some(p) ==> p == mlkem_encapsulate(encapsulation_key@, randomness@),
{
    match ml_kem::ml_kem_768::EncapsulationKey::new(encapsulation_key.into()) {
        Ok(ek) => {
            let (ct, ss) = ek.encapsulate_deterministic(randomness.into());
            Some((ct.into(), ss.into()))
        },
        Err(_) => None,
    }
}

/// ML-KEM-768 decapsulation with the key made from a 64-byte seed (`DecapsulationKey::from`,
/// then `decapsulate`, which never fails). Claims: the result is the one named by `mlkem_decapsulate`.
#[verifier::external_body]
pub(crate) fn mlkem_decapsulate_with(seed: &[u8; 64], ciphertext: &[u8; 1088]) -> (r: [u8; 32])
    ensures
        r == mlkem_decapsulate(seed@, ciphertext@),
{
    let dk = ml_kem::ml_kem_768::DecapsulationKey::from(ml_kem::Seed::from(*seed));
    dk.decapsulate(ciphertext.into()).into()
}

/// ML-KEM-768 key generation from a seeded ChaCha20 generator
/// (`MlKem768::generate_keypair_from_rng`, with both keys exported as bytes).
/// Claims: the pair is the one named by `mlkem_keypair_from_rng_seed`, and its encapsulation key
/// is the one that belongs to its decapsulation seed (the source takes it from that key).
#[verifier::external_body]
pub(crate) fn mlkem_keypair_from(rng_seed: &[u8; 32]) -> (r: ([u8; 64], [u8; 1184]))
    ensures
        r == mlkem_keypair_from_rng_seed(rng_seed@),
        r.1 == mlkem_public_of_seed(r.0@),
{
    let mut rng = <rand_chacha::ChaCha20Rng as rand_core::SeedableRng>::from_seed(*rng_seed);
    let (dk, ek) = ml_kem::MlKem768::generate_keypair_from_rng(&mut rng);
    (dk.to_bytes().into(), ek.to_bytes().into())
}

/// X25519 secret drawn from `rand::rngs::StdRng` seeded with the given seed
/// (`StaticSecret::random_from_rng`). Claims: the result is the one named by `x25519_secret_from_rng_seed`.
#[verifier::external_body]
pub(crate) fn x25519_secret_from(rng_seed: &[u8; 32]) -> (r: [u8; 32])
    ensures
        r == x25519_secret_from_rng_seed(rng_seed@),
{
    let rng = rand::rngs::StdRng::from_seed(*rng_seed);
    x25519_dalek::StaticSecret::random_from_rng(rng).to_bytes()
}

/// Standard base64 encoding (`base64::engine::general_purpose::STANDARD.encode`).
/// Claims: the result is the standard base64 text `b64_encode` of the bytes, and standard decoding
/// gives the bytes back.
#[verifier::external_body]
pub(crate) fn base64_encode(bytes: &[u8]) -> (r: String)
    ensures
        r@ == b64_encode(bytes@),
        b64_decode(r@) == Some(bytes@),
{
    base64::engine::general_purpose::STANDARD.encode(bytes)
}

/// Standard base64 decoding (`STANDARD.decode`). Claims: the result is the one named by
/// `b64_decode`, and the base64 text of a byte string (`b64_encode`) decodes back to that string.
#[verifier::external_body]
pub(crate) fn base64_decode(text: &str) -> (r: Option<Vec<u8>>)
    ensures
        r matches Some(b) ==> b64_decode(text@) == Some(b@),
        r is None ==> b64_decode(text@) is None,
        forall|b: Seq<u8>| #[trigger] b64_encode(b) == text@ ==> r is Some && r->0@ == b,
{
    base64::engine::general_purpose::STANDARD.decode(text).ok()
}

/// Thirty-two bytes from the thread-local generator (`rand::thread_rng().fill_bytes`).
/// Nothing is claimed of them.
#[verifier::external_body]
pub(crate) fn random_bytes_32() -> (r: [u8; 32]) {
    let mut b = [0u8; 32];
    rand::thread_rng().fill_bytes(&mut b);
    b
}

/// Twelve bytes from the thread-local generator (`rand::thread_rng().fill_bytes`).
/// Nothing is claimed of them.
#[verifier::external_body]
pub(crate) fn random_bytes_12() -> (r: [u8; 12]) {
    let mut b = [0u8; 12];
    rand::thread_rng().fill_bytes(&mut b);
    b
}

/// Thirty-two bytes from the operating system (`getrandom::getrandom`), or `None` when the
/// operating system's generator fails. Nothing is claimed of the bytes.
#[verifier::external_body]
pub(crate) fn os_random_32() -> (r: Option<[u8; 32]>) {
    let mut b = [0u8; 32];
    match getrandom::getrandom(&mut b) {
        Ok(()) => Some(b),
        Err(_) => None,
    }
}

/// A uniformly drawn index below `bound` (`rand::thread_rng().gen_range(0..bound)`, which panics on
/// an empty range). Claims: the index is below the bound.
#[verifier::external_body]
pub(crate) fn random_index_below(bound: usize) -> (r: usize)
    requires
        bound > 0,
    ensures
        r < bound,
{
    rand::thread_rng().gen_range(0..bound)
}

/// UTF-8 decoding of a byte vector (`String::from_utf8`). Claims, as std documents: the call
/// succeeds exactly on valid UTF-8, and then yields the characters that the bytes encode.
#[verifier::external_body]
pub(crate) fn string_from_utf8(bytes: Vec<u8>) -> (r: Option<String>)
    ensures
        r is Some <==> vstd::utf8::valid_utf8(bytes@),
        r matches Some(s) ==> s@ == vstd::utf8::decode_utf8(bytes@),
{
    String::from_utf8(bytes).ok()
}

/// Appends a character to a string (`String::push`). Claims, as std documents: the character
/// is added at the end.
#[verifier::external_body]
pub(crate) fn push_char(s: &mut String, c: char)
    ensures
        final(s)@ == old(s)@.push(c),
{
    s.push(c)
}

/// What checking a password against a stored PHC hash string gives.
#[derive(Clone, Copy, PartialEq, Eq, Structural, Debug)]
pub enum PasswordCheck {
    /// The stored string is not a PHC hash string.
    Malformed,
    /// The password does not verify against the hash.
    Mismatch,
    /// The password verifies against the hash.
    Match,
}

/// Whether `password_hash::PasswordHash::new` parses the text as a PHC hash string.
pub uninterp spec fn phc_parses(phc: Seq<char>) -> bool;

/// Whether `Argon2::default().verify_password` accepts the password for the parsed PHC hash string.
pub uninterp spec fn argon2_accepts(password: Seq<u8>, phc: Seq<char>) -> bool;

/// Hashes a password with Argon2 (default parameters) and a fresh random salt
/// (`SaltString::generate`, `Argon2::hash_password`, rendered as a PHC string). The salt is
/// random, so the string is not named; claims: a produced string parses, and the password
/// verifies against it (the crate's documented hash-then-verify use); and, as the source shows
/// (with the default parameters and a generated 16-byte salt, the only input check left is the
/// password's length), hashing fails exactly when the password is longer than `0xFFFF_FFFF` bytes.
#[verifier::external_body]
pub(crate) fn argon2_hash_password(password: &[u8]) -> (r: Option<String>)
    ensures
        r is Some <==> password@.len() <= 0xFFFF_FFFF,
        r matches Some(h) ==> phc_parses(h@) && argon2_accepts(password@, h@),
{
    let salt = argon2::password_hash::SaltString::generate(&mut argon2::password_hash::rand_core::OsRng);
    argon2::Argon2::default().hash_password(password, &salt).ok().map(|h| h.to_string())
}

/// Checks a password against a stored PHC string (`PasswordHash::new`, then
/// `Argon2::default().verify_password`). Claims: the result is `Malformed` exactly when the string
/// does not parse, and otherwise `Match` exactly when verification accepts the password.
#[verifier::external_body]
pub(crate) fn argon2_check(password: &[u8], phc: &str) -> (r: PasswordCheck)
    ensures
        r == PasswordCheck::Malformed <==> !phc_parses(phc@),
        phc_parses(phc@) ==> (r == PasswordCheck::Match <==> argon2_accepts(password@, phc@)),
{
    match argon2::password_hash::PasswordHash::new(phc) {
        Err(_) => PasswordCheck::Malformed,
        Ok(parsed) => match argon2::Argon2::default().verify_password(password, &parsed) {
            Ok(()) => PasswordCheck::Match,
            Err(_) => PasswordCheck::Mismatch,
        },
    }
}

/// What decoding a session token gives.
pub enum JwtOutcome {
    /// The token verified; the text of its `sub` claim, when that claim is a string.
    Valid(Option<String>),
    /// The token's signature is valid but it has expired.
    Expired,
    /// The token is invalid for any other reason.
    Invalid,
}

/// Decodes and validates an HS256 session token (`jsonwebtoken::decode` with `Validation::new(HS256)`,
/// which checks the signature and the expiry against the current time) and reads its `sub` claim.
/// Expiry depends on the clock, so which outcome comes is not claimed in general. Claimed: a token
/// that `jwt_encode_hs256` made with the same secret and a non-negative expiry passes the signature
/// and claim checks, so it is either expired or valid, and then its `sub` text parses back to the
/// user id it was made for (`Uuid::parse_str` reads what `Uuid`'s display wrote).
/// Also claimed, whatever the clock: a token is reported valid or expired only after its HS256
/// signature has verified under the secret (`verify_signature` runs before the claims are read and
/// validated), and a valid token's subject text is the token's own `sub` claim.
#[verifier::external_body]
pub(crate) fn jwt_decode_subject(token: &str, secret: &[u8]) -> (r: JwtOutcome)
    ensures
        r matches JwtOutcome::Valid(Some(t)) ==> hs256_verifies(token@, secret@) && jwt_sub(token@) == Some(t@),
        r is Valid ==> hs256_verifies(token@, secret@),
        r is Expired ==> hs256_verifies(token@, secret@),
        forall|sub: u128, name: Option<Seq<char>>, exp: i64|
            exp >= 0 && token@ == #[trigger] jwt_hs256(sub, name, exp, secret@) ==> (r is Expired || (
            r matches JwtOutcome::Valid(Some(t)) && uuid_parse(t@) == Some(sub))),
{
    let key = jsonwebtoken::DecodingKey::from_secret(secret);
    let validation = jsonwebtoken::Validation::new(jsonwebtoken::Algorithm::HS256);
    match jsonwebtoken::decode::<serde_json::Value>(token, &key, &validation) {
        Ok(data) => JwtOutcome::Valid(data.claims.get("sub").and_then(|v| v.as_str()).map(String::from)),
        Err(e) => match e.kind() {
            jsonwebtoken::errors::ErrorKind::ExpiredSignature => JwtOutcome::Expired,
            _ => JwtOutcome::Invalid,
        },
    }
}

/// Whether the token is three dot-separated parts whose header names HS256 and whose signature is the
/// HMAC-SHA256 of the first two parts under the secret (what `jsonwebtoken`'s signature check accepts).
pub uninterp spec fn hs256_verifies(token: Seq<char>, secret: Seq<u8>) -> bool;

/// The text of the token's `sub` claim, when its payload decodes to a JSON object whose `sub` is a string.
pub uninterp spec fn jwt_sub(token: Seq<char>) -> Option<Seq<char>>;

/// The HS256 session token whose claims are `sub` (the user id as hyphenated text), `name` and `exp`.
pub uninterp spec fn jwt_hs256(sub: u128, name: Option<Seq<char>>, exp: i64, secret: Seq<u8>) -> Seq<char>;

/// Encodes an HS256 session token with the claims `sub`, `name` and `exp` (`jsonwebtoken::encode`
/// with the default header). Claims: a token is always produced (the HMAC key fits the default
/// HS256 header, the header and a JSON map of claims always serialize, and HMAC signing cannot fail),
/// and it is the one named by `jwt_hs256`; its signature verifies under the same secret, and its
/// `sub` claim is the id's hyphenated text, which `Uuid::parse_str` reads back to the id.
#[verifier::external_body]
pub(crate) fn jwt_encode_hs256(sub: u128, name: Option<&str>, exp: i64, secret: &[u8]) -> (r: Option<String>)
    ensures
        r is Some,
        r matches Some(t) ==> hs256_verifies(t@, secret@),
        r matches Some(t) ==> (jwt_sub(t@) matches Some(st) && uuid_parse(st) == Some(sub)),
        r matches Some(t) ==> t@ == jwt_hs256(sub, match name { Some(n) => Some(n@), None => None }, exp, secret@),
{
    let mut claims = serde_json::Map::new();
    claims.insert(String::from("sub"), serde_json::Value::String(uuid::Uuid::from_u128(sub).to_string()));
    claims.insert(String::from("name"), serde_json::Value::from(name));
    claims.insert(String::from("exp"), serde_json::Value::from(exp));
    let key = jsonwebtoken::EncodingKey::from_secret(secret);
    jsonwebtoken::encode(&jsonwebtoken::Header::default(), &claims, &key).ok()
}

/// The current time in seconds since the Unix epoch (`chrono::Utc::now().timestamp()`). It depends
/// on the clock. Claimed, as chrono's source shows: `Utc::now` panics when the system clock is
/// before the epoch or past the calendar's last year (262142), so a returned value is between 0 and
/// 9_000_000_000_000.
#[verifier::external_body]
pub(crate) fn unix_now() -> (r: i64)
    ensures
        0 <= r <= 9_000_000_000_000,
{
    chrono::Utc::now().timestamp()
}

/// The UUID that `uuid::Uuid::parse_str` reads from a text, as a 128-bit number.
pub uninterp spec fn uuid_parse(text: Seq<char>) -> Option<u128>;

/// Parses a UUID (`uuid::Uuid::parse_str`). Claims: the result is the one named by `uuid_parse`.
#[verifier::external_body]
pub(crate) fn uuid_from_text(text: &str) -> (r: Option<u128>)
    ensures
        r == uuid_parse(text@),
{
    uuid::Uuid::parse_str(text).ok().map(|u| u.as_u128())
}

/// A fresh random (version 4) UUID (`uuid::Uuid::new_v4`), as a 128-bit number. Claims, as RFC 4122
/// and the crate document: its version nibble is 4 and its variant bits are `10`.
#[verifier::external_body]
pub(crate) fn new_uuid_v4() -> (r: u128)
    ensures
        (r >> 76u128) & 0xFu128 == 4,
        (r >> 62u128) & 0x3u128 == 2,
{
    uuid::Uuid::new_v4().as_u128()
}

/// The text that `str::to_lowercase` makes of a text (lowercase by the Unicode `Lowercase` property).
pub uninterp spec fn lowercase(text: Seq<char>) -> Seq<char>;

/// The ASCII lowercase of a character: `A`-`Z` become `a`-`z`, every other character stays.
pub open spec fn ascii_lower_char(c: char) -> char {
    if 'A' <= c && c <= 'Z' {
        ((c as u32) + 32) as char
    } else {
        c
    }
}

/// A text all of whose characters are ASCII.
pub open spec fn all_ascii(text: Seq<char>) -> bool {
    forall|i: int| 0 <= i < text.len() ==> (#[trigger] text[i] as u32) < 128
}

/// Lowercases a text (`str::to_lowercase`). Claims: the result is the one named by `lowercase`;
/// and, as the Unicode lowercase mapping of an ASCII character is its ASCII lowercase (one character
/// each, `A`-`Z` to `a`-`z`, the rest unchanged), an ASCII text is lowercased character by character.
#[verifier::external_body]
pub(crate) fn to_lowercase(text: &str) -> (r: String)
    ensures
        r@ == lowercase(text@),
        all_ascii(text@) ==> r@ == text@.map_values(|c: char| ascii_lower_char(c)),
{
    text.to_lowercase()
}

/// The bytes that `serde_json::from_str::<Vec<u8>>` reads from a text (a JSON array of numbers
/// from 0 to 255), or `None` when it refuses the text.
pub uninterp spec fn json_byte_array(text: Seq<char>) -> Option<Seq<u8>>;

/// Reads a JSON array of bytes (`serde_json::from_str::<Vec<u8>>`). Claims: the result is the one
/// named by `json_byte_array`.
#[verifier::external_body]
pub(crate) fn parse_json_byte_array(text: &str) -> (r: Option<Vec<u8>>)
    ensures
        match json_byte_array(text@) {
            Some(b) => r matches Some(v) && v@ == b,
            None => r is None,
        },
{
    serde_json::from_str::<Vec<u8>>(text).ok()
}

} // verus!
