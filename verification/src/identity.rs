//! A user's hybrid identity: an X25519 key pair and an ML-KEM-768 key pair.
//!
//! The secret halves stay on the user's device as base64 text; the public halves are
//! published as base64 text and read back into raw key bytes by other users.
use vstd::prelude::*;

use crate::bytes::{exact_array, prefix_array};
use crate::hybrid::{UserPublicKeyStrings, UserPublicKeys};
use crate::primitives::{
    b64_decode, b64_encode, base64_decode, base64_encode, mlkem_keypair_from, mlkem_keypair_from_rng_seed,
    mlkem_public_of_seed, os_random_32, x25519_public, x25519_public_key, x25519_secret_from,
    x25519_secret_from_rng_seed,
};

verus! {

/// The secret keys as they are kept on the device: base64 text.
pub struct SavedPrivateKeys {
    pub x25519_private_b64: String,
    pub mlkem_private_b64: String,
}

/// The secret keys as raw bytes: the X25519 secret and the 64-byte ML-KEM seed.
pub struct RetrievedPrivateKeys {
    pub x25519_private: [u8; 32],
    pub mlkem_private: [u8; 64],
}

/// A fresh identity: the secret keys to keep, and the public keys (base64 text) to publish.
pub struct HybridIdentity {
    pub private_keys: SavedPrivateKeys,
    pub x25519_public_b64: String,
    pub mlkem_public_b64: String,
}

/// The identity derived from the two generator seeds: its X25519 secret and ML-KEM pair are drawn
/// from generators seeded with them, and its public X25519 key belongs to its secret.
pub open spec fn identity_spec(id: HybridIdentity, x25519_seed: Seq<u8>, mlkem_seed: Seq<u8>) -> bool {
    let x_secret = x25519_secret_from_rng_seed(x25519_seed);
    let pair = mlkem_keypair_from_rng_seed(mlkem_seed);
    &&& id.private_keys.x25519_private_b64@ == b64_encode(x_secret@)
    &&& id.private_keys.mlkem_private_b64@ == b64_encode(pair.0@)
    &&& id.x25519_public_b64@ == b64_encode(x25519_public(x_secret@)@)
    &&& id.mlkem_public_b64@ == b64_encode(pair.1@)
    &&& pair.1 == mlkem_public_of_seed(pair.0@)
}

/// Derives an identity from the two generator seeds.
pub fn derive_hybrid_identity(x25519_seed: &[u8; 32], mlkem_seed: &[u8; 32]) -> (id: HybridIdentity)
    ensures
        identity_spec(id, x25519_seed@, mlkem_seed@),
{
    let x_secret = x25519_secret_from(x25519_seed);
    let x_public = x25519_public_key(&x_secret);
    let (kem_seed, kem_public) = mlkem_keypair_from(mlkem_seed);
    HybridIdentity {
        private_keys: SavedPrivateKeys {
            x25519_private_b64: base64_encode(x_secret.as_slice()),
            mlkem_private_b64: base64_encode(kem_seed.as_slice()),
        },
        x25519_public_b64: base64_encode(x_public.as_slice()),
        mlkem_public_b64: base64_encode(kem_public.as_slice()),
    }
}

/// Generates a fresh identity from two seeds drawn from the operating system; `None` when the
/// operating system's generator fails (no identity is made from a fixed seed).
pub fn generate_hybrid_identities() -> (r: Option<HybridIdentity>)
    ensures
        r is Some ==> exists|x25519_seed: Seq<u8>, mlkem_seed: Seq<u8>| #[trigger] identity_spec(r->0, x25519_seed, mlkem_seed),
{
    let x25519_seed = match os_random_32() {
        Some(s) => s,
        None => return None,
    };
    let mlkem_seed = match os_random_32() {
        Some(s) => s,
        None => return None,
    };
    let id = derive_hybrid_identity(&x25519_seed, &mlkem_seed);
    let r = Some(id);
    assert(identity_spec(r->0, x25519_seed@, mlkem_seed@));
    r
}

/// The secret keys that the saved text yields: each field decoded, and cut to its key length
/// (`None` when a field is not base64 or is too short).
pub open spec fn load_spec(x_text: Seq<char>, kem_text: Seq<char>) -> Option<(Seq<u8>, Seq<u8>)> {
    match b64_decode(x_text) {
        None => None,
        Some(x) => if x.len() < 32 {
            None
        } else {
            match b64_decode(kem_text) {
                None => None,
                Some(k) => if k.len() < 64 {
                    None
                } else {
                    Some((x.take(32), k.take(64)))
                },
            }
        },
    }
}

/// Reads the saved secret keys back into raw bytes. The result is `load_spec`; keys that were
/// saved as the base64 of a 32-byte secret and a 64-byte seed come back unchanged.
pub fn load_private_keys_locally(saved: &SavedPrivateKeys) -> (r: Option<RetrievedPrivateKeys>)
    ensures
        match load_spec(saved.x25519_private_b64@, saved.mlkem_private_b64@) {
            None => r is None,
            Some((x, k)) => r matches Some(keys) && keys.x25519_private@ == x && keys.mlkem_private@ == k,
        },
        forall|x: Seq<u8>, k: Seq<u8>|
            x.len() == 32 && k.len() == 64 && saved.x25519_private_b64@ == #[trigger] b64_encode(x)
                && saved.mlkem_private_b64@ == #[trigger] b64_encode(k)
                ==> (r matches Some(keys) && keys.x25519_private@ == x && keys.mlkem_private@ == k),
{
    let decoded_x = base64_decode(saved.x25519_private_b64.as_str());
    if decoded_x.is_none() {
        return None;
    }
    let decoded_x = decoded_x.unwrap();
    if decoded_x.len() < 32 {
        return None;
    }
    let x25519_private: [u8; 32] = prefix_array::<32>(decoded_x.as_slice());
    let decoded_m = base64_decode(saved.mlkem_private_b64.as_str());
    if decoded_m.is_none() {
        return None;
    }
    let decoded_m = decoded_m.unwrap();
    if decoded_m.len() < 64 {
        return None;
    }
    let mlkem_private: [u8; 64] = prefix_array::<64>(decoded_m.as_slice());
    proof {
        assert(decoded_x@.len() >= 32 ==> decoded_x@.len() == 32 ==> decoded_x@.take(32) =~= decoded_x@);
        assert(decoded_m@.len() >= 64 ==> decoded_m@.len() == 64 ==> decoded_m@.take(64) =~= decoded_m@);
    }
    Some(RetrievedPrivateKeys { x25519_private, mlkem_private })
}

/// The raw key that a base64 field gives: the decoded bytes when they are exactly `n` long,
/// otherwise `n` zero bytes.
pub open spec fn key_or_zeros(text: Option<Seq<char>>, n: nat) -> Seq<u8> {
    match text {
        Some(t) => match b64_decode(t) {
            Some(b) => if b.len() == n { b } else { Seq::new(n, |i: int| 0u8) },
            None => Seq::new(n, |i: int| 0u8),
        },
        None => Seq::new(n, |i: int| 0u8),
    }
}

fn decode_key_32(text: Option<&String>) -> (r: [u8; 32])
    ensures
        r@ == key_or_zeros(match text { Some(t) => Some(t@), None => None }, 32),
        forall|x: Seq<u8>| x.len() == 32 && text is Some && text->0@ == #[trigger] b64_encode(x) ==> r@ == x,
{
    match text {
        Some(t) => match base64_decode(t.as_str()) {
            Some(b) => if b.len() == 32 {
                exact_array::<32>(b.as_slice())
            } else {
                let z = [0u8; 32];
                assert(z@ =~= Seq::new(32, |i: int| 0u8));
                z
            },
            None => {
                let z = [0u8; 32];
                assert(z@ =~= Seq::new(32, |i: int| 0u8));
                z
            },
        },
        None => {
            let z = [0u8; 32];
            assert(z@ =~= Seq::new(32, |i: int| 0u8));
            z
        },
    }
}

fn decode_key_1184(text: Option<&String>) -> (r: [u8; 1184])
    ensures
        r@ == key_or_zeros(match text { Some(t) => Some(t@), None => None }, 1184),
        forall|x: Seq<u8>| x.len() == 1184 && text is Some && text->0@ == #[trigger] b64_encode(x) ==> r@ == x,
{
    match text {
        Some(t) => match base64_decode(t.as_str()) {
            Some(b) => if b.len() == 1184 {
                exact_array::<1184>(b.as_slice())
            } else {
                let z = [0u8; 1184];
                assert(z@ =~= Seq::new(1184, |i: int| 0u8));
                z
            },
            None => {
                let z = [0u8; 1184];
                assert(z@ =~= Seq::new(1184, |i: int| 0u8));
                z
            },
        },
        None => {
            let z = [0u8; 1184];
            assert(z@ =~= Seq::new(1184, |i: int| 0u8));
            z
        },
    }
}

impl UserPublicKeys {
    /// Reads a user's published public keys; a key that is missing, not base64 or of the wrong
    /// length becomes all zeros. Published keys come back as the bytes that were encoded.
    pub fn new(x_public: Option<&String>, pq_public: Option<&String>) -> (r: Self)
        ensures
            r.x25519@ == key_or_zeros(match x_public { Some(t) => Some(t@), None => None }, 32),
            r.mlkem@ == key_or_zeros(match pq_public { Some(t) => Some(t@), None => None }, 1184),
            forall|x: Seq<u8>| x.len() == 32 && x_public is Some && x_public->0@ == #[trigger] b64_encode(x) ==> r.x25519@ == x,
            forall|k: Seq<u8>| k.len() == 1184 && pq_public is Some && pq_public->0@ == #[trigger] b64_encode(k) ==> r.mlkem@ == k,
    {
        let x25519 = decode_key_32(x_public);
        let mlkem = decode_key_1184(pq_public);
        UserPublicKeys { x25519, mlkem }
    }
}

/// Reads every published key pair of a list, in order.
pub fn convert_recipient_keys(keys: &Vec<UserPublicKeyStrings>) -> (r: Vec<UserPublicKeys>)
    ensures
        r@.len() == keys@.len(),
        forall|i: int| 0 <= i < keys@.len() ==> (#[trigger] r@[i]).x25519@ == key_or_zeros(Some(keys@[i].x25519@), 32)
            && r@[i].mlkem@ == key_or_zeros(Some(keys@[i].mlkem@), 1184),
{
    let mut r: Vec<UserPublicKeys> = Vec::new();
    let mut i: usize = 0;
    while i < keys.len()
        invariant
            i <= keys@.len(),
            r@.len() == i,
            forall|j: int| 0 <= j < i ==> (#[trigger] r@[j]).x25519@ == key_or_zeros(Some(keys@[j].x25519@), 32)
                && r@[j].mlkem@ == key_or_zeros(Some(keys@[j].mlkem@), 1184),
        decreases keys@.len() - i,
    {
        let k = UserPublicKeys::new(Some(&keys[i].x25519), Some(&keys[i].mlkem));
        r.push(k);
        i += 1;
    }
    r
}

} // verus!
